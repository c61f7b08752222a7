use vstd::prelude::*;
use vstd::string::StrSliceExecFns;
use vstd::string::StringExecFns;
use crate::error::Error;

verus! {

/// The decimal digits, indexed by their value.
pub open spec fn digits() -> Seq<char> {
    "0123456789"@
}

/// The decimal writing of `n`, without leading zeros.
pub open spec fn decimal(n: nat) -> Seq<char>
    decreases n,
{
    if n < 10 {
        seq![digits()[n as int]]
    } else {
        decimal(n / 10) + seq![digits()[(n % 10) as int]]
    }
}

/// The pieces of `s` between occurrences of `sep`, in order. A text without
/// `sep` is one piece; the empty text is one empty piece.
pub open spec fn split(s: Seq<char>, sep: char) -> Seq<Seq<char>>
    decreases s.len(),
{
    if s.len() == 0 {
        seq![Seq::empty()]
    } else {
        let prev = split(s.drop_last(), sep);
        if s.last() == sep {
            prev.push(Seq::empty())
        } else {
            prev.update(prev.len() - 1, prev.last().push(s.last()))
        }
    }
}

/// The text `s` read as a table: rows between occurrences of `row_sep`, and
/// in each row the cells between occurrences of `col_sep`.
pub open spec fn table(s: Seq<char>, row_sep: char, col_sep: char) -> Seq<Seq<Seq<char>>> {
    split(s, row_sep).map_values(|row: Seq<char>| split(row, col_sep))
}

/// Whether all rows of a table have the same number of cells.
pub open spec fn table_agrees(t: Seq<Seq<Seq<char>>>) -> bool {
    forall|i: int, j: int|
        0 <= i < t.len() && 0 <= j < t.len() ==> #[trigger] t[i].len() == #[trigger] t[j].len()
}

/// `s` is never split into zero pieces.
pub proof fn lemma_split_nonempty(s: Seq<char>, sep: char)
    ensures
        split(s, sep).len() >= 1,
    decreases s.len(),
{
    if s.len() > 0 {
        lemma_split_nonempty(s.drop_last(), sep);
    }
}

/// The decimal writing of `n` as text.
pub fn decimal_string(n: usize) -> (s: String)
    ensures
        s@ == decimal(n as nat),
    decreases n,
{
    proof {
        reveal_strlit("0123456789");
    }
    let d: usize = n % 10;
    let last = "0123456789".substring_char(d, d + 1);
    assert(last@ =~= seq![digits()[d as int]]);
    if n < 10 {
        String::from_str(last)
    } else {
        let mut s = decimal_string(n / 10);
        s.append(last);
        s
    }
}

/// The message of a failed product: the shapes of both operands.
pub open spec fn mismatch_message(r1: nat, c1: nat, r2: nat, c2: nat) -> Seq<char> {
    "Dimensions not matched. M1 is "@ + decimal(r1) + "x"@ + decimal(c1) + " and M2 is "@
        + decimal(r2) + "x"@ + decimal(c2)
}

/// Writes the message of a failed product for operands of shapes
/// `r1` by `c1` and `r2` by `c2`.
pub fn mismatch_string(r1: usize, c1: usize, r2: usize, c2: usize) -> (s: String)
    ensures
        s@ == mismatch_message(r1 as nat, c1 as nat, r2 as nat, c2 as nat),
{
    let mut s = String::from_str("Dimensions not matched. M1 is ");
    s.append(decimal_string(r1).as_str());
    s.append("x");
    s.append(decimal_string(c1).as_str());
    s.append(" and M2 is ");
    s.append(decimal_string(r2).as_str());
    s.append("x");
    s.append(decimal_string(c2).as_str());
    s
}

/// Splits `s` at every occurrence of `sep`.
pub fn split_fields(s: &str, sep: char) -> (r: Vec<String>)
    ensures
        r@.map_values(|f: String| f@) == split(s@, sep),
{
    let n = s.unicode_len();
    let mut done: Vec<String> = Vec::new();
    let mut start: usize = 0;
    let mut i: usize = 0;
    assert(s@.subrange(0, 0) =~= Seq::<char>::empty());
    assert(done@.map_values(|f: String| f@).push(s@.subrange(0, 0)) =~= split(s@.subrange(0, 0), sep));
    while i < n
        invariant
            n == s@.len(),
            start <= i <= n,
            done@.map_values(|f: String| f@).push(s@.subrange(start as int, i as int)) == split(
                s@.subrange(0, i as int),
                sep,
            ),
        decreases n - i,
    {
        let c = s.get_char(i);
        let ghost prefix = s@.subrange(0, i as int + 1);
        let ghost before = done@.map_values(|f: String| f@);
        let ghost prev = split(s@.subrange(0, i as int), sep);
        assert(prefix.drop_last() =~= s@.subrange(0, i as int));
        assert(prefix.last() == c);
        assert(prev == before.push(s@.subrange(start as int, i as int)));
        if c == sep {
            let piece = String::from_str(s.substring_char(start, i));
            done.push(piece);
            start = i + 1;
            assert(done@.map_values(|f: String| f@) =~= prev);
            assert(s@.subrange(start as int, i as int + 1) =~= Seq::<char>::empty());
            assert(split(prefix, sep) == prev.push(Seq::empty()));
            assert(done@.map_values(|f: String| f@).push(s@.subrange(start as int, i as int + 1))
                =~= split(prefix, sep));
        } else {
            assert(s@.subrange(start as int, i as int + 1) =~= s@.subrange(start as int, i as int).push(c));
            assert(split(prefix, sep) == prev.update(prev.len() - 1, prev.last().push(c)));
            assert(done@.map_values(|f: String| f@).push(s@.subrange(start as int, i as int + 1))
                =~= split(prefix, sep));
        }
        i = i + 1;
    }
    let piece = String::from_str(s.substring_char(start, n));
    done.push(piece);
    assert(s@.subrange(0, n as int) =~= s@);
    assert(done@.map_values(|f: String| f@) =~= split(s@, sep));
    done
}

/// Reads `s` as a table of cells (see `table`). Rows with different numbers
/// of cells give a dimension error.
pub fn cells(s: &str, row_sep: char, col_sep: char) -> (r: Result<Vec<Vec<String>>, Error>)
    ensures
        r is Ok <==> table_agrees(table(s@, row_sep, col_sep)),
        r matches Err(e) ==> e.is_dimension(),
        r matches Ok(t) ==> t@.len() == table(s@, row_sep, col_sep).len() && forall|i: int|
            0 <= i < t@.len() ==> (#[trigger] t@[i])@.map_values(|f: String| f@) == table(
                s@,
                row_sep,
                col_sep,
            )[i],
{
    let lines = split_fields(s, row_sep);
    let ghost t = table(s@, row_sep, col_sep);
    proof {
        lemma_split_nonempty(s@, row_sep);
        assert(lines@.len() == split(s@, row_sep).len());
    }
    let mut out: Vec<Vec<String>> = Vec::new();
    let mut i: usize = 0;
    while i < lines.len()
        invariant
            t == table(s@, row_sep, col_sep),
            lines@.map_values(|f: String| f@) == split(s@, row_sep),
            lines@.len() == t.len(),
            lines@.len() >= 1,
            i <= lines@.len(),
            out@.len() == i,
            forall|a: int| 0 <= a < i ==> (#[trigger] out@[a])@.map_values(|f: String| f@) == t[a],
            forall|a: int| 0 <= a < i ==> (#[trigger] out@[a])@.len() == out@[0]@.len(),
            i > 0 ==> forall|a: int, b: int| 0 <= a < i && 0 <= b < i ==> #[trigger] t[a].len() == #[trigger] t[b].len(),
        decreases lines@.len() - i,
    {
        let row = split_fields(lines[i].as_str(), col_sep);
        assert(lines@.map_values(|f: String| f@)[i as int] == lines@[i as int]@);
        assert(row@.map_values(|f: String| f@) == t[i as int]);
        if i > 0 && row.len() != out[0].len() {
            assert(t[i as int].len() != t[0].len());
            return Err(Error::dimension("Not a valid matrix."));
        }
        out.push(row);
        i = i + 1;
    }
    Ok(out)
}

} // verus!
