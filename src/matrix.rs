use vstd::prelude::*;
use vstd::string::StringExecFns;
use crate::error::Error;
use crate::text::mismatch_message;
use crate::text::mismatch_string;

verus! {

/// Whether every row of `rows` has the same length as every other.
pub open spec fn rows_agree<T>(rows: Seq<Vec<T>>) -> bool {
    forall|i: int, j: int|
        0 <= i < rows.len() && 0 <= j < rows.len() ==> #[trigger] rows[i]@.len()
            == #[trigger] rows[j]@.len()
}

/// Sign of the cofactor at (`row`, `col`): plus on even parity, minus on odd.
pub open spec fn sign_of(row: int, col: int) -> int {
    if (row + col) % 2 == 0 {
        1
    } else {
        -1
    }
}

/// A fresh vector with the same elements as `v`.
pub fn copy_row<T: Copy>(v: &Vec<T>) -> (r: Vec<T>)
    ensures
        r@ == v@,
{
    let mut r: Vec<T> = Vec::new();
    let mut j: usize = 0;
    while j < v.len()
        invariant
            j <= v@.len(),
            r@ == v@.subrange(0, j as int),
        decreases v@.len() - j,
    {
        r.push(v[j]);
        j = j + 1;
    }
    assert(r@ == v@.subrange(0, v@.len() as int));
    r
}

/// The sign of the cofactor at (`row`, `col`) in a cofactor expansion.
pub fn cofactor_sign(row: usize, col: usize) -> (s: i32)
    ensures
        s == sign_of(row as int, col as int),
{
    if row % 2 == col % 2 {
        1
    } else {
        -1
    }
}

/// A dense grid of `rows` rows of `cols` entries each, stored row by row.
pub struct Matrix<T> {
    pub rows: usize,
    pub cols: usize,
    pub data: Vec<Vec<T>>,
}

impl<T> Matrix<T> {
    /// Whether all rows of `data` have the same length as the first one.
    pub fn valid_matrix_contents(data: &Vec<Vec<T>>) -> (ok: bool)
        ensures
            ok == rows_agree(data@),
    {
        if data.len() == 0 {
            return true;
        }
        let column_size = data[0].len();
        let mut i: usize = 0;
        while i < data.len()
            invariant
                i <= data@.len(),
                data@.len() > 0,
                column_size == data@[0]@.len(),
                forall|a: int| 0 <= a < i ==> (#[trigger] data@[a])@.len() == column_size,
            decreases data@.len() - i,
        {
            if data[i].len() != column_size {
                assert(data@[i as int]@.len() != data@[0]@.len());
                return false;
            }
            i = i + 1;
        }
        true
    }
}

impl<T: Copy> Matrix<T> {
    /// The grid has `rows` rows and each of them has `cols` entries.
    pub open spec fn wf(&self) -> bool {
        &&& self.data@.len() == self.rows
        &&& forall|i: int| 0 <= i < self.rows ==> (#[trigger] self.data@[i])@.len() == self.cols
    }

    /// The rows as sequences of entries.
    pub open spec fn grid(&self) -> Seq<Seq<T>> {
        self.data@.map_values(|r: Vec<T>| r@)
    }

    /// The entry at row `i`, column `j`.
    pub open spec fn entry(&self, i: int, j: int) -> T {
        self.data@[i]@[j]
    }

    /// Same shape and the same entry at every position.
    pub open spec fn same_entries(&self, other: &Matrix<T>) -> bool {
        &&& self.rows == other.rows
        &&& self.cols == other.cols
        &&& forall|i: int, j: int|
            0 <= i < self.rows && 0 <= j < self.cols ==> #[trigger] self.entry(i, j)
                == other.entry(i, j)
    }

    /// A `rows` by `cols` grid with `fill` in every position.
    pub fn new(rows: usize, cols: usize, fill: T) -> (m: Matrix<T>)
        ensures
            m.wf(),
            m.rows == rows,
            m.cols == cols,
            forall|i: int, j: int| 0 <= i < rows && 0 <= j < cols ==> #[trigger] m.entry(i, j) == fill,
    {
        let mut data: Vec<Vec<T>> = Vec::new();
        let mut i: usize = 0;
        while i < rows
            invariant
                i <= rows,
                data@.len() == i,
                forall|a: int| 0 <= a < i ==> (#[trigger] data@[a])@.len() == cols,
                forall|a: int, b: int| 0 <= a < i && 0 <= b < cols ==> data@[a]@[b] == fill,
            decreases rows - i,
        {
            let mut row: Vec<T> = Vec::new();
            let mut j: usize = 0;
            while j < cols
                invariant
                    j <= cols,
                    row@.len() == j,
                    forall|b: int| 0 <= b < j ==> row@[b] == fill,
                decreases cols - j,
            {
                row.push(fill);
                j = j + 1;
            }
            data.push(row);
            i = i + 1;
        }
        Matrix { rows, cols, data }
    }

    /// A deep copy: a new grid with the same shape and entries, owning its own rows.
    pub fn copy(&self) -> (m: Matrix<T>)
        requires
            self.wf(),
        ensures
            m.wf(),
            m.same_entries(self),
    {
        let mut data: Vec<Vec<T>> = Vec::new();
        let mut i: usize = 0;
        while i < self.rows
            invariant
                self.wf(),
                i <= self.rows,
                data@.len() == i,
                forall|a: int| 0 <= a < i ==> (#[trigger] data@[a])@.len() == self.cols,
                forall|a: int, b: int|
                    0 <= a < i && 0 <= b < self.cols ==> data@[a]@[b] == self.entry(a, b),
            decreases self.rows - i,
        {
            let row = copy_row(&self.data[i]);
            data.push(row);
            i = i + 1;
        }
        Matrix { rows: self.rows, cols: self.cols, data }
    }

    /// The entry at row `i`, column `j`.
    pub fn get(&self, i: usize, j: usize) -> (v: T)
        requires
            self.wf(),
            i < self.rows,
            j < self.cols,
        ensures
            v == self.entry(i as int, j as int),
    {
        self.data[i][j]
    }

    /// Writes `v` at row `i`, column `j`, and changes nothing else.
    pub fn set(&mut self, i: usize, j: usize, v: T)
        requires
            old(self).wf(),
            i < old(self).rows,
            j < old(self).cols,
        ensures
            final(self).wf(),
            final(self).rows == old(self).rows,
            final(self).cols == old(self).cols,
            final(self).entry(i as int, j as int) == v,
            forall|a: int, b: int|
                0 <= a < final(self).rows && 0 <= b < final(self).cols && (a != i || b != j)
                    ==> #[trigger] final(self).entry(a, b) == old(self).entry(a, b),
    {
        self.data[i][j] = v;
    }

    /// Whether the grid holds `rows` rows of `cols` entries each.
    pub fn is_valid(&self) -> (r: bool)
        ensures
            r == self.wf(),
    {
        if self.data.len() != self.rows {
            return false;
        }
        let mut i: usize = 0;
        while i < self.rows
            invariant
                self.data@.len() == self.rows,
                i <= self.rows,
                forall|a: int| 0 <= a < i ==> (#[trigger] self.data@[a])@.len() == self.cols,
            decreases self.rows - i,
        {
            if self.data[i].len() != self.cols {
                return false;
            }
            i = i + 1;
        }
        true
    }

    /// Whether the grid has as many rows as columns.
    pub fn is_square(&self) -> (r: bool)
        ensures
            r == (self.rows == self.cols),
    {
        self.rows == self.cols
    }

    /// The larger of the two dimensions.
    pub fn size(&self) -> (r: usize)
        ensures
            r == if self.rows >= self.cols { self.rows } else { self.cols },
    {
        if self.rows >= self.cols {
            self.rows
        } else {
            self.cols
        }
    }

    /// Writes `one` on every diagonal entry of a square grid, leaving every other
    /// entry as it was. A grid that is not square is left unchanged and a
    /// dimension error comes back.
    pub fn identity(&mut self, one: T) -> (r: Result<(), Error>)
        requires
            old(self).wf(),
        ensures
            final(self).wf(),
            r is Ok <==> old(self).rows == old(self).cols,
            r matches Err(e) ==> e.is_dimension() && *final(self) == *old(self),
            r is Ok ==> final(self).rows == old(self).rows && final(self).cols == old(self).cols,
            r is Ok ==> forall|a: int, b: int|
                0 <= a < final(self).rows && 0 <= b < final(self).cols ==> #[trigger] final(self).entry(a, b)
                    == if a == b { one } else { old(self).entry(a, b) },
    {
        if !self.is_square() {
            return Err(Error::dimension("Not a squared matrix."));
        }
        let mut r: usize = 0;
        while r < self.rows
            invariant
                self.wf(),
                r <= self.rows,
                self.rows == old(self).rows,
                self.cols == old(self).cols,
                self.rows == self.cols,
                forall|a: int, b: int|
                    0 <= a < self.rows && 0 <= b < self.cols ==> #[trigger] self.entry(a, b)
                        == if a == b && a < r { one } else { old(self).entry(a, b) },
            decreases self.rows - r,
        {
            self.set(r, r, one);
            r = r + 1;
        }
        Ok(())
    }

    /// Exchanges rows `a` and `b`.
    pub fn swap_rows(&mut self, a: usize, b: usize)
        requires
            old(self).wf(),
            a < old(self).rows,
            b < old(self).rows,
        ensures
            final(self).wf(),
            final(self).rows == old(self).rows,
            final(self).cols == old(self).cols,
            final(self).grid() == old(self).grid().update(a as int, old(self).grid()[b as int]).update(
                b as int,
                old(self).grid()[a as int],
            ),
    {
        let row_a = copy_row(&self.data[a]);
        let row_b = copy_row(&self.data[b]);
        self.data.set(a, row_b);
        self.data.set(b, row_a);
        assert(self.grid() =~= old(self).grid().update(a as int, old(self).grid()[b as int]).update(
            b as int,
            old(self).grid()[a as int],
        ));
    }

    /// The first row whose entry in column `col` passes `test`, if any; every
    /// row above it fails the test.
    pub fn first_row_where<F: Fn(T) -> bool>(&self, col: usize, test: F) -> (r: Option<usize>)
        requires
            self.wf(),
            col < self.cols,
            forall|x: T| test.requires((x,)),
        ensures
            r matches Some(k) ==> k < self.rows && test.ensures(
                (self.entry(k as int, col as int),),
                true,
            ),
            forall|k: int|
                0 <= k < (if let Some(found) = r { found as int } else { self.rows as int })
                    ==> test.ensures((#[trigger] self.entry(k, col as int),), false),
    {
        let mut r: usize = 0;
        while r < self.rows
            invariant
                self.wf(),
                col < self.cols,
                forall|x: T| test.requires((x,)),
                r <= self.rows,
                forall|k: int| 0 <= k < r ==> test.ensures((#[trigger] self.entry(k, col as int),), false),
            decreases self.rows - r,
        {
            if test(self.data[r][col]) {
                return Some(r);
            }
            r = r + 1;
        }
        None
    }

    /// The grid left after deleting row `row` and column `col`.
    pub fn minor(&self, row: usize, col: usize) -> (m: Matrix<T>)
        requires
            self.wf(),
            row < self.rows,
            col < self.cols,
        ensures
            m.wf(),
            m.rows == self.rows - 1,
            m.cols == self.cols - 1,
            forall|i: int, j: int|
                0 <= i < m.rows && 0 <= j < m.cols ==> #[trigger] m.entry(i, j) == self.entry(
                    if i < row { i } else { i + 1 },
                    if j < col { j } else { j + 1 },
                ),
    {
        let mut cut: Vec<Vec<T>> = Vec::new();
        let mut r: usize = 0;
        while r < self.rows
            invariant
                self.wf(),
                row < self.rows,
                col < self.cols,
                r <= self.rows,
                cut@.len() == if r <= row { r as int } else { r - 1 },
                forall|a: int| 0 <= a < cut@.len() ==> (#[trigger] cut@[a])@.len() == self.cols - 1,
                forall|a: int, b: int|
                    0 <= a < cut@.len() && 0 <= b < self.cols - 1 ==> cut@[a]@[b] == self.entry(
                        if a < row { a } else { a + 1 },
                        if b < col { b } else { b + 1 },
                    ),
            decreases self.rows - r,
        {
            if r != row {
                let mut v: Vec<T> = Vec::new();
                let mut c: usize = 0;
                while c < self.cols
                    invariant
                        self.wf(),
                        r < self.rows,
                        col < self.cols,
                        c <= self.cols,
                        v@.len() == if c <= col { c as int } else { c - 1 },
                        forall|b: int|
                            0 <= b < v@.len() ==> v@[b] == self.entry(
                                r as int,
                                if b < col { b } else { b + 1 },
                            ),
                    decreases self.cols - c,
                {
                    if c != col {
                        v.push(self.data[r][c]);
                    }
                    c = c + 1;
                }
                cut.push(v);
            }
            r = r + 1;
        }
        Matrix { rows: self.rows - 1, cols: self.cols - 1, data: cut }
    }

    /// A new grid of the same shape whose entries are `f` of the entries of this one.
    pub fn map<U: Copy, F: Fn(T) -> U>(&self, f: F) -> (m: Matrix<U>)
        requires
            self.wf(),
            forall|x: T| f.requires((x,)),
        ensures
            m.wf(),
            m.rows == self.rows,
            m.cols == self.cols,
            forall|i: int, j: int|
                0 <= i < m.rows && 0 <= j < m.cols ==> f.ensures(
                    (self.entry(i, j),),
                    #[trigger] m.entry(i, j),
                ),
    {
        let mut data: Vec<Vec<U>> = Vec::new();
        let mut i: usize = 0;
        while i < self.rows
            invariant
                self.wf(),
                forall|x: T| f.requires((x,)),
                i <= self.rows,
                data@.len() == i,
                forall|a: int| 0 <= a < i ==> (#[trigger] data@[a])@.len() == self.cols,
                forall|a: int, b: int|
                    0 <= a < i && 0 <= b < self.cols ==> f.ensures((self.entry(a, b),), data@[a]@[b]),
            decreases self.rows - i,
        {
            let mut row: Vec<U> = Vec::new();
            let mut j: usize = 0;
            while j < self.cols
                invariant
                    self.wf(),
                    forall|x: T| f.requires((x,)),
                    i < self.rows,
                    j <= self.cols,
                    row@.len() == j,
                    forall|b: int| 0 <= b < j ==> f.ensures((self.entry(i as int, b),), row@[b]),
                decreases self.cols - j,
            {
                let v = f(self.data[i][j]);
                row.push(v);
                j = j + 1;
            }
            data.push(row);
            i = i + 1;
        }
        Matrix { rows: self.rows, cols: self.cols, data }
    }

    /// Replaces every entry by `f` of it, in place.
    pub fn apply<F: Fn(T) -> T>(&mut self, f: F)
        requires
            old(self).wf(),
            forall|x: T| f.requires((x,)),
        ensures
            final(self).wf(),
            final(self).rows == old(self).rows,
            final(self).cols == old(self).cols,
            forall|i: int, j: int|
                0 <= i < final(self).rows && 0 <= j < final(self).cols ==> f.ensures(
                    (old(self).entry(i, j),),
                    #[trigger] final(self).entry(i, j),
                ),
    {
        let m = self.map(f);
        *self = m;
    }

    /// Combines two grids of the same shape entry by entry with `f`. Grids of
    /// different shapes give a dimension error.
    pub fn zip_with<F: Fn(T, T) -> T>(&self, other: &Matrix<T>, f: F) -> (r: Result<Matrix<T>, Error>)
        requires
            self.wf(),
            other.wf(),
            forall|x: T, y: T| f.requires((x, y)),
        ensures
            r is Ok <==> self.rows == other.rows && self.cols == other.cols,
            r matches Err(e) ==> e.is_dimension(),
            r matches Ok(m) ==> m.wf() && m.rows == self.rows && m.cols == self.cols,
            r matches Ok(m) ==> forall|i: int, j: int|
                0 <= i < m.rows && 0 <= j < m.cols ==> f.ensures(
                    (self.entry(i, j), other.entry(i, j)),
                    #[trigger] m.entry(i, j),
                ),
    {
        if self.rows != other.rows || self.cols != other.cols {
            return Err(Error::dimension("Can't combine two matrices of different dimensions."));
        }
        let mut data: Vec<Vec<T>> = Vec::new();
        let mut i: usize = 0;
        while i < self.rows
            invariant
                self.wf(),
                other.wf(),
                self.rows == other.rows,
                self.cols == other.cols,
                forall|x: T, y: T| f.requires((x, y)),
                i <= self.rows,
                data@.len() == i,
                forall|a: int| 0 <= a < i ==> (#[trigger] data@[a])@.len() == self.cols,
                forall|a: int, b: int|
                    0 <= a < i && 0 <= b < self.cols ==> f.ensures(
                        (self.entry(a, b), other.entry(a, b)),
                        data@[a]@[b],
                    ),
            decreases self.rows - i,
        {
            let mut row: Vec<T> = Vec::new();
            let mut j: usize = 0;
            while j < self.cols
                invariant
                    self.wf(),
                    other.wf(),
                    self.rows == other.rows,
                    self.cols == other.cols,
                    forall|x: T, y: T| f.requires((x, y)),
                    i < self.rows,
                    j <= self.cols,
                    row@.len() == j,
                    forall|b: int|
                        0 <= b < j ==> f.ensures(
                            (self.entry(i as int, b), other.entry(i as int, b)),
                            row@[b],
                        ),
                decreases self.cols - j,
            {
                let v = f(self.data[i][j], other.data[i][j]);
                row.push(v);
                j = j + 1;
            }
            data.push(row);
            i = i + 1;
        }
        Ok(Matrix { rows: self.rows, cols: self.cols, data })
    }

    /// A `rows` by `cols` grid whose entry at (`i`, `j`) is `f(i, j)`.
    pub fn from_fn<F: Fn(usize, usize) -> T>(rows: usize, cols: usize, f: F) -> (m: Matrix<T>)
        requires
            forall|i: usize, j: usize| i < rows && j < cols ==> f.requires((i, j)),
        ensures
            m.wf(),
            m.rows == rows,
            m.cols == cols,
            forall|i: int, j: int|
                0 <= i < rows && 0 <= j < cols ==> f.ensures((i as usize, j as usize), #[trigger] m.entry(i, j)),
    {
        let mut data: Vec<Vec<T>> = Vec::new();
        let mut i: usize = 0;
        while i < rows
            invariant
                forall|i: usize, j: usize| i < rows && j < cols ==> f.requires((i, j)),
                i <= rows,
                data@.len() == i,
                forall|a: int| 0 <= a < i ==> (#[trigger] data@[a])@.len() == cols,
                forall|a: int, b: int|
                    0 <= a < i && 0 <= b < cols ==> f.ensures((a as usize, b as usize), data@[a]@[b]),
            decreases rows - i,
        {
            let mut row: Vec<T> = Vec::new();
            let mut j: usize = 0;
            while j < cols
                invariant
                    forall|i: usize, j: usize| i < rows && j < cols ==> f.requires((i, j)),
                    i < rows,
                    j <= cols,
                    row@.len() == j,
                    forall|b: int| 0 <= b < j ==> f.ensures((i, b as usize), row@[b]),
                decreases cols - j,
            {
                let v = f(i, j);
                row.push(v);
                j = j + 1;
            }
            data.push(row);
            i = i + 1;
        }
        Matrix { rows, cols, data }
    }

    /// The shape of the product of this grid by `other`: defined when this
    /// grid has as many columns as `other` has rows, and then `self.rows` by
    /// `other.cols`. Otherwise a dimension error names both shapes.
    pub fn product_shape<U>(&self, other: &Matrix<U>) -> (r: Result<(usize, usize), Error>)
        ensures
            r is Ok <==> self.cols == other.rows,
            r matches Ok(shape) ==> shape == (self.rows, other.cols),
            r matches Err(e) ==> e.is_dimension() && e.message@ == mismatch_message(
                self.rows as nat,
                self.cols as nat,
                other.rows as nat,
                other.cols as nat,
            ),
    {
        if self.cols != other.rows {
            let message = mismatch_string(self.rows, self.cols, other.rows, other.cols);
            proof {
                reveal_strlit("DimensionError");
            }
            return Err(Error::new(message, String::from_str("DimensionError")));
        }
        Ok((self.rows, other.cols))
    }

    /// Builds a grid from its rows. Fails with a dimension error when there is
    /// no row or when the rows differ in length.
    pub fn from_rows(data: Vec<Vec<T>>) -> (r: Result<Matrix<T>, Error>)
        ensures
            r is Ok <==> data@.len() > 0 && rows_agree(data@),
            r matches Ok(m) ==> m.wf() && m.data@ == data@ && m.rows == data@.len()
                && m.cols == data@[0]@.len(),
            r matches Err(e) ==> e.is_dimension(),
    {
        if data.len() == 0 || !Self::valid_matrix_contents(&data) {
            return Err(Error::dimension("Not a valid matrix."));
        }
        let rows = data.len();
        let cols = data[0].len();
        let m = Matrix { rows, cols, data };
        assert forall|i: int| 0 <= i < m.rows implies (#[trigger] m.data@[i])@.len() == m.cols by {
            assert(m.data@[i]@.len() == m.data@[0]@.len());
        }
        Ok(m)
    }
}

} // verus!
