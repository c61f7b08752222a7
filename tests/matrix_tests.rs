use matrices::matrix::cofactor_sign;
use matrices::Error;
use matrices::Matrix;

fn grid(rows: &[&[f64]]) -> Matrix<f64> {
    let data: Vec<Vec<f64>> = rows.iter().map(|r| r.to_vec()).collect();
    match Matrix::from_rows(data) {
        Ok(m) => m,
        Err(e) => panic!("{}", e.describe()),
    }
}

fn entries(m: &Matrix<f64>) -> Vec<Vec<f64>> {
    let mut out = Vec::new();
    for i in 0..m.rows {
        let mut row = Vec::new();
        for j in 0..m.cols {
            row.push(m.get(i, j));
        }
        out.push(row);
    }
    out
}

fn det(m: &Matrix<f64>) -> f64 {
    if m.rows == 1 {
        return m.get(0, 0);
    }
    if m.rows == 2 {
        return m.get(0, 0) * m.get(1, 1) - m.get(0, 1) * m.get(1, 0);
    }
    let mut sum = 0.0;
    for j in 0..m.cols {
        sum += cofactor_sign(1, j) as f64 * det(&m.minor(1, j)) * m.get(1, j);
    }
    sum
}

#[test]
fn error_new_keeps_fields() {
    let e = Error::new("bad shape".to_string(), "DimensionError".to_string());
    assert_eq!(e.message, "bad shape");
    assert_eq!(e.error_type, "DimensionError");
    assert_eq!(e.describe(), "DimensionError: bad shape");
}

#[test]
fn error_dimension_category() {
    let e = Error::dimension("Not a squared matrix.");
    assert_eq!(e.error_type, "DimensionError");
    assert_eq!(e.message, "Not a squared matrix.");
}

#[test]
fn new_is_filled() {
    let m = Matrix::new(2, 3, 0.0);
    assert_eq!(m.rows, 2);
    assert_eq!(m.cols, 3);
    assert_eq!(entries(&m), vec![vec![0.0; 3]; 2]);
}

#[test]
fn from_rows_keeps_entries() {
    let m = grid(&[&[1.0, 2.0], &[3.0, 4.0]]);
    assert_eq!(m.rows, 2);
    assert_eq!(m.cols, 2);
    assert_eq!(entries(&m), vec![vec![1.0, 2.0], vec![3.0, 4.0]]);
}

#[test]
fn from_rows_unequal_lengths_fails() {
    let r = Matrix::from_rows(vec![vec![1.0, 2.0], vec![3.0]]);
    match r {
        Ok(_) => panic!("rows of different lengths were accepted"),
        Err(e) => assert_eq!(e.error_type, "DimensionError"),
    }
}

#[test]
fn from_rows_empty_fails() {
    let r: Result<Matrix<f64>, Error> = Matrix::from_rows(Vec::new());
    assert!(r.is_err());
}

#[test]
fn valid_contents_checks_lengths() {
    assert!(Matrix::<f64>::valid_matrix_contents(&vec![vec![1.0, 2.0], vec![3.0, 4.0]]));
    assert!(!Matrix::<f64>::valid_matrix_contents(&vec![vec![1.0, 2.0], vec![3.0]]));
    assert!(Matrix::<f64>::valid_matrix_contents(&Vec::new()));
}

#[test]
fn copy_is_equal_and_independent() {
    let a = grid(&[&[1.0, 2.0, 3.0], &[4.0, 5.0, 6.0]]);
    let mut b = a.copy();
    assert_eq!(entries(&a), entries(&b));
    b.set(0, 1, 9.0);
    assert_eq!(b.get(0, 1), 9.0);
    assert_eq!(entries(&a), vec![vec![1.0, 2.0, 3.0], vec![4.0, 5.0, 6.0]]);
}

#[test]
fn identity_sets_diagonal_only() {
    let mut m = grid(&[&[5.0, 2.0, 3.0], &[4.0, 7.0, 6.0], &[8.0, 9.0, 0.0]]);
    assert!(m.identity(1.0).is_ok());
    assert_eq!(
        entries(&m),
        vec![vec![1.0, 2.0, 3.0], vec![4.0, 1.0, 6.0], vec![8.0, 9.0, 1.0]]
    );
}

#[test]
fn identity_from_zero_grid() {
    let mut m = Matrix::new(3, 3, 0.0);
    assert!(m.identity(1.0).is_ok());
    assert_eq!(
        entries(&m),
        vec![vec![1.0, 0.0, 0.0], vec![0.0, 1.0, 0.0], vec![0.0, 0.0, 1.0]]
    );
}

#[test]
fn identity_non_square_fails() {
    let mut m = grid(&[&[1.0, 2.0, 3.0], &[4.0, 5.0, 6.0]]);
    match m.identity(1.0) {
        Ok(()) => panic!("a 2x3 grid was accepted"),
        Err(e) => assert_eq!(e.error_type, "DimensionError"),
    }
    assert_eq!(entries(&m), vec![vec![1.0, 2.0, 3.0], vec![4.0, 5.0, 6.0]]);
}

#[test]
fn size_and_squareness() {
    let m = Matrix::new(2, 5, 0.0);
    assert_eq!(m.size(), 5);
    assert!(!m.is_square());
    let n = Matrix::new(4, 3, 0.0);
    assert_eq!(n.size(), 4);
    assert!(Matrix::new(3, 3, 0.0).is_square());
}

#[test]
fn swap_rows_exchanges() {
    let mut m = grid(&[&[0.0, 1.0], &[2.0, 3.0], &[4.0, 5.0]]);
    m.swap_rows(0, 2);
    assert_eq!(entries(&m), vec![vec![4.0, 5.0], vec![2.0, 3.0], vec![0.0, 1.0]]);
}

#[test]
fn minor_deletes_row_and_column() {
    let m = grid(&[&[1.0, 2.0, 3.0], &[4.0, 5.0, 6.0], &[7.0, 8.0, 9.0]]);
    let n = m.minor(1, 0);
    assert_eq!(n.rows, 2);
    assert_eq!(n.cols, 2);
    assert_eq!(entries(&n), vec![vec![2.0, 3.0], vec![8.0, 9.0]]);
    let k = n.minor(0, 1);
    assert_eq!(entries(&k), vec![vec![8.0]]);
}

#[test]
fn cofactor_sign_follows_parity() {
    assert_eq!(cofactor_sign(0, 0), 1);
    assert_eq!(cofactor_sign(1, 0), -1);
    assert_eq!(cofactor_sign(1, 2), -1);
    assert_eq!(cofactor_sign(2, 2), 1);
    assert_eq!(cofactor_sign(3, 4), -1);
}

#[test]
fn determinant_of_two_by_two() {
    let m = grid(&[&[1.0, 2.0], &[3.0, 4.0]]);
    assert_eq!(det(&m), -2.0);
}

#[test]
fn determinant_of_identity() {
    let mut m = Matrix::new(3, 3, 0.0);
    m.identity(1.0).unwrap_or(());
    assert_eq!(det(&m), 1.0);
}

#[test]
fn determinant_expands_along_second_row() {
    let m = grid(&[&[2.0, 0.0, 1.0], &[1.0, 3.0, 2.0], &[1.0, 1.0, 1.0]]);
    assert_eq!(det(&m), 0.0);
    let n = grid(&[&[6.0, 1.0, 1.0], &[4.0, -2.0, 5.0], &[2.0, 8.0, 7.0]]);
    assert_eq!(det(&n), -306.0);
}

#[test]
fn scalar_multiply_both_orders() {
    let a = grid(&[&[1.0, -2.0], &[3.5, 4.0]]);
    let k = 3.0;
    let left = a.map(|x| k * x);
    let right = a.map(|x| x * k);
    assert_eq!(entries(&left), entries(&right));
    assert_eq!(entries(&left), vec![vec![3.0, -6.0], vec![10.5, 12.0]]);
}

#[test]
fn apply_in_place() {
    let mut a = grid(&[&[1.0, 2.0], &[3.0, 4.0]]);
    a.apply(|x| x * x + 1.0);
    assert_eq!(entries(&a), vec![vec![2.0, 5.0], vec![10.0, 17.0]]);
}

#[test]
fn add_then_subtract_gives_back() {
    let a = grid(&[&[1.0, 2.0, 3.0], &[4.0, 5.0, 6.0]]);
    let b = grid(&[&[0.5, -1.0, 2.0], &[7.0, 0.25, -3.0]]);
    let sum = a.zip_with(&b, |x, y| x + y).ok().unwrap();
    assert_eq!(sum.rows, 2);
    assert_eq!(sum.cols, 3);
    assert_eq!(entries(&sum), vec![vec![1.5, 1.0, 5.0], vec![11.0, 5.25, 3.0]]);
    let back = sum.zip_with(&b, |x, y| x - y).ok().unwrap();
    for i in 0..2 {
        for j in 0..3 {
            assert!((back.get(i, j) - a.get(i, j)).abs() < 1e-9);
        }
    }
}

#[test]
fn add_different_shapes_fails() {
    let a = Matrix::new(2, 3, 1.0);
    let b = Matrix::new(3, 2, 1.0);
    match a.zip_with(&b, |x, y| x + y) {
        Ok(_) => panic!("shapes 2x3 and 3x2 were combined"),
        Err(e) => assert_eq!(e.error_type, "DimensionError"),
    }
}

#[test]
fn product_of_compatible_shapes() {
    let a = grid(&[&[1.0, 2.0, 3.0], &[4.0, 5.0, 6.0]]);
    let b = grid(&[&[7.0, 8.0], &[9.0, 10.0], &[11.0, 12.0]]);
    let shape = a.product_shape(&b).ok().unwrap();
    assert_eq!(shape, (2, 2));
    let p = Matrix::from_fn(shape.0, shape.1, |i, j| {
        let mut s = 0.0;
        for k in 0..a.cols {
            s += a.get(i, k) * b.get(k, j);
        }
        s
    });
    assert_eq!(entries(&p), vec![vec![58.0, 64.0], vec![139.0, 154.0]]);
}

#[test]
fn product_of_incompatible_shapes_fails() {
    let a = Matrix::new(2, 3, 1.0);
    let b = Matrix::new(2, 3, 1.0);
    match a.product_shape(&b) {
        Ok(_) => panic!("2x3 by 2x3 was accepted"),
        Err(e) => {
            assert_eq!(e.error_type, "DimensionError");
            assert_eq!(e.message, "Dimensions not matched. M1 is 2x3 and M2 is 2x3");
        }
    }
}

#[test]
fn product_of_non_square_pair() {
    let a = Matrix::new(2, 3, 1.0);
    let b = Matrix::new(3, 4, 2.0);
    assert_eq!(a.product_shape(&b).ok(), Some((2, 4)));
}

#[test]
fn from_fn_uses_positions() {
    let m = Matrix::from_fn(2, 3, |i, j| (10 * i + j) as f64);
    assert_eq!(entries(&m), vec![vec![0.0, 1.0, 2.0], vec![10.0, 11.0, 12.0]]);
}

#[test]
fn first_row_where_finds_positive_leader() {
    let m = grid(&[&[0.0, 1.0], &[-2.0, 3.0], &[4.0, 5.0], &[6.0, 7.0]]);
    assert_eq!(m.first_row_where(0, |x| x > 0.0), Some(2));
    assert_eq!(m.first_row_where(1, |x| x > 0.0), Some(0));
    assert_eq!(m.first_row_where(0, |x| x > 100.0), None);
}

#[test]
fn validity_follows_the_rows() {
    let mut m = grid(&[&[1.0, 2.0], &[3.0, 4.0]]);
    assert!(m.is_valid());
    m.data[1].push(5.0);
    assert!(!m.is_valid());
    let n = Matrix { rows: 3, cols: 2, data: vec![vec![0.0; 2]; 2] };
    assert!(!n.is_valid());
}

#[test]
fn copy_row_is_a_fresh_vector() {
    let v = vec![1.0, 2.5, -3.0];
    let mut w = matrices::matrix::copy_row(&v);
    assert_eq!(w, v);
    w[0] = 8.0;
    assert_eq!(v, vec![1.0, 2.5, -3.0]);
}
