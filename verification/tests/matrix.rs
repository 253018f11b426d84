use feedforward::error::NetworkError;
use feedforward::matrix::Matrix;

fn grid(rows: Vec<Vec<i64>>) -> Matrix<i64> {
    Matrix::from(rows).unwrap()
}

fn shaped(rows: usize, cols: usize) -> Matrix<i64> {
    Matrix::zeros(rows, cols)
}

#[test]
fn zeros_has_the_shape_and_holds_only_zero() {
    let z: Matrix<i64> = Matrix::zeros(2, 3);
    assert_eq!(z.rows(), 2);
    assert_eq!(z.cols(), 3);
    assert_eq!(z, grid(vec![vec![0, 0, 0], vec![0, 0, 0]]));
}

#[test]
fn zeros_keeps_its_width_without_rows() {
    let z: Matrix<i64> = Matrix::zeros(0, 3);
    assert_eq!(z.rows(), 0);
    assert_eq!(z.cols(), 3);
    assert_eq!(z.get(0, 0), None);
}

#[test]
fn from_takes_the_supplied_shape() {
    let m = grid(vec![vec![1, 2, 3], vec![4, 5, 6]]);
    assert_eq!(m.rows(), 2);
    assert_eq!(m.cols(), 3);
    assert_eq!(m.get(0, 0), Some(1));
    assert_eq!(m.get(1, 2), Some(6));
    assert_eq!(m.get(2, 0), None);
    assert_eq!(m.get(0, 3), None);
}

#[test]
fn from_nothing_is_empty() {
    let m: Matrix<i64> = Matrix::from(Vec::new()).unwrap();
    assert_eq!(m.rows(), 0);
    assert_eq!(m.cols(), 0);
}

#[test]
fn from_refuses_rows_of_different_length() {
    let ragged: Result<Matrix<i64>, NetworkError> = Matrix::from(vec![vec![1, 2], vec![3]]);
    assert_eq!(ragged, Err(NetworkError::ShapeMismatch));
}

#[test]
fn multiply_adds_products_along_the_row() {
    let a = grid(vec![vec![1, 2, 3], vec![4, 5, 6]]);
    let b = grid(vec![vec![7, 8], vec![9, 10], vec![11, 12]]);
    assert_eq!(a.multiply(&b), Ok(grid(vec![vec![58, 64], vec![139, 154]])));
}

#[test]
fn multiply_over_no_terms_is_zero() {
    let a = shaped(2, 0);
    let b = shaped(0, 3);
    assert_eq!(a.multiply(&b), Ok(shaped(2, 3)));
}

#[test]
fn multiply_refuses_inner_dimensions_that_differ() {
    let pairs = [((2, 3), (2, 3)), ((1, 1), (2, 1)), ((3, 2), (3, 2)), ((0, 1), (0, 1)), ((4, 5), (4, 4))];
    for ((m, k), (k2, n)) in pairs {
        assert_ne!(k, k2);
        assert_eq!(shaped(m, k).multiply(&shaped(k2, n)), Err(NetworkError::ShapeMismatch));
    }
}

#[test]
fn multiply_accepts_inner_dimensions_that_agree() {
    let product = shaped(4, 5).multiply(&shaped(5, 2)).unwrap();
    assert_eq!(product.rows(), 4);
    assert_eq!(product.cols(), 2);
}

#[test]
fn add_is_entry_by_entry() {
    let a = grid(vec![vec![1, 2], vec![3, 4]]);
    let b = grid(vec![vec![10, 20], vec![30, 40]]);
    assert_eq!(a.add(&b), Ok(grid(vec![vec![11, 22], vec![33, 44]])));
}

#[test]
fn subtract_is_entry_by_entry() {
    let a = grid(vec![vec![1, 2], vec![3, 4]]);
    let b = grid(vec![vec![10, 20], vec![30, 40]]);
    assert_eq!(a.subtract(&b), Ok(grid(vec![vec![-9, -18], vec![-27, -36]])));
    assert_eq!(b.subtract(&a), Ok(grid(vec![vec![9, 18], vec![27, 36]])));
}

#[test]
fn dot_multiply_is_entry_by_entry() {
    let a = grid(vec![vec![1, 2], vec![3, 4]]);
    let b = grid(vec![vec![10, 20], vec![30, 40]]);
    assert_eq!(a.dot_multiply(&b), Ok(grid(vec![vec![10, 40], vec![90, 160]])));
}

#[test]
fn entrywise_operations_refuse_different_shapes() {
    let a = shaped(2, 3);
    for other in [shaped(3, 2), shaped(2, 2), shaped(1, 3), shaped(0, 0)] {
        assert_eq!(a.add(&other), Err(NetworkError::ShapeMismatch));
        assert_eq!(a.subtract(&other), Err(NetworkError::ShapeMismatch));
        assert_eq!(a.dot_multiply(&other), Err(NetworkError::ShapeMismatch));
    }
}

#[test]
fn empty_matrices_of_different_width_do_not_add() {
    assert_eq!(shaped(0, 2).add(&shaped(0, 3)), Err(NetworkError::ShapeMismatch));
    assert_eq!(shaped(0, 2).add(&shaped(0, 2)), Ok(shaped(0, 2)));
}

#[test]
fn map_applies_the_function_to_every_entry() {
    let a = grid(vec![vec![1, 2, 3], vec![4, 5, 6]]);
    assert_eq!(a.map(&|x: i64| x * x + 1), grid(vec![vec![2, 5, 10], vec![17, 26, 37]]));
}

#[test]
fn operations_leave_their_operands_alone() {
    let a = grid(vec![vec![1, 2], vec![3, 4]]);
    let b = grid(vec![vec![5, 6], vec![7, 8]]);
    let _ = a.add(&b);
    let _ = a.multiply(&b);
    let _ = a.map(&|x: i64| x + 1);
    let _ = a.transpose();
    assert_eq!(a, grid(vec![vec![1, 2], vec![3, 4]]));
    assert_eq!(b, grid(vec![vec![5, 6], vec![7, 8]]));
}

#[test]
fn transpose_exchanges_rows_and_columns() {
    let a = grid(vec![vec![1, 2, 3], vec![4, 5, 6]]);
    assert_eq!(a.transpose(), grid(vec![vec![1, 4], vec![2, 5], vec![3, 6]]));
}

#[test]
fn transpose_twice_is_the_identity() {
    for a in [grid(vec![vec![1, 2, 3], vec![4, 5, 6]]), grid(vec![vec![7]]), shaped(0, 3), shaped(3, 0), shaped(0, 0)] {
        let back = a.transpose().transpose();
        assert_eq!(back.rows(), a.rows());
        assert_eq!(back.cols(), a.cols());
        assert_eq!(back, a);
    }
}

#[test]
fn transpose_of_no_rows_has_empty_rows() {
    let t = shaped(0, 3).transpose();
    assert_eq!(t.rows(), 3);
    assert_eq!(t.cols(), 0);
    assert_eq!(t.row(2), Some(Vec::new()));
}

#[test]
fn addition_is_associative_and_commutative_on_integers() {
    let a = grid(vec![vec![1, -2], vec![i64::MAX, 4]]);
    let b = grid(vec![vec![5, 6], vec![7, i64::MIN]]);
    let c = grid(vec![vec![-9, 10], vec![11, 12]]);
    let left = a.add(&b).unwrap().add(&c).unwrap();
    let right = a.add(&b.add(&c).unwrap()).unwrap();
    assert_eq!(left, right);
    assert_eq!(a.add(&b), b.add(&a));
}

#[test]
fn elementwise_product_is_commutative() {
    let a = grid(vec![vec![1, -2], vec![3, 4]]);
    let b = grid(vec![vec![5, 6], vec![-7, 8]]);
    assert_eq!(a.dot_multiply(&b), b.dot_multiply(&a));
}

#[test]
fn multiplication_is_associative_on_integers() {
    let a = grid(vec![vec![1, 2, 3], vec![4, 5, 6]]);
    let b = grid(vec![vec![1, -1], vec![2, 0], vec![0, 3]]);
    let c = grid(vec![vec![2, 1, 0, 1], vec![1, 1, 1, -1]]);
    let left = a.multiply(&b).unwrap().multiply(&c).unwrap();
    let right = a.multiply(&b.multiply(&c).unwrap()).unwrap();
    assert_eq!(left, right);
    assert_eq!(left, grid(vec![vec![18, 13, 8, -3], vec![42, 28, 14, 0]]));
}

#[test]
fn integer_arithmetic_wraps() {
    let a = grid(vec![vec![i64::MAX]]);
    let one = grid(vec![vec![1]]);
    assert_eq!(a.add(&one), Ok(grid(vec![vec![i64::MIN]])));
    assert_eq!(grid(vec![vec![i64::MIN]]).subtract(&one), Ok(grid(vec![vec![i64::MAX]])));
    assert_eq!(a.dot_multiply(&grid(vec![vec![2]])), Ok(grid(vec![vec![-2]])));
}

#[test]
fn column_stands_the_values_up() {
    let c: Matrix<i64> = Matrix::column(&vec![1, 2, 3]);
    assert_eq!(c, grid(vec![vec![1], vec![2], vec![3]]));
    assert_eq!(c, grid(vec![vec![1, 2, 3]]).transpose());
    let none: Matrix<i64> = Matrix::column(&Vec::new());
    assert_eq!(none.rows(), 0);
    assert_eq!(none.cols(), 1);
}

#[test]
fn row_copies_one_row() {
    let a = grid(vec![vec![1, 2, 3], vec![4, 5, 6]]);
    assert_eq!(a.row(0), Some(vec![1, 2, 3]));
    assert_eq!(a.row(1), Some(vec![4, 5, 6]));
    assert_eq!(a.row(2), None);
}

#[test]
fn sampled_takes_one_word_for_each_entry_row_by_row() {
    let m: Matrix<i64> = Matrix::sampled(2, 3, &vec![0, 1, 2, 3, 4, 5]).unwrap();
    assert_eq!(m, grid(vec![vec![-1, 0, 1], vec![-1, 0, 1]]));
    let n: Matrix<i64> = Matrix::sampled(3, 2, &vec![2, 2, 0, 1, 7, 9]).unwrap();
    assert_eq!(n, grid(vec![vec![1, 1], vec![-1, 0], vec![0, -1]]));
}

#[test]
fn sampled_refuses_the_wrong_number_of_words() {
    let few: Result<Matrix<i64>, NetworkError> = Matrix::sampled(2, 3, &vec![0, 1, 2, 3, 4]);
    assert_eq!(few, Err(NetworkError::ShapeMismatch));
    let many: Result<Matrix<i64>, NetworkError> = Matrix::sampled(2, 3, &vec![0; 7]);
    assert_eq!(many, Err(NetworkError::ShapeMismatch));
    let huge: Result<Matrix<i64>, NetworkError> = Matrix::sampled(usize::MAX, 2, &vec![0; 2]);
    assert_eq!(huge, Err(NetworkError::ShapeMismatch));
    let none: Matrix<i64> = Matrix::sampled(0, 5, &Vec::new()).unwrap();
    assert_eq!(none.cols(), 5);
}
