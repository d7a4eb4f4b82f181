use matrix::matrix::Matrix;

fn one_to_nine() -> Matrix<i32> {
    Matrix::new(3, 3, vec![1, 2, 3, 4, 5, 6, 7, 8, 9]).unwrap()
}

fn nine_to_one() -> Matrix<i32> {
    Matrix::new(3, 3, vec![9, 8, 7, 6, 5, 4, 3, 2, 1]).unwrap()
}

#[test]
fn new_accepts_matching_length() {
    let m = Matrix::new(2, 3, vec![1, 2, 3, 4, 5, 6]).unwrap();
    assert_eq!(m.rows(), 2);
    assert_eq!(m.cols(), 3);
    assert_eq!(m.render(), "1\t2\t3\n4\t5\t6");
}

#[test]
fn new_keeps_element_order() {
    let m = Matrix::new(3, 2, vec![6, 5, 4, 3, 2, 1]).unwrap();
    assert_eq!(m.render(), "6\t5\n4\t3\n2\t1");
}

#[test]
fn new_rejects_too_few_values() {
    assert!(Matrix::new(2, 2, vec![1, 2, 3]).is_none());
}

#[test]
fn new_rejects_too_many_values() {
    assert!(Matrix::new(2, 2, vec![1, 2, 3, 4, 5]).is_none());
}

#[test]
fn new_rejects_values_for_empty_shape() {
    assert!(Matrix::new(0, 5, vec![1]).is_none());
    assert!(Matrix::new(5, 0, vec![1]).is_none());
}

#[test]
fn new_accepts_empty_shapes() {
    let a: Matrix<i32> = Matrix::new(0, 0, vec![]).unwrap();
    assert_eq!((a.rows(), a.cols()), (0, 0));
    let b: Matrix<i32> = Matrix::new(0, 4, vec![]).unwrap();
    assert_eq!((b.rows(), b.cols()), (0, 4));
    let c: Matrix<i32> = Matrix::new(4, 0, vec![]).unwrap();
    assert_eq!((c.rows(), c.cols()), (4, 0));
}

#[test]
fn new_rejects_shape_beyond_the_machine() {
    assert!(Matrix::new(usize::MAX, 2, vec![1, 2]).is_none());
    assert!(Matrix::new(usize::MAX, usize::MAX, vec![1]).is_none());
    let empty: Vec<i32> = Vec::new();
    assert!(Matrix::new(usize::MAX, usize::MAX, empty).is_none());
}

#[test]
fn clone_is_equal_and_independent() {
    let a = one_to_nine();
    let b = a.clone();
    assert_eq!(a, b);
    let c = (-b).render();
    assert_eq!(c, "-1\t-2\t-3\n-4\t-5\t-6\n-7\t-8\t-9");
    assert_eq!(a, one_to_nine());
}

#[test]
fn add_gives_ten_everywhere() {
    let sum = (one_to_nine() + nine_to_one()).unwrap();
    assert_eq!(sum, Matrix::new(3, 3, vec![10; 9]).unwrap());
    assert_eq!(sum.rows(), 3);
    assert_eq!(sum.cols(), 3);
}

#[test]
fn add_is_element_by_element() {
    let a = Matrix::new(2, 3, vec![1, 2, 3, 4, 5, 6]).unwrap();
    let b = Matrix::new(2, 3, vec![10, 20, 30, 40, 50, 60]).unwrap();
    let sum = (a + b).unwrap();
    assert_eq!(sum, Matrix::new(2, 3, vec![11, 22, 33, 44, 55, 66]).unwrap());
}

#[test]
fn add_rejects_different_shapes() {
    let small = Matrix::new(2, 2, vec![1, 2, 3, 4]).unwrap();
    assert!((one_to_nine() + small).is_none());
}

#[test]
fn add_rejects_transposed_shape() {
    let a = Matrix::new(2, 3, vec![1, 2, 3, 4, 5, 6]).unwrap();
    let b = Matrix::new(3, 2, vec![1, 2, 3, 4, 5, 6]).unwrap();
    assert!((a + b).is_none());
}

#[test]
fn sub_is_element_by_element() {
    let diff = (one_to_nine() - nine_to_one()).unwrap();
    assert_eq!(diff, Matrix::new(3, 3, vec![-8, -6, -4, -2, 0, 2, 4, 6, 8]).unwrap());
}

#[test]
fn sub_keeps_operand_order() {
    let a = Matrix::new(1, 2, vec![5, 1]).unwrap();
    let b = Matrix::new(1, 2, vec![3, 4]).unwrap();
    assert_eq!((a.clone() - b.clone()).unwrap(), Matrix::new(1, 2, vec![2, -3]).unwrap());
    assert_eq!((b - a).unwrap(), Matrix::new(1, 2, vec![-2, 3]).unwrap());
}

#[test]
fn sub_rejects_different_shapes() {
    let small = Matrix::new(2, 2, vec![1, 2, 3, 4]).unwrap();
    assert!((one_to_nine() - small).is_none());
    let row = Matrix::new(1, 4, vec![1, 2, 3, 4]).unwrap();
    let col = Matrix::new(4, 1, vec![1, 2, 3, 4]).unwrap();
    assert!((row - col).is_none());
}

#[test]
fn neg_negates_every_element() {
    let m = -one_to_nine();
    assert_eq!(m, Matrix::new(3, 3, vec![-1, -2, -3, -4, -5, -6, -7, -8, -9]).unwrap());
    assert_eq!(m.rows(), 3);
    assert_eq!(m.cols(), 3);
}

#[test]
fn neg_twice_is_identity() {
    let m = Matrix::new(2, 3, vec![0i64, -7, 12, i64::MAX, 1, -1]).unwrap();
    assert_eq!(-(-m.clone()), m);
}

#[test]
fn neg_of_empty_matrix_is_empty() {
    let m: Matrix<i32> = Matrix::new(0, 3, vec![]).unwrap();
    let n = -m;
    assert_eq!((n.rows(), n.cols()), (0, 3));
}

#[test]
fn mul_first_row_of_square_product() {
    let product = (one_to_nine() * nine_to_one()).unwrap();
    assert_eq!(
        product,
        Matrix::new(3, 3, vec![30, 24, 18, 84, 69, 54, 138, 114, 90]).unwrap()
    );
    assert!(product.render().starts_with("30\t24\t18\n"));
}

#[test]
fn mul_shape_is_left_rows_by_right_cols() {
    let a = Matrix::new(2, 3, vec![1, 2, 3, 4, 5, 6]).unwrap();
    let b = Matrix::new(3, 4, vec![1, 0, 0, 1, 0, 1, 0, 1, 0, 0, 1, 1]).unwrap();
    let product = (a * b).unwrap();
    assert_eq!(product.rows(), 2);
    assert_eq!(product.cols(), 4);
    assert_eq!(product, Matrix::new(2, 4, vec![1, 2, 3, 6, 4, 5, 6, 15]).unwrap());
}

#[test]
fn mul_is_not_commutative() {
    let a = Matrix::new(2, 2, vec![1, 2, 3, 4]).unwrap();
    let b = Matrix::new(2, 2, vec![0, 1, 1, 0]).unwrap();
    assert_eq!((a.clone() * b.clone()).unwrap(), Matrix::new(2, 2, vec![2, 1, 4, 3]).unwrap());
    assert_eq!((b * a).unwrap(), Matrix::new(2, 2, vec![3, 4, 1, 2]).unwrap());
}

#[test]
fn mul_row_by_column_is_one_cell() {
    let row = Matrix::new(1, 3, vec![1, 2, 3]).unwrap();
    let col = Matrix::new(3, 1, vec![4, 5, 6]).unwrap();
    assert_eq!((row.clone() * col.clone()).unwrap(), Matrix::new(1, 1, vec![32]).unwrap());
    assert_eq!(
        (col * row).unwrap(),
        Matrix::new(3, 3, vec![4, 8, 12, 5, 10, 15, 6, 12, 18]).unwrap()
    );
}

#[test]
fn mul_rejects_inner_mismatch() {
    let a = Matrix::new(2, 3, vec![1, 2, 3, 4, 5, 6]).unwrap();
    let b = Matrix::new(2, 3, vec![1, 2, 3, 4, 5, 6]).unwrap();
    assert!((a * b).is_none());
}

#[test]
fn mul_without_rows_gives_no_cells() {
    let a: Matrix<i32> = Matrix::new(0, 2, vec![]).unwrap();
    let b = Matrix::new(2, 3, vec![1, 2, 3, 4, 5, 6]).unwrap();
    let product = (a * b).unwrap();
    assert_eq!((product.rows(), product.cols()), (0, 3));
    assert_eq!(product.render(), "");
}

#[test]
fn mixed_integer_widths_render_alike() {
    let a = Matrix::new(1, 2, vec![7u32, 8]).unwrap();
    let b = Matrix::new(1, 2, vec![7u64, 8]).unwrap();
    let c = Matrix::new(1, 2, vec![7i64, 8]).unwrap();
    assert_eq!(a.render(), "7\t8");
    assert_eq!(b.render(), "7\t8");
    assert_eq!(c.render(), "7\t8");
}

#[test]
fn matrices_compare_by_shape_and_elements() {
    let a = Matrix::new(2, 3, vec![1, 2, 3, 4, 5, 6]).unwrap();
    let b = Matrix::new(3, 2, vec![1, 2, 3, 4, 5, 6]).unwrap();
    let c = Matrix::new(2, 3, vec![1, 2, 3, 4, 5, 7]).unwrap();
    assert_ne!(a, b);
    assert_ne!(a, c);
    assert_eq!(a, a.clone());
}

#[test]
fn operators_leave_clones_of_operands_unchanged() {
    let a = one_to_nine();
    let b = nine_to_one();
    let _ = a.clone() + b.clone();
    let _ = a.clone() - b.clone();
    let _ = a.clone() * b.clone();
    let _ = -a.clone();
    assert_eq!(a, one_to_nine());
    assert_eq!(b, nine_to_one());
}

#[test]
fn mul_by_identity_gives_the_matrix_back() {
    let identity = Matrix::new(3, 3, vec![1, 0, 0, 0, 1, 0, 0, 0, 1]).unwrap();
    assert_eq!((one_to_nine() * identity.clone()).unwrap(), one_to_nine());
    assert_eq!((identity * one_to_nine()).unwrap(), one_to_nine());
}

#[test]
fn sub_of_itself_is_zero() {
    let zero = (one_to_nine() - one_to_nine()).unwrap();
    assert_eq!(zero, Matrix::new(3, 3, vec![0; 9]).unwrap());
}
