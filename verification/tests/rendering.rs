use matrix::matrix::Matrix;
use matrix::string::String_;
use matrix::text::{signed_text, unsigned_text, Text};

fn fragments(parts: [&str; 4]) -> Matrix<String_> {
    let values: Vec<String_> = parts.iter().map(|p| p.to_string().into()).collect();
    Matrix::new(2, 2, values).unwrap()
}

#[test]
fn render_single_row_has_no_newline() {
    let m = Matrix::new(1, 4, vec![1, 2, 3, 4]).unwrap();
    let s = m.render();
    assert_eq!(s, "1\t2\t3\t4");
    assert_eq!(s.matches('\n').count(), 0);
}

#[test]
fn render_multi_row_has_rows_minus_one_newlines() {
    let m = Matrix::new(3, 3, vec![1, 2, 3, 4, 5, 6, 7, 8, 9]).unwrap();
    let s = m.render();
    assert_eq!(s, "1\t2\t3\n4\t5\t6\n7\t8\t9");
    assert_eq!(s.matches('\n').count(), 2);
    assert!(!s.ends_with('\n'));
}

#[test]
fn render_splits_back_into_the_layout() {
    let values = vec![10, -20, 30, 40, 50, -60];
    let m = Matrix::new(2, 3, values.clone()).unwrap();
    let s = m.render();
    let cells: Vec<Vec<i32>> = s
        .split('\n')
        .map(|line| line.split('\t').map(|c| c.parse().unwrap()).collect())
        .collect();
    assert_eq!(cells, vec![vec![10, -20, 30], vec![40, 50, -60]]);
}

#[test]
fn render_single_column() {
    let m = Matrix::new(3, 1, vec![1, 2, 3]).unwrap();
    assert_eq!(m.render(), "1\n2\n3");
}

#[test]
fn render_single_cell() {
    let m = Matrix::new(1, 1, vec![-42]).unwrap();
    assert_eq!(m.render(), "-42");
}

#[test]
fn render_without_rows_is_empty() {
    let a: Matrix<i32> = Matrix::new(0, 0, vec![]).unwrap();
    assert_eq!(a.render(), "");
    let b: Matrix<i32> = Matrix::new(0, 3, vec![]).unwrap();
    assert_eq!(b.render(), "");
}

#[test]
fn render_without_columns_keeps_row_separators() {
    let m: Matrix<i32> = Matrix::new(3, 0, vec![]).unwrap();
    assert_eq!(m.render(), "\n\n");
    let one: Matrix<i32> = Matrix::new(1, 0, vec![]).unwrap();
    assert_eq!(one.render(), "");
}

#[test]
fn text_fragments_concatenate_left_then_right() {
    let left = fragments(["abc", "def", "ghi", "jkl"]);
    let right = fragments(["mno", "pqr", "stu", "vwx"]);
    let sum = (left.clone() + right.clone()).unwrap();
    assert_eq!(sum.render(), "abcmno\tdefpqr\nghistu\tjklvwx");
    assert!(sum.render().starts_with("abcmno\t"));
    let swapped = (right + left).unwrap();
    assert_eq!(swapped.render(), "mnoabc\tpqrdef\nstughi\tvwxjkl");
    assert_ne!(sum.render(), swapped.render());
}

#[test]
fn text_fragments_reject_different_shapes() {
    let square = fragments(["a", "b", "c", "d"]);
    let row: Matrix<String_> =
        Matrix::new(1, 2, vec!["x".to_string().into(), "y".to_string().into()]).unwrap();
    assert!((square + row).is_none());
}

#[test]
fn text_element_adds_by_concatenation() {
    let a: String_ = "left".to_string().into();
    let b: String_ = "right".to_string().into();
    let ab = a.clone() + b.clone();
    assert_eq!(ab.as_str(), "leftright");
    let ba = b + a;
    assert_eq!(ba.as_str(), "rightleft");
}

#[test]
fn text_element_derefs_to_its_string() {
    let a = String_::from("hello".to_string());
    assert_eq!(a.len(), 5);
    assert_eq!(*a, "hello".to_string());
    assert_eq!(a.to_text(), "hello");
    assert_eq!(a.clone().to_text(), "hello");
}

#[test]
fn text_element_with_empty_side() {
    let a: String_ = String::new().into();
    let b: String_ = "x".to_string().into();
    assert_eq!((a.clone() + b.clone()).to_text(), "x");
    assert_eq!((b + a).to_text(), "x");
}

#[test]
fn unsigned_text_is_decimal() {
    assert_eq!(unsigned_text(0), "0");
    assert_eq!(unsigned_text(7), "7");
    assert_eq!(unsigned_text(10), "10");
    assert_eq!(unsigned_text(1234567890), "1234567890");
    assert_eq!(unsigned_text(u64::MAX), "18446744073709551615");
}

#[test]
fn signed_text_is_decimal_with_sign() {
    assert_eq!(signed_text(0), "0");
    assert_eq!(signed_text(-1), "-1");
    assert_eq!(signed_text(305), "305");
    assert_eq!(signed_text(-9000), "-9000");
    assert_eq!(signed_text(i64::MAX), "9223372036854775807");
    assert_eq!(signed_text(i64::MIN), "-9223372036854775808");
}

#[test]
fn integer_text_agrees_with_std() {
    for i in [-1000i32, -99, -10, -1, 0, 1, 9, 10, 11, 99, 100, 101, i32::MAX, i32::MIN] {
        assert_eq!(i.to_text(), i.to_string());
    }
    for u in [0u32, 5, 19, 20, 4294967295] {
        assert_eq!(u.to_text(), u.to_string());
    }
    for u in [0u64, 1000000, u64::MAX] {
        assert_eq!(u.to_text(), u.to_string());
    }
    for i in [i64::MIN, -1, 0, 1, i64::MAX] {
        assert_eq!(i.to_text(), i.to_string());
    }
}

#[test]
fn narrow_and_pointer_sized_integers_have_decimal_text() {
    assert_eq!(i8::MIN.to_text(), "-128");
    assert_eq!(i16::MAX.to_text(), "32767");
    assert_eq!((-5isize).to_text(), "-5");
    assert_eq!(u8::MAX.to_text(), "255");
    assert_eq!(65535u16.to_text(), "65535");
    assert_eq!(usize::MAX.to_text(), usize::MAX.to_string());
}

#[test]
fn render_negative_and_wide_numbers() {
    let m = Matrix::new(2, 2, vec![-1i64, 1000000, i64::MIN, 0]).unwrap();
    assert_eq!(m.render(), "-1\t1000000\n-9223372036854775808\t0");
}
