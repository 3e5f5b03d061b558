use siras::canonical::{companion_rows, pad_front, reversed, unit_column};

#[test]
fn pad_front_lines_up_numerator() {
    assert_eq!(pad_front(&vec![1.0, 2.0, 3.0], 4, 0.0), vec![0.0, 1.0, 2.0, 3.0]);
    assert_eq!(pad_front(&vec![1.3], 1, 0.0), vec![1.3]);
    assert_eq!(pad_front(&Vec::<i32>::new(), 2, 9), vec![9, 9]);
}

#[test]
fn companion_rows_of_third_order_denominator() {
    // den = [1, 2, 3, 4]: first row is the negated trailing coefficients.
    let rows = companion_rows(&vec![-2.0, -3.0, -4.0], 0.0, 1.0);
    assert_eq!(
        rows,
        vec![vec![-2.0, -3.0, -4.0], vec![1.0, 0.0, 0.0], vec![0.0, 1.0, 0.0]]
    );
}

#[test]
fn companion_rows_of_second_order_denominator() {
    let rows = companion_rows(&vec![-2.0, -1.0], 0.0, 1.0);
    assert_eq!(rows, vec![vec![-2.0, -1.0], vec![1.0, 0.0]]);
    assert_eq!(companion_rows(&vec![5], 0, 1), vec![vec![5]]);
}

#[test]
fn unit_column_is_first_basis_vector() {
    assert_eq!(unit_column(3, 0.0, 1.0), vec![1.0, 0.0, 0.0]);
    assert_eq!(unit_column(1, 0, 1), vec![1]);
    assert_eq!(unit_column(0, 0, 1), Vec::<i32>::new());
}

#[test]
fn reversed_reverses() {
    assert_eq!(reversed(&vec![0.2, 0.4, 0.6]), vec![0.6, 0.4, 0.2]);
    assert_eq!(reversed(&Vec::<u8>::new()), Vec::<u8>::new());
    let v = vec![1, 2, 3, 4, 5];
    assert_eq!(reversed(&reversed(&v)), v);
}
