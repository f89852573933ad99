use kalman::matrix::{copy_vector, dot_product, vector_difference, vector_sum, Matrix};
use kalman::rational::Rational;
use kalman::scalar::Scalar;

fn r(num: i64, den: i64) -> Rational {
    Rational::new(num, den)
}

fn n(v: i64) -> Rational {
    Rational::new(v, 1)
}

fn ints(rows: &[&[i64]]) -> Matrix<Rational> {
    Matrix::from_rows(rows.iter().map(|row| row.iter().map(|v| n(*v)).collect()).collect()).unwrap()
}

fn int_rows(rows: &[&[i64]]) -> Vec<Vec<Rational>> {
    rows.iter().map(|row| row.iter().map(|v| n(*v)).collect()).collect()
}

#[test]
fn fractions_come_in_lowest_terms() {
    assert_eq!(r(2, 4), Rational { num: 1, den: 2 });
    assert_eq!(r(-6, 9), Rational { num: -2, den: 3 });
    assert_eq!(r(6, -9), Rational { num: -2, den: 3 });
    assert_eq!(r(-6, -9), Rational { num: 2, den: 3 });
    assert_eq!(r(0, 5), Rational { num: 0, den: 1 });
    assert_eq!(r(7, 1), Rational { num: 7, den: 1 });
    assert!(r(7, 1).is_defined());
}

#[test]
fn a_zero_denominator_is_undefined() {
    assert_eq!(r(3, 0), Rational { num: 0, den: 0 });
    assert!(!r(3, 0).is_defined());
    assert_eq!(r(3, 0).plus(&n(1)), Rational { num: 0, den: 0 });
    assert_eq!(n(1).minus(&r(3, 0)), Rational { num: 0, den: 0 });
    assert_eq!(n(1).times(&r(3, 0)), Rational { num: 0, den: 0 });
    assert_eq!(r(3, 0).recip(), Rational { num: 0, den: 0 });
    assert!(r(3, 0).is_negligible());
}

#[test]
fn fraction_arithmetic_is_exact() {
    assert_eq!(r(1, 2).plus(&r(1, 3)), r(5, 6));
    assert_eq!(r(1, 2).minus(&r(1, 3)), r(1, 6));
    assert_eq!(r(1, 3).minus(&r(1, 2)), r(-1, 6));
    assert_eq!(r(2, 3).times(&r(3, 4)), r(1, 2));
    assert_eq!(r(-2, 3).times(&r(3, 4)), r(-1, 2));
    assert_eq!(r(1, 6).plus(&r(1, 3)), r(1, 2));
    assert_eq!(r(3, 4).recip(), r(4, 3));
    assert_eq!(r(-3, 4).recip(), r(-4, 3));
    assert_eq!(n(0).recip(), Rational { num: 0, den: 0 });
    assert_eq!(Rational::from_int(-5), n(-5));
    assert_eq!(Rational::from_int(100).recip(), r(1, 100));
}

#[test]
fn only_zero_and_the_undefined_are_negligible() {
    assert!(n(0).is_negligible());
    assert!(Rational { num: 1, den: 0 }.is_negligible());
    assert!(Rational { num: 1, den: -1 }.is_negligible());
    assert!(!r(1, 1_000_000_000_000).is_negligible());
    assert!(!n(-1).is_negligible());
}

#[test]
fn results_without_a_place_in_64_bits_are_undefined() {
    let big = n(i64::MAX);
    assert_eq!(big.plus(&n(1)), Rational { num: 0, den: 0 });
    assert_eq!(big.times(&n(2)), Rational { num: 0, den: 0 });
    assert_eq!(big.minus(&n(1)), n(i64::MAX - 1));
    let tiny = r(1, i64::MAX);
    assert_eq!(tiny.times(&r(1, 2)), Rational { num: 0, den: 0 });
    assert_eq!(tiny.times(&n(i64::MAX)), n(1));
    let least = Rational { num: i64::MIN, den: 1 };
    assert_eq!(least.recip(), Rational { num: 0, den: 0 });
    assert_eq!(least.plus(&n(0)), Rational { num: 0, den: 0 });
    assert_eq!(least.plus(&n(1)), n(i64::MIN + 1));
    assert_eq!(Rational::new(i64::MIN, 1), Rational { num: 0, den: 0 });
    assert_eq!(Rational::new(i64::MIN, -1), Rational { num: 0, den: 0 });
    assert_eq!(Rational::new(i64::MIN, i64::MIN), n(1));
}

#[test]
fn operands_need_not_be_in_lowest_terms() {
    let half = Rational { num: 2, den: 4 };
    assert_eq!(half.plus(&Rational { num: 3, den: 12 }), r(3, 4));
    assert_eq!(half.recip(), Rational { num: 4, den: 2 });
}

#[test]
fn vectors_add_subtract_and_multiply() {
    let a = vec![n(1), n(2), n(3)];
    let b = vec![n(4), n(5), n(6)];
    assert_eq!(dot_product(&a, &b), n(32));
    assert_eq!(vector_sum(&a, &b), vec![n(5), n(7), n(9)]);
    assert_eq!(vector_difference(&a, &b), vec![n(-3), n(-3), n(-3)]);
    assert_eq!(copy_vector(&a), a);
    let none: Vec<Rational> = Vec::new();
    assert_eq!(dot_product(&none, &none), n(0));
}

#[test]
fn rows_of_unequal_length_are_no_matrix() {
    assert!(Matrix::from_rows(vec![vec![n(1), n(2)], vec![n(3)]]).is_none());
    assert!(Matrix::from_rows(vec![vec![n(1)], vec![n(2), n(3)]]).is_none());
    assert!(Matrix::from_rows(vec![vec![n(1), n(2)], vec![n(3), n(4)]]).is_some());
    let empty: Vec<Vec<Rational>> = Vec::new();
    assert!(Matrix::from_rows(empty).is_some());
}

#[test]
fn a_matrix_knows_its_shape_and_entries() {
    let a = ints(&[&[1, 2, 3], &[4, 5, 6]]);
    assert_eq!(a.nrows(), 2);
    assert_eq!(a.ncols(), 3);
    assert!(a.is_shape(2, 3));
    assert!(!a.is_shape(3, 2));
    assert!(!a.is_shape(2, 2));
    assert_eq!(a.get(1, 2), Some(n(6)));
    assert_eq!(a.get(0, 0), Some(n(1)));
    assert_eq!(a.get(2, 0), None);
    assert_eq!(a.get(0, 3), None);
    assert_eq!(a.to_rows(), int_rows(&[&[1, 2, 3], &[4, 5, 6]]));
    assert_eq!(a.clone().to_rows(), a.to_rows());
    let empty: Matrix<Rational> = Matrix::from_rows(Vec::new()).unwrap();
    assert_eq!(empty.nrows(), 0);
    assert_eq!(empty.ncols(), 0);
    assert!(empty.is_shape(0, 0));
    assert!(empty.is_shape(0, 5));
}

#[test]
fn transpose_turns_rows_into_columns() {
    let a = ints(&[&[1, 2, 3], &[4, 5, 6]]);
    assert_eq!(a.transpose().to_rows(), int_rows(&[&[1, 4], &[2, 5], &[3, 6]]));
    assert_eq!(a.transpose().transpose().to_rows(), a.to_rows());
}

#[test]
fn identity_has_ones_on_the_diagonal() {
    let eye: Matrix<Rational> = Matrix::identity(3);
    assert_eq!(eye.to_rows(), int_rows(&[&[1, 0, 0], &[0, 1, 0], &[0, 0, 1]]));
    let none: Matrix<Rational> = Matrix::identity(0);
    assert_eq!(none.nrows(), 0);
}

#[test]
fn matrices_add_subtract_and_multiply() {
    let a = ints(&[&[1, 2], &[3, 4]]);
    let b = ints(&[&[0, 1], &[1, 0]]);
    assert_eq!(a.plus(&b).to_rows(), int_rows(&[&[1, 3], &[4, 4]]));
    assert_eq!(a.minus(&b).to_rows(), int_rows(&[&[1, 1], &[2, 4]]));
    assert_eq!(a.times(&b).to_rows(), int_rows(&[&[2, 1], &[4, 3]]));
    assert_eq!(b.times(&a).to_rows(), int_rows(&[&[3, 4], &[1, 2]]));
    let c = ints(&[&[1, 2, 3], &[4, 5, 6]]);
    let d = ints(&[&[1, 0], &[0, 1], &[2, 2]]);
    assert_eq!(c.times(&d).to_rows(), int_rows(&[&[7, 8], &[16, 17]]));
    assert_eq!(c.times_vector(&vec![n(1), n(0), n(-1)]), vec![n(-2), n(-2)]);
}

#[test]
fn inverse_of_a_matrix_of_determinant_one() {
    let a = ints(&[&[2, 3], &[1, 2]]);
    let inv = a.inverse().unwrap();
    assert_eq!(inv.to_rows(), int_rows(&[&[2, -3], &[-1, 2]]));
    assert_eq!(a.times(&inv).to_rows(), int_rows(&[&[1, 0], &[0, 1]]));
    assert_eq!(inv.times(&a).to_rows(), int_rows(&[&[1, 0], &[0, 1]]));
}

#[test]
fn inverse_with_fractions() {
    let a = ints(&[&[4, 7], &[2, 6]]);
    let inv = a.inverse().unwrap();
    assert_eq!(
        inv.to_rows(),
        vec![vec![r(3, 5), r(-7, 10)], vec![r(-1, 5), r(2, 5)]]
    );
}

#[test]
fn inverse_moves_a_later_row_up_where_the_diagonal_is_zero() {
    let swap = ints(&[&[0, 1], &[1, 0]]);
    assert_eq!(swap.inverse().unwrap().to_rows(), int_rows(&[&[0, 1], &[1, 0]]));
    let a = ints(&[&[0, 2, 0], &[0, 0, 4], &[1, 0, 0]]);
    let inv = a.inverse().unwrap();
    assert_eq!(
        inv.to_rows(),
        vec![
            vec![n(0), n(0), n(1)],
            vec![r(1, 2), n(0), n(0)],
            vec![n(0), r(1, 4), n(0)],
        ]
    );
    assert_eq!(inv.times(&a).to_rows(), int_rows(&[&[1, 0, 0], &[0, 1, 0], &[0, 0, 1]]));
}

#[test]
fn a_singular_matrix_has_no_inverse() {
    assert!(ints(&[&[1, 2], &[2, 4]]).inverse().is_none());
    assert!(ints(&[&[0]]).inverse().is_none());
    assert!(ints(&[&[1, 2, 3], &[4, 5, 6], &[7, 8, 9]]).inverse().is_none());
    let empty: Matrix<Rational> = Matrix::from_rows(Vec::new()).unwrap();
    assert_eq!(empty.inverse().unwrap().nrows(), 0);
}
