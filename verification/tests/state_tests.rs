use helloworld::binary32::{numbers_equal, vectors_equal, INFINITY, SIGN_BIT};
use helloworld::{Iteration, MarkovChain, Matrix, SolveError, Step};

fn samples() -> Vec<f32> {
    vec![
        0.0,
        -0.0,
        1.0,
        -1.0,
        0.1,
        0.19148943,
        0.1914894,
        f32::MIN_POSITIVE,
        -f32::MIN_POSITIVE,
        f32::from_bits(1),
        f32::from_bits(0x8000_0001),
        f32::MAX,
        f32::MIN,
        f32::INFINITY,
        f32::NEG_INFINITY,
        f32::NAN,
        -f32::NAN,
        f32::from_bits(0x7f80_0001),
        f32::from_bits(0xffff_ffff),
        f32::EPSILON,
    ]
}

fn chain_of(vector: [u32; 2]) -> MarkovChain {
    MarkovChain::new(2, 2).with_vector(&vector)
}

fn begun(vector: [u32; 2], limit: i32) -> Iteration {
    chain_of(vector).begin(limit).unwrap()
}

#[test]
fn constants_are_the_patterns_they_name() {
    assert_eq!(SIGN_BIT, (-0.0f32).to_bits());
    assert_eq!(INFINITY, f32::INFINITY.to_bits());
}

#[test]
fn numbers_equal_agrees_with_the_numbers() {
    for a in samples() {
        for b in samples() {
            assert_eq!(numbers_equal(a.to_bits(), b.to_bits()), a == b, "{:?} {:?}", a, b);
        }
    }
}

#[test]
fn numbers_equal_on_chosen_patterns() {
    assert!(numbers_equal(0, 0x8000_0000));
    assert!(numbers_equal(0x8000_0000, 0));
    assert!(numbers_equal(0x7f80_0000, 0x7f80_0000));
    assert!(!numbers_equal(0x7f80_0000, 0xff80_0000));
    assert!(!numbers_equal(0x7fc0_0000, 0x7fc0_0000));
    assert!(!numbers_equal(0xffc0_0000, 0xffc0_0000));
    assert!(!numbers_equal(0x7f80_0001, 0x7f80_0001));
    assert!(!numbers_equal(1, 0x8000_0001));
    assert!(numbers_equal(0x3f80_0000, 0x3f80_0000));
    assert!(!numbers_equal(0x3f80_0000, 0x3f80_0001));
}

#[test]
fn vectors_equal_compares_length_and_numbers() {
    let one = 1.0f32.to_bits();
    assert!(vectors_equal(&vec![], &vec![]));
    assert!(vectors_equal(&vec![one, 0], &vec![one, 0x8000_0000]));
    assert!(!vectors_equal(&vec![one, 0], &vec![one]));
    assert!(!vectors_equal(&vec![one], &vec![one, 0]));
    assert!(!vectors_equal(&vec![one, 0], &vec![0, one]));
    assert!(!vectors_equal(&vec![one, 0x7fc0_0000], &vec![one, 0x7fc0_0000]));
    assert!(!vectors_equal(&vec![one, one, 2], &vec![one, one, 3]));
}

#[test]
fn matrix_of_zeros() {
    let matrix = Matrix::zeros(2, 3);
    assert_eq!((matrix.rows(), matrix.columns()), (2, 3));
    for i in 0..2 {
        for j in 0..3 {
            assert_eq!(matrix.get(i, j), Some(0));
        }
    }
    assert_eq!(matrix.get(2, 0), None);
    assert_eq!(matrix.get(0, 3), None);
}

#[test]
fn matrix_keeps_its_shape_when_a_side_is_zero() {
    let flat = Matrix::zeros(0, 4);
    assert_eq!((flat.rows(), flat.columns()), (0, 4));
    assert_eq!(flat.get(0, 0), None);
    let thin = Matrix::zeros(4, 0);
    assert_eq!((thin.rows(), thin.columns()), (4, 0));
    assert_eq!(thin.get(0, 0), None);
    let none: [[u32; 5]; 0] = [];
    let empty = Matrix::from_rows(&none);
    assert_eq!((empty.rows(), empty.columns()), (0, 5));
}

#[test]
fn matrix_from_rows_keeps_every_cell() {
    let matrix = Matrix::from_rows(&[[1, 2, 3], [4, 5, 6]]);
    assert_eq!((matrix.rows(), matrix.columns()), (2, 3));
    assert_eq!(matrix.get(0, 0), Some(1));
    assert_eq!(matrix.get(0, 2), Some(3));
    assert_eq!(matrix.get(1, 0), Some(4));
    assert_eq!(matrix.get(1, 2), Some(6));
    assert_eq!(matrix.get(1, 3), None);
    assert_eq!(matrix.get(2, 2), None);
}

#[test]
fn matrix_clone_is_the_same_matrix() {
    let matrix = Matrix::from_rows(&[[7, 8], [9, 10], [11, 12]]);
    let copy = matrix.clone();
    assert_eq!((copy.rows(), copy.columns()), (3, 2));
    for i in 0..3 {
        for j in 0..2 {
            assert_eq!(copy.get(i, j), matrix.get(i, j));
        }
    }
}

#[test]
fn builders_replace_one_part_and_keep_the_other() {
    let chain = MarkovChain::new(2, 2);
    let with_vector = chain.with_vector(&[5, 6, 7]);
    assert_eq!(with_vector.vector, vec![5, 6, 7]);
    assert_eq!(with_vector.transition_matrix.rows(), 2);
    assert_eq!(with_vector.transition_matrix.get(1, 1), Some(0));
    let with_matrix = with_vector.with_matrix(&[[1, 2, 3]]);
    assert_eq!(with_matrix.vector, vec![5, 6, 7]);
    assert_eq!(with_matrix.transition_matrix.rows(), 1);
    assert_eq!(with_matrix.transition_matrix.columns(), 3);
    assert_eq!(with_matrix.transition_matrix.get(0, 2), Some(3));
    assert_eq!(chain.vector, vec![0, 0]);
}

#[test]
fn dimensions_agree_only_for_a_square_matrix_and_a_vector_of_its_side() {
    assert!(MarkovChain::new(3, 3).has_matching_dimensions());
    assert!(MarkovChain::new(0, 0).has_matching_dimensions());
    assert!(!MarkovChain::new(2, 3).has_matching_dimensions());
    assert!(!MarkovChain::new(3, 2).has_matching_dimensions());
    assert!(!MarkovChain::new(3, 3).with_vector(&[0, 0]).has_matching_dimensions());
    assert!(MarkovChain::new(2, 3).with_matrix(&[[0, 0, 0]; 3]).has_matching_dimensions());
}

#[test]
fn begin_opens_at_the_chain_vector() {
    let state = begun([3, 4], 9);
    assert_eq!(state.vector(), &vec![3, 4]);
    assert_eq!(state.performed(), 0);
    assert_eq!(state.limit(), 9);
}

#[test]
fn begin_refuses_a_limit_below_one() {
    assert!(matches!(chain_of([3, 4]).begin(0), Err(SolveError::NonConvergence)));
    assert!(matches!(chain_of([3, 4]).begin(-1), Err(SolveError::NonConvergence)));
    assert!(matches!(chain_of([3, 4]).begin(i32::MIN), Err(SolveError::NonConvergence)));
    assert!(matches!(MarkovChain::new(2, 3).begin(0), Err(SolveError::DimensionMismatch)));
}

#[test]
fn advance_ends_at_an_equal_product() {
    match begun([3, 0], 9).advance(vec![3, 0x8000_0000]) {
        Ok(Step::Converged(vector, count)) => {
            assert_eq!(vector, vec![3, 0]);
            assert_eq!(count, 1);
        }
        other => panic!("unexpected {:?}", other),
    }
}

#[test]
fn advance_moves_on_to_a_different_product() {
    let next = match begun([3, 4], 9).advance(vec![5, 6]) {
        Ok(Step::Continue(next)) => next,
        other => panic!("unexpected {:?}", other),
    };
    assert_eq!(next.vector(), &vec![5, 6]);
    assert_eq!(next.performed(), 1);
    assert_eq!(next.limit(), 9);
    match next.advance(vec![5, 6]) {
        Ok(Step::Converged(vector, count)) => {
            assert_eq!(vector, vec![5, 6]);
            assert_eq!(count, 2);
        }
        other => panic!("unexpected {:?}", other),
    }
}

#[test]
fn advance_gives_up_at_the_limit() {
    let next = match begun([3, 4], 2).advance(vec![5, 6]) {
        Ok(Step::Continue(next)) => next,
        other => panic!("unexpected {:?}", other),
    };
    assert!(matches!(next.advance(vec![7, 8]), Err(SolveError::NonConvergence)));
    assert!(matches!(begun([3, 4], 1).advance(vec![5, 6]), Err(SolveError::NonConvergence)));
    assert!(matches!(begun([3, 4], 1).advance(vec![3, 4]), Ok(Step::Converged(_, 1))));
    let last = match begun([3, 4], i32::MAX).advance(vec![5, 6]) {
        Ok(Step::Continue(next)) => next,
        other => panic!("unexpected {:?}", other),
    };
    assert_eq!(last.limit(), i32::MAX);
}

#[test]
fn advance_refuses_a_product_of_another_length() {
    assert!(matches!(begun([3, 4], 9).advance(vec![3]), Err(SolveError::DimensionMismatch)));
    assert!(matches!(begun([3, 4], 9).advance(vec![3, 4, 5]), Err(SolveError::DimensionMismatch)));
    assert!(matches!(begun([3, 4], 1).advance(vec![]), Err(SolveError::DimensionMismatch)));
}

#[test]
fn advance_never_settles_on_a_nan() {
    let nan = f32::NAN.to_bits();
    assert!(matches!(begun([nan, 0], 5).advance(vec![nan, 0]), Ok(Step::Continue(_))));
}
