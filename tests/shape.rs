use siras::shape::{
    continuous_order, discrete_order, single_input_order, square_order, state_space_order,
    LtiError, Shape,
};

fn sh(rows: usize, cols: usize) -> Shape {
    Shape { rows, cols }
}

#[test]
fn continuous_order_of_proper_functions() {
    assert_eq!(continuous_order(3, 3), Ok(2));
    assert_eq!(continuous_order(3, 4), Ok(3));
    assert_eq!(continuous_order(1, 2), Ok(1));
}

#[test]
fn continuous_order_errors() {
    assert_eq!(continuous_order(0, 3), Err(LtiError::Empty));
    assert_eq!(continuous_order(2, 0), Err(LtiError::Empty));
    assert_eq!(continuous_order(4, 3), Err(LtiError::ImproperTransferFunction));
    assert_eq!(continuous_order(1, 1), Err(LtiError::StaticGain));
}

#[test]
fn discrete_order_cases() {
    assert_eq!(discrete_order(1, 2), Ok(1));
    assert_eq!(discrete_order(3, 1), Ok(0));
    assert_eq!(discrete_order(0, 2), Err(LtiError::Empty));
    assert_eq!(discrete_order(2, 0), Err(LtiError::Empty));
}

#[test]
fn state_space_order_cases() {
    assert_eq!(state_space_order(sh(2, 2), sh(2, 1), sh(3, 2), sh(3, 1)), Ok(2));
    assert_eq!(state_space_order(sh(2, 3), sh(2, 1), sh(1, 2), sh(1, 1)), Err(LtiError::NotSquare));
    assert_eq!(state_space_order(sh(0, 0), sh(0, 1), sh(1, 0), sh(1, 1)), Err(LtiError::Empty));
    assert_eq!(
        state_space_order(sh(2, 2), sh(3, 1), sh(1, 2), sh(1, 1)),
        Err(LtiError::DimensionMismatch)
    );
    assert_eq!(
        state_space_order(sh(2, 2), sh(2, 1), sh(1, 2), sh(2, 1)),
        Err(LtiError::DimensionMismatch)
    );
}

#[test]
fn single_input_order_cases() {
    assert_eq!(single_input_order(sh(2, 2), sh(2, 1), sh(1, 2), sh(1, 1)), Ok(2));
    assert_eq!(
        single_input_order(sh(2, 2), sh(2, 2), sh(1, 2), sh(1, 2)),
        Err(LtiError::DimensionMismatch)
    );
    assert_eq!(
        single_input_order(sh(2, 2), sh(2, 1), sh(0, 2), sh(0, 1)),
        Err(LtiError::DimensionMismatch)
    );
    assert_eq!(single_input_order(sh(1, 2), sh(1, 1), sh(1, 2), sh(1, 1)), Err(LtiError::NotSquare));
}

#[test]
fn square_order_cases() {
    assert_eq!(square_order(sh(3, 3)), Ok(3));
    assert_eq!(square_order(sh(3, 2)), Err(LtiError::NotSquare));
}
