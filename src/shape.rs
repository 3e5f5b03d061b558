use vstd::prelude::*;

verus! {

/// Why a model could not be built, converted or designed.
#[derive(Debug, Clone, Copy, PartialEq, Eq, Structural)]
pub enum LtiError {
    /// A coefficient sequence or a matrix is empty.
    Empty,
    /// The numerator is longer than the denominator.
    ImproperTransferFunction,
    /// The denominator has degree zero: a static gain with no state.
    StaticGain,
    /// The leading denominator coefficient is zero.
    ZeroLeadingCoefficient,
    /// A matrix that must be square is not.
    NotSquare,
    /// The dimensions of the matrices do not fit together.
    DimensionMismatch,
    /// A matrix that must be inverted is singular.
    SingularMatrix,
    /// The filter order is zero.
    ZeroOrder,
    /// The filter order is too large for its coefficients to be represented.
    OrderTooLarge,
    /// A sample interval, cutoff frequency or interpolation factor is out of range.
    InvalidParameter,
    /// The cutoff frequency is at or above the Nyquist frequency.
    CutoffAboveNyquist,
}

/// The number of rows and columns of a matrix.
#[derive(Debug, Clone, Copy, PartialEq, Eq, Structural)]
pub struct Shape {
    pub rows: usize,
    pub cols: usize,
}

/// What checking a continuous transfer function's lengths gives.
pub open spec fn continuous_order_spec(num_len: usize, den_len: usize) -> Result<usize, LtiError> {
    if num_len == 0 || den_len == 0 {
        Err(LtiError::Empty)
    } else if num_len > den_len {
        Err(LtiError::ImproperTransferFunction)
    } else if den_len == 1 {
        Err(LtiError::StaticGain)
    } else {
        Ok((den_len - 1) as usize)
    }
}

/// The order of a continuous transfer function with these coefficient counts.
///
/// The system must be proper (`num_len <= den_len`) and have at least one
/// state: a denominator of degree zero is a static gain, which has no
/// state-space realization with a state vector, and is rejected.
pub fn continuous_order(num_len: usize, den_len: usize) -> (r: Result<usize, LtiError>)
    ensures
        r == continuous_order_spec(num_len, den_len),
{
    if num_len == 0 || den_len == 0 {
        Err(LtiError::Empty)
    } else if num_len > den_len {
        Err(LtiError::ImproperTransferFunction)
    } else if den_len == 1 {
        Err(LtiError::StaticGain)
    } else {
        Ok(den_len - 1)
    }
}

/// The order of a discrete transfer function with these coefficient counts.
///
/// The direct-form recurrence keeps one register of `num_len` inputs and one
/// of `den_len` outputs, so both must be non-empty; any lengths are
/// otherwise accepted, a denominator of length one giving a pure
/// moving-average filter.
pub fn discrete_order(num_len: usize, den_len: usize) -> (r: Result<usize, LtiError>)
    ensures
        r == (if num_len == 0 || den_len == 0 {
            Err::<usize, LtiError>(LtiError::Empty)
        } else {
            Ok::<usize, LtiError>((den_len - 1) as usize)
        }),
{
    if num_len == 0 || den_len == 0 {
        Err(LtiError::Empty)
    } else {
        Ok(den_len - 1)
    }
}

/// What checking the shapes of `(A, B, C, D)` gives.
pub open spec fn state_space_order_spec(a: Shape, b: Shape, c: Shape, d: Shape) -> Result<usize, LtiError> {
    if a.rows != a.cols {
        Err(LtiError::NotSquare)
    } else if a.rows == 0 {
        Err(LtiError::Empty)
    } else if b.rows != a.rows || c.cols != a.rows || d.rows != c.rows || d.cols != b.cols {
        Err(LtiError::DimensionMismatch)
    } else {
        Ok(a.rows)
    }
}

/// The order `n` of a state-space model whose matrices have these shapes.
///
/// `A` must be a non-empty square `n x n`, `B` is `n x m`, `C` is `p x n`
/// and `D` is `p x m`.
pub fn state_space_order(a: Shape, b: Shape, c: Shape, d: Shape) -> (r: Result<usize, LtiError>)
    ensures
        r == state_space_order_spec(a, b, c, d),
{
    if a.rows != a.cols {
        Err(LtiError::NotSquare)
    } else if a.rows == 0 {
        Err(LtiError::Empty)
    } else if b.rows != a.rows || c.cols != a.rows || d.rows != c.rows || d.cols != b.cols {
        Err(LtiError::DimensionMismatch)
    } else {
        Ok(a.rows)
    }
}

/// The order of a state-space model that can be stepped one scalar sample at
/// a time: the shapes fit together, there is exactly one input column and at
/// least one output row, whose first entry is the output sample.
pub fn single_input_order(a: Shape, b: Shape, c: Shape, d: Shape) -> (r: Result<usize, LtiError>)
    ensures
        r == (match state_space_order_spec(a, b, c, d) {
            Ok(n) => if b.cols == 1 && c.rows >= 1 {
                Ok::<usize, LtiError>(n)
            } else {
                Err::<usize, LtiError>(LtiError::DimensionMismatch)
            },
            Err(e) => Err::<usize, LtiError>(e),
        }),
{
    match state_space_order(a, b, c, d) {
        Ok(n) => if b.cols == 1 && c.rows >= 1 {
            Ok(n)
        } else {
            Err(LtiError::DimensionMismatch)
        },
        Err(e) => Err(e),
    }
}

/// The order of a square matrix, as needed for its characteristic polynomial.
pub fn square_order(m: Shape) -> (r: Result<usize, LtiError>)
    ensures
        r == (if m.rows == m.cols {
            Ok::<usize, LtiError>(m.rows)
        } else {
            Err::<usize, LtiError>(LtiError::NotSquare)
        }),
{
    if m.rows == m.cols {
        Ok(m.rows)
    } else {
        Err(LtiError::NotSquare)
    }
}

} // verus!
