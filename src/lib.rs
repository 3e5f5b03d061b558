//! Structural core of a library for linear time-invariant systems and the
//! digital filters designed from them: the sample registers that drive the
//! discrete recurrences, the validation of model shapes, the index layout of
//! the controllable canonical realization, and the exact integer side of
//! Butterworth and Bessel prototype design.

pub mod canonical;
pub mod design;
pub mod history;
pub mod shape;
