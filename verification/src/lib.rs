//! Fits a straight line `y = m*x + b` to a fixed, non-empty set of points by
//! full-batch gradient descent on the mean squared error.
//!
//! All numbers are 64-bit fixed-point values with nine decimal places (a
//! `Scalar` stores `value * 10^9` in an `i64`); every arithmetic step is
//! specified exactly, with truncating division and saturation at the `i64`
//! bounds, so each gradient-descent update is a deterministic function of the
//! point set, the current line and the learning rate.

pub mod fixed;
pub mod fitter;
pub mod laws;

pub use fixed::add_spec;
pub use fixed::mul_spec;
pub use fixed::sat64;
pub use fixed::sub_spec;
pub use fixed::tdiv;
pub use fixed::Scalar;
pub use fixed::SCALE;
pub use fitter::FitError;
pub use fitter::Line;
pub use fitter::LinearRegression;
pub use fitter::Point;
pub use fitter::DEFAULT_LEARNING_RATE_RAW;
