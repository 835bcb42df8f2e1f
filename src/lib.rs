//! Linear regression fitted by full-batch gradient descent, over decimal
//! fixed-point numbers.

pub mod dataset;
pub mod error;
pub mod fixed;
pub mod model;
pub mod scalar;

pub use dataset::{DataPoint, Dataset};
pub use error::ModelError;
pub use fixed::Fixed;
pub use model::LinearRegression;
pub use scalar::Scalar;
