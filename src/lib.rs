pub mod error;
pub mod matrix;
pub mod text;

pub use error::Error;
pub use matrix::Matrix;
