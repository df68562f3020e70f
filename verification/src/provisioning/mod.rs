pub mod error;
pub mod flow;
pub mod topics;

pub use error::Error;
