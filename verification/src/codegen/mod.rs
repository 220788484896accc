pub mod codegen;
pub mod error;
pub mod fragment;
pub mod laws;
pub mod references;
pub mod types;

pub use codegen::run;
pub use error::Error;
