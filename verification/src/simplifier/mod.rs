pub mod error;
pub mod laws;
pub mod optimizations;
pub mod references;
pub mod simple;
pub mod simplifier;

pub use error::Error;
pub use simplifier::{run, simply_fun_impl};
