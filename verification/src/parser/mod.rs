pub mod error;
pub mod syntax;
