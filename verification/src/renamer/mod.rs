pub mod error;
pub mod laws;
pub mod plain;
pub mod references;
pub mod renamer;

pub use error::{DuplicateIdentifierError, Error, IdentifierNotFoundError, TooManyIdentifiersError};
pub use renamer::rename;
