pub mod encoder;
pub mod error;
pub mod laws;
pub mod linked;
pub mod linker;
pub mod mk_wasm;
pub mod prims;
pub mod references;

pub use error::Error;
pub use linker::{link, run};
pub use mk_wasm::mk_wasm;
pub use prims::prims;
