pub mod laws;
pub mod passes;
pub mod prune_single_use;
pub mod remove_nops;

pub use passes::{optimized_body, optimized_module, run};
