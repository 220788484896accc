pub mod ax;
pub mod bimap;
pub mod loc;
pub mod pp;
pub mod vecs;
