use vstd::prelude::*;
use crate::util::loc::Span;

verus! {

/// Why a source text is no program.
#[derive(Debug)]
pub enum Error {
    ParseFailed(ParseFailed),
}

/// A parse error: what was wrong, and where.
#[derive(Debug)]
pub struct ParseFailed {
    pub msg: String,
    pub span: Span,
}

} // verus!
