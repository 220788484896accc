use vstd::prelude::*;
use crate::renamer::plain::UnresolvedIdent;
use crate::util::loc::{SrcLoc, WithLoc};

verus! {

/// Why a renamed program has no flat form.
#[derive(Debug, Clone, Copy, PartialEq, Eq)]
pub enum Error {
    /// A name that is read but bound nowhere in its function: only a call may
    /// name what the linker resolves.
    GlobalRead(WithLoc<UnresolvedIdent>),
    /// A string literal: the flat form has numbers only.
    StringLiteral(SrcLoc),
    /// An invariant statement: the flat form has none.
    Invariant(SrcLoc),
    /// A function with more source locations than 32 bits can tag.
    TooManyTags(SrcLoc),
    /// A function with more temporaries than 32 bits can number.
    TooManyTemporaries(SrcLoc),
}

} // verus!
