use vstd::prelude::*;
use crate::renamer::plain::LocalIdent;

verus! {

/// Why a function in the flat form has no code.
#[derive(Debug, Clone, Copy, PartialEq, Eq)]
pub enum Error {
    /// A `Break` that no loop encloses.
    BreakOutsideLoop,
    /// A parameter that stands twice in the parameter list.
    DuplicateParameter(LocalIdent),
    /// More parameters, locals and temporaries than 32 bits can number.
    TooManySlots,
    /// Conditionals nested deeper inside a loop than 32 bits can count.
    TooDeep,
}

} // verus!
