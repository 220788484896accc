use vstd::prelude::*;
use crate::parser::syntax;
use crate::parser::syntax::lident_view;
use crate::renamer::plain::UnresolvedIdent;
use crate::util::loc::WithLoc;

verus! {

/// Why fragments do not link.
#[derive(Debug, PartialEq)]
pub enum Error {
    /// Two functions of the program have this name; it is the later one.
    DuplicateName(WithLoc<syntax::Ident>),
    /// A call names a function that the program does not have.
    UnresolvedName(syntax::Ident),
    /// A call in `function` uses a number that its references table does not hold.
    MissingReference { function: WithLoc<syntax::Ident>, reference: UnresolvedIdent },
    /// More functions than 32 bits can index.
    TooManyFunctions,
    /// A module with a section whose size may not fit in 32 bits.
    ModuleTooLarge,
}

/// The view of [`Error`]: sequences stand for vectors and strings.
pub enum ErrorView {
    DuplicateName(WithLoc<Seq<char>>),
    UnresolvedName(Seq<char>),
    MissingReference { function: WithLoc<Seq<char>>, reference: UnresolvedIdent },
    TooManyFunctions,
    ModuleTooLarge,
}

impl View for Error {
    type V = ErrorView;

    open spec fn view(&self) -> ErrorView {
        match self {
            Error::DuplicateName(n) => ErrorView::DuplicateName(lident_view(*n)),
            Error::UnresolvedName(n) => ErrorView::UnresolvedName(n@),
            Error::MissingReference { function, reference } => ErrorView::MissingReference {
                function: lident_view(*function),
                reference: *reference,
            },
            Error::TooManyFunctions => ErrorView::TooManyFunctions,
            Error::ModuleTooLarge => ErrorView::ModuleTooLarge,
        }
    }
}

} // verus!
