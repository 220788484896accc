use vstd::prelude::*;
use crate::parser::syntax;
use crate::parser::syntax::lident_view;
use crate::util::loc::{SrcLoc, WithLoc};

verus! {

/// Why a program cannot be renamed.
#[derive(Debug, PartialEq)]
pub enum Error {
    IdentifierNotFound(IdentifierNotFoundError),
    DuplicateIdentifier(DuplicateIdentifierError),
    TooManyIdentifiers(TooManyIdentifiersError),
}

/// An assignment to a name that no parameter or `let` of the function binds.
#[derive(Debug, PartialEq)]
pub struct IdentifierNotFoundError {
    pub identifier: WithLoc<syntax::Ident>,
}

/// A second binding of a name in one function. `error` is the second
/// occurrence, `original_loc` the place of the first.
#[derive(Debug, PartialEq)]
pub struct DuplicateIdentifierError {
    pub error: WithLoc<syntax::Ident>,
    pub original_loc: SrcLoc,
}

/// A function with more names than 32 bits can number; `identifier` is the
/// first one that got no number.
#[derive(Debug, PartialEq)]
pub struct TooManyIdentifiersError {
    pub identifier: WithLoc<syntax::Ident>,
}

/// The view of [`Error`]: sequences stand for vectors and strings.
pub enum ErrorView {
    IdentifierNotFound { identifier: WithLoc<Seq<char>> },
    DuplicateIdentifier { error: WithLoc<Seq<char>>, original_loc: SrcLoc },
    TooManyIdentifiers { identifier: WithLoc<Seq<char>> },
}

impl View for Error {
    type V = ErrorView;

    open spec fn view(&self) -> ErrorView {
        match self {
            Error::IdentifierNotFound(e) => ErrorView::IdentifierNotFound {
                identifier: lident_view(e.identifier),
            },
            Error::DuplicateIdentifier(e) => ErrorView::DuplicateIdentifier {
                error: lident_view(e.error),
                original_loc: e.original_loc,
            },
            Error::TooManyIdentifiers(e) => ErrorView::TooManyIdentifiers {
                identifier: lident_view(e.identifier),
            },
        }
    }
}

} // verus!
