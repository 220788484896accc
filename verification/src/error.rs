use vstd::prelude::*;
use crate::codegen;
use crate::linker;
use crate::renamer;
use crate::simplifier;

verus! {

/// Why a program does not compile: the error of the stage that found it.
#[derive(Debug, PartialEq)]
pub enum Error {
    Renamer(renamer::Error),
    Simplifier(simplifier::Error),
    Codegen(codegen::Error),
    Linker(linker::Error),
}

/// The view of [`Error`]: sequences stand for vectors and strings.
pub enum ErrorView {
    Renamer(renamer::error::ErrorView),
    Simplifier(simplifier::Error),
    Codegen(codegen::Error),
    Linker(linker::error::ErrorView),
}

impl View for Error {
    type V = ErrorView;

    open spec fn view(&self) -> ErrorView {
        match self {
            Error::Renamer(e) => ErrorView::Renamer(e@),
            Error::Simplifier(e) => ErrorView::Simplifier(*e),
            Error::Codegen(e) => ErrorView::Codegen(*e),
            Error::Linker(e) => ErrorView::Linker(e@),
        }
    }
}

impl From<renamer::Error> for Error {
    fn from(e: renamer::Error) -> (r: Self) {
        Error::Renamer(e)
    }
}

impl vstd::std_specs::convert::FromSpecImpl<renamer::Error> for Error {
    open spec fn obeys_from_spec() -> bool {
        true
    }

    open spec fn from_spec(e: renamer::Error) -> Self {
        Error::Renamer(e)
    }
}

impl From<simplifier::Error> for Error {
    fn from(e: simplifier::Error) -> (r: Self) {
        Error::Simplifier(e)
    }
}

impl vstd::std_specs::convert::FromSpecImpl<simplifier::Error> for Error {
    open spec fn obeys_from_spec() -> bool {
        true
    }

    open spec fn from_spec(e: simplifier::Error) -> Self {
        Error::Simplifier(e)
    }
}

impl From<codegen::Error> for Error {
    fn from(e: codegen::Error) -> (r: Self) {
        Error::Codegen(e)
    }
}

impl vstd::std_specs::convert::FromSpecImpl<codegen::Error> for Error {
    open spec fn obeys_from_spec() -> bool {
        true
    }

    open spec fn from_spec(e: codegen::Error) -> Self {
        Error::Codegen(e)
    }
}

impl From<linker::Error> for Error {
    fn from(e: linker::Error) -> (r: Self) {
        Error::Linker(e)
    }
}

impl vstd::std_specs::convert::FromSpecImpl<linker::Error> for Error {
    open spec fn obeys_from_spec() -> bool {
        true
    }

    open spec fn from_spec(e: linker::Error) -> Self {
        Error::Linker(e)
    }
}

} // verus!
