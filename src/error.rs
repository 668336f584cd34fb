//! The errors of the catalogue.

use vstd::prelude::*;
use crate::ids::RecordId;

verus! {

/// Why an operation on the catalogue failed.
#[derive(Debug)]
pub enum Error {
    /// A value could not be read in the format it must have (an identifier, a
    /// quantity); the text says which.
    MalformedInput(String),
    /// A well-formed identifier that no record of the requested kind has.
    IdentifierNotFound(RecordId),
    /// A name that no record of the requested kind has.
    NameNotFound(String),
    /// A name that two or more records of the requested kind share; the
    /// identifiers of all of them, in store order.
    AmbiguousName(String, Vec<RecordId>),
    /// A new record would take an identifier that a record already has.
    DuplicateIdentifier(RecordId),
    /// The persisted store could not be read, locked or written.
    StorageError(String),
}

/// The mathematical content of an [`Error`].
pub enum ErrorView {
    MalformedInput(Seq<char>),
    IdentifierNotFound(RecordId),
    NameNotFound(Seq<char>),
    AmbiguousName(Seq<char>, Seq<RecordId>),
    DuplicateIdentifier(RecordId),
    StorageError(Seq<char>),
}

impl View for Error {
    type V = ErrorView;

    open spec fn view(&self) -> ErrorView {
        match self {
            Error::MalformedInput(s) => ErrorView::MalformedInput(s@),
            Error::IdentifierNotFound(id) => ErrorView::IdentifierNotFound(*id),
            Error::NameNotFound(s) => ErrorView::NameNotFound(s@),
            Error::AmbiguousName(s, ids) => ErrorView::AmbiguousName(s@, ids@),
            Error::DuplicateIdentifier(id) => ErrorView::DuplicateIdentifier(*id),
            Error::StorageError(s) => ErrorView::StorageError(s@),
        }
    }
}

/// The view of a result whose success is a position in a collection.
pub open spec fn position_result(r: Result<usize, Error>) -> Result<int, ErrorView> {
    match r {
        Ok(i) => Ok(i as int),
        Err(e) => Err(e@),
    }
}

/// The process exit status that reports an error: one for each kind.
pub open spec fn exit_code_of(e: ErrorView) -> i32 {
    match e {
        ErrorView::MalformedInput(_) => 2,
        ErrorView::IdentifierNotFound(_) => 3,
        ErrorView::NameNotFound(_) => 4,
        ErrorView::AmbiguousName(_, _) => 5,
        ErrorView::DuplicateIdentifier(_) => 6,
        ErrorView::StorageError(_) => 7,
    }
}

impl Error {
    /// The process exit status that reports this error; each kind has its
    /// own, and none is zero.
    pub fn exit_code(&self) -> (r: i32)
        ensures
            r == exit_code_of(self@),
            r != 0,
    {
        match self {
            Error::MalformedInput(_) => 2,
            Error::IdentifierNotFound(_) => 3,
            Error::NameNotFound(_) => 4,
            Error::AmbiguousName(_, _) => 5,
            Error::DuplicateIdentifier(_) => 6,
            Error::StorageError(_) => 7,
        }
    }
}

} // verus!
