//! The error type of the library.
use vstd::prelude::*;

use crate::text::text3;

verus! {

/// What a fallible operation of the library returns.
pub type DeltaResult<T> = Result<T, Error>;

/// Everything that can go wrong while working with a table.
#[derive(Debug, PartialEq, Eq)]
pub enum Error {
    /// An error without a kind of its own.
    Generic(String),
    /// A state that the library never produces by itself.
    InternalError(String),
    /// The protocol action of the table is malformed.
    InvalidProtocol(String),
    /// The table needs something that is not supported.
    Unsupported(String),
    /// A schema is malformed.
    Schema(String),
    /// The checkpoint of the table cannot be used.
    InvalidCheckpoint(String),
    /// The staged changes of a transaction contradict each other.
    InvalidTransactionState(String),
    /// The column mapping mode of the table is not one of the known modes.
    InvalidColumnMappingMode(String),
    /// The statistics of an added file are incomplete.
    StatsValidation(String),
    /// A column that was asked for does not exist.
    MissingColumn(String),
    /// A file does not exist.
    FileNotFound(String),
    /// Reading or writing failed; the operation may be tried again.
    IOError(String),
    /// A location is not a valid URL.
    InvalidUrl(String),
}

/// The mathematical value of an [`Error`].
pub enum ErrorView {
    Generic(Seq<char>),
    InternalError(Seq<char>),
    InvalidProtocol(Seq<char>),
    Unsupported(Seq<char>),
    Schema(Seq<char>),
    InvalidCheckpoint(Seq<char>),
    InvalidTransactionState(Seq<char>),
    InvalidColumnMappingMode(Seq<char>),
    StatsValidation(Seq<char>),
    MissingColumn(Seq<char>),
    FileNotFound(Seq<char>),
    IOError(Seq<char>),
    InvalidUrl(Seq<char>),
}

impl View for Error {
    type V = ErrorView;

    open spec fn view(&self) -> ErrorView {
        match *self {
            Error::Generic(s) => ErrorView::Generic(s@),
            Error::InternalError(s) => ErrorView::InternalError(s@),
            Error::InvalidProtocol(s) => ErrorView::InvalidProtocol(s@),
            Error::Unsupported(s) => ErrorView::Unsupported(s@),
            Error::Schema(s) => ErrorView::Schema(s@),
            Error::InvalidCheckpoint(s) => ErrorView::InvalidCheckpoint(s@),
            Error::InvalidTransactionState(s) => ErrorView::InvalidTransactionState(s@),
            Error::InvalidColumnMappingMode(s) => ErrorView::InvalidColumnMappingMode(s@),
            Error::StatsValidation(s) => ErrorView::StatsValidation(s@),
            Error::MissingColumn(s) => ErrorView::MissingColumn(s@),
            Error::FileNotFound(s) => ErrorView::FileNotFound(s@),
            Error::IOError(s) => ErrorView::IOError(s@),
            Error::InvalidUrl(s) => ErrorView::InvalidUrl(s@),
        }
    }
}

/// The text that is shown for an error.
pub open spec fn error_text(e: ErrorView) -> Seq<char> {
    match e {
        ErrorView::Generic(s) => "Generic delta kernel error: "@ + s,
        ErrorView::InternalError(s) => "Internal error "@ + s
            + ". This is a kernel bug, please report."@,
        ErrorView::InvalidProtocol(s) => "Invalid protocol action in the delta log: "@ + s,
        ErrorView::Unsupported(s) => "Unsupported: "@ + s,
        ErrorView::Schema(s) => "Schema error: "@ + s,
        ErrorView::InvalidCheckpoint(s) => "Invalid Checkpoint: "@ + s,
        ErrorView::InvalidTransactionState(s) => "Invalid transaction state: "@ + s,
        ErrorView::InvalidColumnMappingMode(s) => "Invalid column mapping mode: "@ + s,
        ErrorView::StatsValidation(s) => "Stats validation error: "@ + s,
        ErrorView::MissingColumn(s) => "No such column: "@ + s,
        ErrorView::FileNotFound(s) => "File not found: "@ + s,
        ErrorView::IOError(s) => "Error interacting with storage: "@ + s,
        ErrorView::InvalidUrl(s) => "Invalid url: "@ + s,
    }
}

/// What a fallible operation amounts to: its value, or the mathematical value of its error.
pub open spec fn outcome<T>(r: DeltaResult<T>) -> Result<T, ErrorView> {
    match r {
        Ok(v) => Ok(v),
        Err(e) => Err(e@),
    }
}

/// The error of a fallible operation, if any.
pub open spec fn failure<T>(r: DeltaResult<T>) -> Option<ErrorView> {
    match r {
        Ok(_) => None,
        Err(e) => Some(e@),
    }
}

impl Error {
    pub fn generic(msg: &str) -> (r: Error)
        ensures
            r@ == ErrorView::Generic(msg@),
    {
        Error::Generic(msg.to_owned())
    }

    pub fn internal_error(msg: &str) -> (r: Error)
        ensures
            r@ == ErrorView::InternalError(msg@),
    {
        Error::InternalError(msg.to_owned())
    }

    pub fn invalid_protocol(msg: &str) -> (r: Error)
        ensures
            r@ == ErrorView::InvalidProtocol(msg@),
    {
        Error::InvalidProtocol(msg.to_owned())
    }

    pub fn unsupported(msg: &str) -> (r: Error)
        ensures
            r@ == ErrorView::Unsupported(msg@),
    {
        Error::Unsupported(msg.to_owned())
    }

    pub fn invalid_transaction_state(msg: &str) -> (r: Error)
        ensures
            r@ == ErrorView::InvalidTransactionState(msg@),
    {
        Error::InvalidTransactionState(msg.to_owned())
    }

    /// The text that is shown for this error.
    pub fn to_string(&self) -> (r: String)
        ensures
            r@ == error_text(self@),
    {
        proof {
            reveal_strlit("");
        }
        match self {
            Error::Generic(s) => text3("Generic delta kernel error: ", s.as_str(), ""),
            Error::InternalError(s) => text3(
                "Internal error ",
                s.as_str(),
                ". This is a kernel bug, please report.",
            ),
            Error::InvalidProtocol(s) => text3(
                "Invalid protocol action in the delta log: ",
                s.as_str(),
                "",
            ),
            Error::Unsupported(s) => text3("Unsupported: ", s.as_str(), ""),
            Error::Schema(s) => text3("Schema error: ", s.as_str(), ""),
            Error::InvalidCheckpoint(s) => text3("Invalid Checkpoint: ", s.as_str(), ""),
            Error::InvalidTransactionState(s) => text3(
                "Invalid transaction state: ",
                s.as_str(),
                "",
            ),
            Error::InvalidColumnMappingMode(s) => text3(
                "Invalid column mapping mode: ",
                s.as_str(),
                "",
            ),
            Error::StatsValidation(s) => text3("Stats validation error: ", s.as_str(), ""),
            Error::MissingColumn(s) => text3("No such column: ", s.as_str(), ""),
            Error::FileNotFound(s) => text3("File not found: ", s.as_str(), ""),
            Error::IOError(s) => text3("Error interacting with storage: ", s.as_str(), ""),
            Error::InvalidUrl(s) => text3("Invalid url: ", s.as_str(), ""),
        }
    }
}

impl Clone for Error {
    fn clone(&self) -> (r: Error)
        ensures
            r@ == self@,
    {
        match self {
            Error::Generic(s) => Error::Generic(s.clone()),
            Error::InternalError(s) => Error::InternalError(s.clone()),
            Error::InvalidProtocol(s) => Error::InvalidProtocol(s.clone()),
            Error::Unsupported(s) => Error::Unsupported(s.clone()),
            Error::Schema(s) => Error::Schema(s.clone()),
            Error::InvalidCheckpoint(s) => Error::InvalidCheckpoint(s.clone()),
            Error::InvalidTransactionState(s) => Error::InvalidTransactionState(s.clone()),
            Error::InvalidColumnMappingMode(s) => Error::InvalidColumnMappingMode(s.clone()),
            Error::StatsValidation(s) => Error::StatsValidation(s.clone()),
            Error::MissingColumn(s) => Error::MissingColumn(s.clone()),
            Error::FileNotFound(s) => Error::FileNotFound(s.clone()),
            Error::IOError(s) => Error::IOError(s.clone()),
            Error::InvalidUrl(s) => Error::InvalidUrl(s.clone()),
        }
    }
}

} // verus!
