//! Errors of the engine and the shape in which outcomes are reported.

use crate::links::dto::{IResult, Link};
use crate::mediafiles::dto::Mediafile;
use vstd::prelude::*;

verus! {

/// Why a pass or a request failed.
#[derive(Debug, Clone, Copy, PartialEq, Eq, Structural)]
pub enum ErrorKind {
    /// No link has the given id.
    NotFound,
    /// The page could not be fetched.
    Unreachable,
    /// The address is not a well-formed absolute address.
    InvalidInput,
    /// A file could not be read or written.
    IOFailure,
    /// The store refused an operation.
    PersistenceFailure,
}

/// A failure with its kind and a message for the reader.
#[derive(Debug, Clone, PartialEq, Eq)]
pub struct SyncError {
    pub kind: ErrorKind,
    pub message: String,
}

/// The status under which a failure of `kind` is reported.
pub open spec fn status_of(kind: ErrorKind) -> u16 {
    match kind {
        ErrorKind::NotFound => 404,
        ErrorKind::Unreachable => 404,
        ErrorKind::InvalidInput => 400,
        ErrorKind::IOFailure => 500,
        ErrorKind::PersistenceFailure => 500,
    }
}

/// The status under which a failure of `kind` is reported.
pub fn status_code(kind: ErrorKind) -> (status: u16)
    ensures
        status == status_of(kind),
{
    match kind {
        ErrorKind::NotFound => 404,
        ErrorKind::Unreachable => 404,
        ErrorKind::InvalidInput => 400,
        ErrorKind::IOFailure => 500,
        ErrorKind::PersistenceFailure => 500,
    }
}

/// The report of a failure inside the engine: status 500.
pub fn server_error_response(message: String) -> (response: (u16, IResult))
    ensures
        response.0 == 500,
        !response.1.success,
        response.1.message == message,
{
    (500, IResult { success: false, message })
}

/// The report of a failure under the given status.
pub fn error_response(message: String, status: u16) -> (response: (u16, IResult))
    ensures
        response.0 == status,
        !response.1.success,
        response.1.message == message,
{
    (status, IResult { success: false, message })
}

/// The report of a success: status 200.
pub fn success_response(message: String) -> (response: (u16, IResult))
    ensures
        response.0 == 200,
        response.1.success,
        response.1.message == message,
{
    (200, IResult { success: true, message })
}

impl SyncError {
    /// A failure of `kind` with this message.
    pub fn new(kind: ErrorKind, message: String) -> (error: Self)
        ensures
            error.kind == kind,
            error.message == message,
    {
        SyncError { kind, message }
    }

    /// The failure of a request about a link that does not exist.
    pub fn link_not_found() -> (error: Self)
        ensures
            error.kind == ErrorKind::NotFound,
            error.message@ == "Link not found"@,
    {
        SyncError { kind: ErrorKind::NotFound, message: String::from_str("Link not found") }
    }

    /// The failure of a request for a page address that is not well formed.
    pub fn invalid_path() -> (error: Self)
        ensures
            error.kind == ErrorKind::InvalidInput,
            error.message@ == "Path is not a valid URL"@,
    {
        SyncError { kind: ErrorKind::InvalidInput, message: String::from_str("Path is not a valid URL") }
    }

    /// The report of this failure: its message under the status of its kind.
    pub fn response(self) -> (response: (u16, IResult))
        ensures
            response.0 == status_of(self.kind),
            !response.1.success,
            response.1.message == self.message,
    {
        let status = status_code(self.kind);
        error_response(self.message, status)
    }
}

/// The text that opens the report of an inventory that could not be read.
pub open spec fn inventory_failure_text(cause: Seq<char>) -> Seq<char> {
    "Failed to get mediafiles: "@ + cause
}

/// The link that a pass works on, given what the store answered: a pass
/// ends as not found where the store has no such link, and as a failure of
/// the store where it could not answer.
pub fn require_link(found: Result<Option<Link>, String>) -> (link: Result<Link, SyncError>)
    ensures
        match found {
            Ok(Some(l)) => link == Ok::<Link, SyncError>(l),
            Ok(None) => link matches Err(e) && e.kind == ErrorKind::NotFound && e.message@
                == "Link not found"@,
            Err(cause) => link matches Err(e) && e.kind == ErrorKind::PersistenceFailure && e.message
                == cause,
        },
{
    match found {
        Ok(Some(link)) => Ok(link),
        Ok(None) => Err(SyncError::link_not_found()),
        Err(cause) => Err(SyncError::new(ErrorKind::PersistenceFailure, cause)),
    }
}

/// The page that a download pass works on, given what fetching brought: a
/// pass ends as unreachable where the page could not be fetched.
pub fn require_page(fetched: Result<String, String>) -> (page: Result<String, SyncError>)
    ensures
        match fetched {
            Ok(body) => page == Ok::<String, SyncError>(body),
            Err(cause) => page matches Err(e) && e.kind == ErrorKind::Unreachable && e.message == cause,
        },
{
    match fetched {
        Ok(body) => Ok(body),
        Err(cause) => Err(SyncError::new(ErrorKind::Unreachable, cause)),
    }
}

/// The directory that a pass works in, given what making or reading it
/// brought: a pass ends as an input-output failure where it is not there.
pub fn require_directory(made: Result<String, String>) -> (directory: Result<String, SyncError>)
    ensures
        match made {
            Ok(path) => directory == Ok::<String, SyncError>(path),
            Err(cause) => directory matches Err(e) && e.kind == ErrorKind::IOFailure && e.message
                == cause,
        },
{
    match made {
        Ok(path) => Ok(path),
        Err(cause) => Err(SyncError::new(ErrorKind::IOFailure, cause)),
    }
}

/// The persisted records that a pass compares with, given what the store
/// answered: a pass ends as a failure of the store where it could not
/// answer.
pub fn require_inventory(listed: Result<Vec<Mediafile>, String>) -> (records: Result<Vec<Mediafile>, SyncError>)
    ensures
        match listed {
            Ok(list) => records == Ok::<Vec<Mediafile>, SyncError>(list),
            Err(cause) => records matches Err(e) && e.kind == ErrorKind::PersistenceFailure
                && e.message@ == inventory_failure_text(cause@),
        },
{
    match listed {
        Ok(list) => Ok(list),
        Err(cause) => {
            let mut message = String::from_str("Failed to get mediafiles: ");
            message.append(cause.as_str());
            Err(SyncError::new(ErrorKind::PersistenceFailure, message))
        },
    }
}

} // verus!
