//! The error taxonomy: every failure an operation can surface, and its
//! semantic kind, which the host-facing adapter translates into the
//! platform's error code (errno on Unix, NTSTATUS on Windows).

use vstd::prelude::*;

use crate::item::{CourseItem, Item};
use crate::pages::BBPage;

verus! {

/// Semantic kind of a failure, the unit of error-code translation:
/// `NetworkTransient` maps to `ENETRESET`, `ProtocolParse` and `OutOfRange`
/// to `EIO`, `NotAFile` to `EISDIR`, `NotADirectory` to `EIO`, and
/// `NoSuchEntry` to `ENOENT` (with the analogous NTSTATUS values on
/// Windows).
#[derive(Clone, Copy, PartialEq, Eq, Structural, Debug)]
pub enum ErrorKind {
    NetworkTransient,
    ProtocolParse,
    NotAFile,
    NotADirectory,
    NoSuchEntry,
    OutOfRange,
}

/// Everything that can go wrong while serving a callback.
#[derive(Debug)]
pub enum BbError {
    /// A page could not be fetched from the LMS.
    FailedToGetPage(BBPage),
    /// A fetched page's body could not be read.
    FailedToReadPageContents(BBPage),
    /// An item's payload could not be downloaded.
    FailedToGetContents(CourseItem),
    /// A metadata probe for a payload failed.
    FailedToGetHeaders,
    /// A metadata probe came back without a length.
    MissingContentLengthHeader,
    /// A metadata probe came back with an unreadable length.
    InvalidContentLengthHeader,
    /// A folder listing could not be scraped.
    FailedToWebScrapeFolder,
    /// The course membership listing could not be parsed.
    FailedToParseMemberships,
    /// The user's own record could not be parsed.
    FailedToParseMe,
    /// A read arrived for a directory.
    NotAFile(Item),
    /// A listing arrived for a file.
    NotADirectory(Item),
    /// A handle or name resolved to nothing.
    NoSuchEntry,
    /// A read started past the end of the contents.
    OutOfRange,
}

impl BbError {
    /// The semantic kind of the error.
    pub open spec fn spec_kind(&self) -> ErrorKind {
        match self {
            BbError::FailedToGetPage(_) => ErrorKind::NetworkTransient,
            BbError::FailedToGetContents(_) => ErrorKind::NetworkTransient,
            BbError::FailedToGetHeaders => ErrorKind::NetworkTransient,
            BbError::FailedToReadPageContents(_) => ErrorKind::ProtocolParse,
            BbError::MissingContentLengthHeader => ErrorKind::ProtocolParse,
            BbError::InvalidContentLengthHeader => ErrorKind::ProtocolParse,
            BbError::FailedToWebScrapeFolder => ErrorKind::ProtocolParse,
            BbError::FailedToParseMemberships => ErrorKind::ProtocolParse,
            BbError::FailedToParseMe => ErrorKind::ProtocolParse,
            BbError::NotAFile(_) => ErrorKind::NotAFile,
            BbError::NotADirectory(_) => ErrorKind::NotADirectory,
            BbError::NoSuchEntry => ErrorKind::NoSuchEntry,
            BbError::OutOfRange => ErrorKind::OutOfRange,
        }
    }

    /// Computes the semantic kind of the error.
    pub fn kind(&self) -> (k: ErrorKind)
        ensures
            k == self.spec_kind(),
    {
        match self {
            BbError::FailedToGetPage(_)
            | BbError::FailedToGetContents(_)
            | BbError::FailedToGetHeaders => ErrorKind::NetworkTransient,
            BbError::FailedToReadPageContents(_)
            | BbError::MissingContentLengthHeader
            | BbError::InvalidContentLengthHeader
            | BbError::FailedToWebScrapeFolder
            | BbError::FailedToParseMemberships
            | BbError::FailedToParseMe => ErrorKind::ProtocolParse,
            BbError::NotAFile(_) => ErrorKind::NotAFile,
            BbError::NotADirectory(_) => ErrorKind::NotADirectory,
            BbError::NoSuchEntry => ErrorKind::NoSuchEntry,
            BbError::OutOfRange => ErrorKind::OutOfRange,
        }
    }
}

} // verus!
