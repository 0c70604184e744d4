//! What can go wrong with a replay file as a whole.

use vstd::prelude::*;

verus! {

/// Why a replay file, or a file that belongs to it, cannot be used.
#[derive(Debug)]
pub enum ErrorKind {
    /// The file ends before a part of it that must be there is complete.
    Incomplete,
    /// The file does not start with the four bytes of a replay. The text
    /// shows the bytes found there.
    InvalidReplayHeader(String),
    /// The metadata is not the text of a JSON document, or the document
    /// does not name the version of the client.
    MetadataDecodeError,
    /// The encrypted part is not a whole number of blocks.
    DecryptError,
    /// The decrypted part is not a compressed stream.
    InflateError,
    /// The packet stream holds a record that declares a length too short to
    /// hold its own clock.
    MalformedRecord,
    /// The replay file has grown beyond what an offset can count.
    FileTooLong,
    /// No data file of that name is there.
    DatafileNotFound { path: String },
}

/// The mathematical model of an error.
pub enum ErrorView {
    Incomplete,
    InvalidReplayHeader(Seq<char>),
    MetadataDecodeError,
    DecryptError,
    InflateError,
    MalformedRecord,
    FileTooLong,
    DatafileNotFound { path: Seq<char> },
}

impl View for ErrorKind {
    type V = ErrorView;

    open spec fn view(&self) -> ErrorView {
        match self {
            ErrorKind::Incomplete => ErrorView::Incomplete,
            ErrorKind::InvalidReplayHeader(found) => ErrorView::InvalidReplayHeader(found@),
            ErrorKind::MetadataDecodeError => ErrorView::MetadataDecodeError,
            ErrorKind::DecryptError => ErrorView::DecryptError,
            ErrorKind::InflateError => ErrorView::InflateError,
            ErrorKind::MalformedRecord => ErrorView::MalformedRecord,
            ErrorKind::FileTooLong => ErrorView::FileTooLong,
            ErrorKind::DatafileNotFound { path } => ErrorView::DatafileNotFound { path: path@ },
        }
    }
}

} // verus!
