//! What can go wrong while one video is downloaded.

use vstd::prelude::*;
use vstd::std_specs::convert::FromSpecImpl;

verus! {

/// The error with which `chrono` refuses a date text.
#[verifier::external_type_specification]
#[verifier::external_body]
pub struct ExDateParseError(chrono::ParseError);

#[derive(Debug, PartialEq, Eq)]
pub enum DownloadError {
    MalformedPlaylist(MalformedPlaylistError),
    /// The transport gave up after its retries; holds what it reported.
    Backoff(String),
    /// The store failed; holds what it reported.
    Database(String),
    /// A request could not be built or sent; holds what the transport reported.
    Reqwest(String),
    /// The access token reply was no JSON of the expected shape.
    AccessTokenJsonParse(String),
    /// The server did not provide an access token.
    AccessTokenEmpty,
    File(DownloadFileError),
    /// The configuration could not be loaded.
    LoadConfig(String),
}

#[derive(Debug, PartialEq, Eq)]
pub enum MalformedPlaylistError {
    /// The playlist names no segment.
    Empty,
    /// The playlist names no quality.
    NoQualities,
    Parse(PlaylistParseError),
    /// The playlist's address holds no `/`.
    InvalidUrl,
}

#[derive(Debug, PartialEq, Eq)]
pub enum PlaylistParseError {
    /// The playlist ends where a line was still owed.
    Eof,
    /// The broadcast time is no date of the expected form.
    InvalidTimeFormat(chrono::ParseError),
}

/// A failure on the file system or while a file is fetched. A variant that
/// names a path holds it; the others hold what the failed operation reported.
#[derive(Debug, Clone, PartialEq, Eq)]
pub enum DownloadFileError {
    TargetFolderIsNotEmpty(String),
    TargetFolderIsNotADirectory(String),
    TargetAlreadyExists(String),
    CouldNotCreateTargetFolder(String),
    FileCreation(String),
    Read(String),
    Write(String),
    Filesystem(String),
    Ffmpeg(String),
    Canonicalization(String),
    DownloadBackoff(String),
    DownloadReqwest(String),
    /// The name of a segment file gives no sequence number; holds the path.
    PartNumber(String),
}

impl From<MalformedPlaylistError> for DownloadError {
    fn from(error: MalformedPlaylistError) -> (r: DownloadError) {
        DownloadError::MalformedPlaylist(error)
    }
}

impl FromSpecImpl<MalformedPlaylistError> for DownloadError {
    open spec fn obeys_from_spec() -> bool {
        true
    }

    open spec fn from_spec(error: MalformedPlaylistError) -> DownloadError {
        DownloadError::MalformedPlaylist(error)
    }
}

impl From<DownloadFileError> for DownloadError {
    fn from(error: DownloadFileError) -> (r: DownloadError) {
        DownloadError::File(error)
    }
}

impl FromSpecImpl<DownloadFileError> for DownloadError {
    open spec fn obeys_from_spec() -> bool {
        true
    }

    open spec fn from_spec(error: DownloadFileError) -> DownloadError {
        DownloadError::File(error)
    }
}

impl From<PlaylistParseError> for MalformedPlaylistError {
    fn from(error: PlaylistParseError) -> (r: MalformedPlaylistError) {
        MalformedPlaylistError::Parse(error)
    }
}

impl FromSpecImpl<PlaylistParseError> for MalformedPlaylistError {
    open spec fn obeys_from_spec() -> bool {
        true
    }

    open spec fn from_spec(error: PlaylistParseError) -> MalformedPlaylistError {
        MalformedPlaylistError::Parse(error)
    }
}

} // verus!
