//! The failures that end a download session.

use vstd::prelude::*;
use crate::format::MediaKind;

verus! {

/// Why a session could not deliver a file.
#[derive(Clone, Copy, Debug, PartialEq, Eq, Structural)]
pub enum DownloadError {
    /// The downloader is not on the executable search path.
    ToolNotFound,
    /// The listing of formats could not be run or read.
    ListFormatsFailed,
    /// The listing offers nothing usable for the requested kind of media.
    NoCompatibleFormat(MediaKind),
    /// The download failed, and the single retry after it failed too.
    DownloadFailed(MediaKind),
    /// The output directory could not be created.
    DirectoryCreateFailed,
    /// The user cancelled a prompt.
    UserAborted,
}

/// The sentence that reports `error` to the user.
pub open spec fn message_text(error: DownloadError) -> Seq<char> {
    match error {
        DownloadError::ToolNotFound => "yt-dlp not found"@,
        DownloadError::ListFormatsFailed => "Failed to list formats"@,
        DownloadError::NoCompatibleFormat(MediaKind::Video) => "No suitable MP4 formats found"@,
        DownloadError::NoCompatibleFormat(MediaKind::Audio) => "No audio formats found"@,
        DownloadError::DownloadFailed(MediaKind::Video) =>
            "Download failed after retry. Please try a different format or URL."@,
        DownloadError::DownloadFailed(MediaKind::Audio) =>
            "Audio download failed after retry. Please try a different format or URL."@,
        DownloadError::DirectoryCreateFailed => "Failed to create output directory"@,
        DownloadError::UserAborted => "Cancelled by the user"@,
    }
}

impl DownloadError {
    /// The sentence that reports the error to the user.
    pub fn message(&self) -> (r: String)
        ensures
            r@ == message_text(*self),
    {
        let text: &'static str = match self {
            DownloadError::ToolNotFound => "yt-dlp not found",
            DownloadError::ListFormatsFailed => "Failed to list formats",
            DownloadError::NoCompatibleFormat(MediaKind::Video) => "No suitable MP4 formats found",
            DownloadError::NoCompatibleFormat(MediaKind::Audio) => "No audio formats found",
            DownloadError::DownloadFailed(MediaKind::Video) =>
                "Download failed after retry. Please try a different format or URL.",
            DownloadError::DownloadFailed(MediaKind::Audio) =>
                "Audio download failed after retry. Please try a different format or URL.",
            DownloadError::DirectoryCreateFailed => "Failed to create output directory",
            DownloadError::UserAborted => "Cancelled by the user",
        };
        String::from_str(text)
    }
}

} // verus!
