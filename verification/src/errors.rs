//! The error taxonomy of the library: validation rejections, a missing
//! external tool, and per-invocation metadata, download and process failures.

use vstd::prelude::*;

verus! {

#[derive(Clone, Debug)]
pub enum DownloadError {
    /// The submitted URL failed the allow-list check; user-correctable.
    InvalidUrl,
    /// The external downloader executable is missing and could not be installed.
    ToolUnavailable,
    /// Metadata probing failed; non-fatal, the download proceeds untitled.
    MetadataFetchFailed(String),
    /// A per-item terminal failure, carrying the tool's error text.
    DownloadFailed(String),
    /// A stream or exit-status read error; mapped to `DownloadFailed` before
    /// it reaches an item.
    ProcessIoFailed(String),
}

/// Process input/output failures surface as download failures; every other
/// error passes through unchanged.
pub fn normalize_process_error(e: DownloadError) -> (r: DownloadError)
    ensures
        match e {
            DownloadError::ProcessIoFailed(d) => r matches DownloadError::DownloadFailed(d2)
                && d2@ == d@,
            _ => r == e,
        },
{
    match e {
        DownloadError::ProcessIoFailed(d) => DownloadError::DownloadFailed(d),
        other => other,
    }
}

} // verus!
