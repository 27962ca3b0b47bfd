//! Download progress events.
use vstd::prelude::*;

verus! {

/// The kind of a download progress event.
#[derive(Clone, Copy, Debug, PartialEq, Eq, Structural)]
pub enum DownloadProgressEvent {
    Started,
    Advanced,
    PartStarted { part_index: usize, start_byte: u64, end_byte: u64 },
    PartFinished { part_index: usize, start_byte: u64, end_byte: u64 },
    Finished,
}

/// One progress report of a download.
#[derive(Clone, Debug)]
pub struct DownloadProgress {
    pub url: String,
    pub path: String,
    pub downloaded_bytes: u64,
    pub total_bytes: Option<u64>,
    pub event: DownloadProgressEvent,
}

impl DownloadProgress {
    /// A progress report.
    pub fn new(
        url: &str,
        path: &str,
        downloaded_bytes: u64,
        total_bytes: Option<u64>,
        event: DownloadProgressEvent,
    ) -> (p: Self)
        ensures
            p.url@ == url@,
            p.path@ == path@,
            p.downloaded_bytes == downloaded_bytes,
            p.total_bytes == total_bytes,
            p.event == event,
    {
        DownloadProgress {
            url: url.to_owned(),
            path: path.to_owned(),
            downloaded_bytes,
            total_bytes,
            event,
        }
    }
}

/// Adds a received chunk to a byte count, saturating.
pub fn advance_downloaded(downloaded: u64, chunk_len: usize) -> (r: u64)
    ensures
        r == if downloaded + chunk_len > u64::MAX {
            u64::MAX as int
        } else {
            downloaded + chunk_len
        },
{
    let c: u64 = if chunk_len as u128 > u64::MAX as u128 {
        u64::MAX
    } else {
        chunk_len as u64
    };
    downloaded.saturating_add(c)
}

} // verus!
