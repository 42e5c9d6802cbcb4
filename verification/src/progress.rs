//! Progress event type.

use vstd::prelude::*;

verus! {

/// Progress snapshot parsed from one output line of the external downloader.
///
/// The percentage is held in hundredths of a percent (`4520` means `45.20 %`)
/// so that the bound 0..=10000 is part of the type's contract.
#[derive(Debug, PartialEq)]
pub struct ProgressEvent {
    /// Download percentage in hundredths of a percent, always in [0, 10000].
    pub percentage: u32,
    /// Bytes downloaded so far.
    pub downloaded_bytes: u64,
    /// Total bytes, when known.
    pub total_bytes: Option<u64>,
    /// Download speed display string (e.g. "2.5MiB/s").
    pub speed: String,
    /// Estimated seconds remaining, when known.
    pub eta_seconds: Option<u64>,
    /// Current phase: "downloading" or "merging".
    pub status: String,
}

impl ProgressEvent {
    /// A progress event is well formed when its percentage is within bounds.
    pub open spec fn wf(&self) -> bool {
        self.percentage <= 10000
    }
}

impl Clone for ProgressEvent {
    /// Clones are equal to the original.
    fn clone(&self) -> (r: Self)
        ensures
            r == *self,
    {
        ProgressEvent {
            percentage: self.percentage,
            downloaded_bytes: self.downloaded_bytes,
            total_bytes: self.total_bytes,
            speed: self.speed.clone(),
            eta_seconds: self.eta_seconds,
            status: self.status.clone(),
        }
    }
}

} // verus!
