//! Download lifecycle state machine.
//!
//! A download job is always in exactly one of nine states. Transitions are
//! restricted to a fixed allow-list; an illegal transition is rejected and
//! leaves the current state unchanged.

use vstd::prelude::*;

verus! {

/// State of a single download job.
#[derive(Debug, Clone, Copy, PartialEq, Eq, Structural)]
pub enum DownloadState {
    /// No active download.
    Idle,
    /// Fetching media info.
    Analyzing,
    /// Starting the download process.
    Starting,
    /// Actively downloading.
    Downloading,
    /// Merging video and audio streams.
    Merging,
    /// Download completed successfully.
    Completed,
    /// Download was cancelled by the user.
    Cancelled,
    /// Cancellation in progress.
    Cancelling,
    /// Download failed with an error.
    Failed,
}

/// The fixed allow-list of legal transitions.
pub open spec fn transition_allowed(from: DownloadState, to: DownloadState) -> bool {
    match (from, to) {
        (DownloadState::Idle, DownloadState::Analyzing) => true,
        (DownloadState::Idle, DownloadState::Starting) => true,
        (DownloadState::Analyzing, DownloadState::Idle) => true,
        (DownloadState::Analyzing, DownloadState::Starting) => true,
        (DownloadState::Analyzing, DownloadState::Failed) => true,
        (DownloadState::Starting, DownloadState::Downloading) => true,
        (DownloadState::Starting, DownloadState::Failed) => true,
        (DownloadState::Downloading, DownloadState::Merging) => true,
        (DownloadState::Downloading, DownloadState::Completed) => true,
        (DownloadState::Downloading, DownloadState::Cancelling) => true,
        (DownloadState::Downloading, DownloadState::Failed) => true,
        (DownloadState::Merging, DownloadState::Completed) => true,
        (DownloadState::Merging, DownloadState::Cancelling) => true,
        (DownloadState::Merging, DownloadState::Failed) => true,
        (DownloadState::Cancelling, DownloadState::Cancelled) => true,
        (DownloadState::Completed, DownloadState::Idle) => true,
        (DownloadState::Cancelled, DownloadState::Idle) => true,
        (DownloadState::Failed, DownloadState::Idle) => true,
        _ => false,
    }
}

/// What `transition_to` returns: the target state when the transition is
/// legal, otherwise the unchanged source state as an error.
pub open spec fn transition_result(
    from: DownloadState,
    to: DownloadState,
) -> Result<DownloadState, DownloadState> {
    if transition_allowed(from, to) {
        Ok(to)
    } else {
        Err(from)
    }
}

/// A state is active when a job is underway and not at rest in `Idle` or a
/// terminal state.
pub open spec fn is_active_state(s: DownloadState) -> bool {
    match s {
        DownloadState::Analyzing => true,
        DownloadState::Starting => true,
        DownloadState::Downloading => true,
        DownloadState::Merging => true,
        DownloadState::Cancelling => true,
        _ => false,
    }
}

impl DownloadState {
    /// Check whether a transition to the target state is legal.
    pub fn can_transition_to(&self, target: DownloadState) -> (r: bool)
        ensures
            r == transition_allowed(*self, target),
    {
        match (*self, target) {
            (DownloadState::Idle, DownloadState::Analyzing) => true,
            (DownloadState::Idle, DownloadState::Starting) => true,
            (DownloadState::Analyzing, DownloadState::Idle) => true,
            (DownloadState::Analyzing, DownloadState::Starting) => true,
            (DownloadState::Analyzing, DownloadState::Failed) => true,
            (DownloadState::Starting, DownloadState::Downloading) => true,
            (DownloadState::Starting, DownloadState::Failed) => true,
            (DownloadState::Downloading, DownloadState::Merging) => true,
            (DownloadState::Downloading, DownloadState::Completed) => true,
            (DownloadState::Downloading, DownloadState::Cancelling) => true,
            (DownloadState::Downloading, DownloadState::Failed) => true,
            (DownloadState::Merging, DownloadState::Completed) => true,
            (DownloadState::Merging, DownloadState::Cancelling) => true,
            (DownloadState::Merging, DownloadState::Failed) => true,
            (DownloadState::Cancelling, DownloadState::Cancelled) => true,
            (DownloadState::Completed, DownloadState::Idle) => true,
            (DownloadState::Cancelled, DownloadState::Idle) => true,
            (DownloadState::Failed, DownloadState::Idle) => true,
            _ => false,
        }
    }

    /// Attempt a transition. Returns `Ok` with the target state when the
    /// transition is legal, and `Err` with the unchanged current state
    /// otherwise; no third state is ever produced.
    pub fn transition_to(self, target: DownloadState) -> (r: Result<
        DownloadState,
        DownloadState,
    >)
        ensures
            r == transition_result(self, target),
    {
        if self.can_transition_to(target) {
            Ok(target)
        } else {
            Err(self)
        }
    }

    /// Check whether a download is currently active (not idle or terminal).
    pub fn is_active(&self) -> (r: bool)
        ensures
            r == is_active_state(*self),
    {
        match *self {
            DownloadState::Analyzing => true,
            DownloadState::Starting => true,
            DownloadState::Downloading => true,
            DownloadState::Merging => true,
            DownloadState::Cancelling => true,
            _ => false,
        }
    }
}

impl Default for DownloadState {
    /// A fresh job starts idle.
    fn default() -> (r: Self)
        ensures
            r == DownloadState::Idle,
    {
        DownloadState::Idle
    }
}

/// Law: for every pair of states, a transition yields the target exactly when
/// the pair is on the allow-list, and otherwise yields the unchanged source
/// state — never a third state.
pub proof fn lemma_transition_totality(from: DownloadState, to: DownloadState)
    ensures
        transition_allowed(from, to) ==> transition_result(from, to) == Ok::<
            DownloadState,
            DownloadState,
        >(to),
        !transition_allowed(from, to) ==> transition_result(from, to) == Err::<
            DownloadState,
            DownloadState,
        >(from),
        transition_result(from, to) == Ok::<DownloadState, DownloadState>(to)
            || transition_result(from, to) == Err::<DownloadState, DownloadState>(from),
{
}

/// Law: a state is active exactly when it is one of `Analyzing`, `Starting`,
/// `Downloading`, `Merging`, `Cancelling`; all other states are at rest.
pub proof fn lemma_active_partition(s: DownloadState)
    ensures
        is_active_state(s) <==> (s == DownloadState::Analyzing || s == DownloadState::Starting
            || s == DownloadState::Downloading || s == DownloadState::Merging
            || s == DownloadState::Cancelling),
        !is_active_state(s) <==> (s == DownloadState::Idle || s == DownloadState::Completed
            || s == DownloadState::Cancelled || s == DownloadState::Failed),
{
}

} // verus!
