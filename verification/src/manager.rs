//! Single-job download manager.
//!
//! Enforces the one-active-download constraint and drives the lifecycle
//! state machine for one job at a time. Killing the external process is the
//! caller's concern; the manager only records state.

use vstd::prelude::*;

use crate::config::{DownloadConfig, DownloadResult};
use crate::error::{download_error_message, DownloadError};
use crate::progress::ProgressEvent;
use crate::state::{is_active_state, transition_allowed, transition_result, DownloadState};

verus! {

use vstd::string::StringExecFns;

/// Information about the job currently managed.
#[derive(Debug)]
pub struct ActiveDownload {
    /// The job configuration.
    pub config: DownloadConfig,
    /// Path of the output file, set on completion.
    pub output_path: Option<String>,
    /// Current retry attempt (0 = first attempt).
    pub retry_attempt: u32,
    /// Last error that caused a retry.
    pub last_retry_error: Option<String>,
}

/// Manager enforcing a single active download and legal state transitions.
#[derive(Debug)]
pub struct DownloadManager {
    /// Current lifecycle state.
    pub state: DownloadState,
    /// The managed job, when one was started.
    pub active_download: Option<ActiveDownload>,
    /// Last error message, for display.
    pub last_error: Option<String>,
    /// Last progress event received.
    pub last_progress: Option<ProgressEvent>,
}

impl DownloadManager {
    /// A fresh manager sits idle with nothing recorded.
    pub fn new() -> (r: Self)
        ensures
            r.state == DownloadState::Idle,
            r.active_download is None,
            r.last_error is None,
            r.last_progress is None,
    {
        DownloadManager {
            state: DownloadState::Idle,
            active_download: None,
            last_error: None,
            last_progress: None,
        }
    }

    /// The current lifecycle state.
    pub fn get_state(&self) -> (r: DownloadState)
        ensures
            r == self.state,
    {
        self.state
    }

    /// Whether a download is currently underway.
    pub fn is_active(&self) -> (r: bool)
        ensures
            r == is_active_state(self.state),
    {
        self.state.is_active()
    }

    /// Attempt a state transition; an illegal one leaves everything
    /// unchanged and reports the current state.
    pub fn transition_to(&mut self, target: DownloadState) -> (r: Result<
        DownloadState,
        DownloadState,
    >)
        ensures
            r == transition_result(old(self).state, target),
            transition_allowed(old(self).state, target) ==> final(self).state == target,
            !transition_allowed(old(self).state, target) ==> *final(self) == *old(self),
            final(self).active_download == old(self).active_download,
            final(self).last_error == old(self).last_error,
            final(self).last_progress == old(self).last_progress,
    {
        match self.state.transition_to(target) {
            Ok(new_state) => {
                self.state = new_state;
                Ok(new_state)
            },
            Err(current) => Err(current),
        }
    }

    /// Start a new job. While a download is active this fails with the
    /// already-downloading error and changes nothing — in particular the
    /// running job's configuration is untouched.
    pub fn start_download(&mut self, config: DownloadConfig) -> (r: Result<(), DownloadError>)
        ensures
            is_active_state(old(self).state) ==> (r matches Err(
                DownloadError::AlreadyDownloading,
            )) && *final(self) == *old(self),
            !is_active_state(old(self).state) && !transition_allowed(
                old(self).state,
                DownloadState::Starting,
            ) ==> (r matches Err(DownloadError::AlreadyDownloading)) && *final(self) == *old(self),
            !is_active_state(old(self).state) && transition_allowed(
                old(self).state,
                DownloadState::Starting,
            ) ==> r is Ok && final(self).state == DownloadState::Starting && (
            final(self).active_download matches Some(a) && a.config == config && a.output_path
                is None && a.retry_attempt == 0 && a.last_retry_error is None) && final(self).last_error is None && final(self).last_progress is None,
    {
        if self.is_active() {
            return Err(DownloadError::AlreadyDownloading);
        }
        match self.transition_to(DownloadState::Starting) {
            Ok(_) => {},
            Err(_) => {
                return Err(DownloadError::AlreadyDownloading);
            },
        }
        self.active_download = Some(
            ActiveDownload { config, output_path: None, retry_attempt: 0, last_retry_error: None },
        );
        self.last_error = None;
        self.last_progress = None;
        Ok(())
    }

    /// Record the latest progress event.
    pub fn update_progress(&mut self, event: ProgressEvent)
        ensures
            final(self).last_progress matches Some(e) && e == event,
            final(self).state == old(self).state,
            final(self).active_download == old(self).active_download,
            final(self).last_error == old(self).last_error,
    {
        self.last_progress = Some(event);
    }

    /// The latest progress event.
    pub fn get_progress(&self) -> (r: Option<ProgressEvent>)
        ensures
            r == self.last_progress,
    {
        match &self.last_progress {
            Some(e) => Some(e.clone()),
            None => None,
        }
    }

    /// Mark the download completed: legal only from a state that may move to
    /// `Completed`; otherwise nothing changes and an error is returned.
    pub fn complete(&mut self, file_path: String) -> (r: Result<DownloadResult, DownloadError>)
        ensures
            !transition_allowed(old(self).state, DownloadState::Completed) ==> (
            r matches Err(DownloadError::DownloadFailed(m)) && m@ == "Invalid state transition"@)
                && *final(self) == *old(self),
            transition_allowed(old(self).state, DownloadState::Completed) ==> (
            r matches Ok(res) && res.success && (res.file_path matches Some(p) && p == file_path)
                && res.error is None) && final(self).state == DownloadState::Completed && (match (
                old(self).active_download,
                final(self).active_download,
            ) {
                (Some(a), Some(b)) => b.config == a.config && (b.output_path matches Some(p) && p
                    == file_path) && b.retry_attempt == a.retry_attempt,
                (None, None) => true,
                _ => false,
            }) && final(self).last_error == old(self).last_error && final(self).last_progress
                == old(self).last_progress,
    {
        match self.transition_to(DownloadState::Completed) {
            Ok(_) => {},
            Err(_) => {
                return Err(
                    DownloadError::DownloadFailed(String::from_str("Invalid state transition")),
                );
            },
        }
        let path_for_result = file_path.clone();
        let current = self.active_download.take();
        match current {
            Some(a) => {
                self.active_download = Some(
                    ActiveDownload {
                        config: a.config,
                        output_path: Some(file_path),
                        retry_attempt: a.retry_attempt,
                        last_retry_error: a.last_retry_error,
                    },
                );
            },
            None => {},
        }
        Ok(DownloadResult { success: true, file_path: Some(path_for_result), error: None })
    }

    /// Mark the download failed: records the error message; the state moves
    /// to `Failed` when that transition is legal and stays put otherwise.
    /// The result always carries a non-empty error message.
    pub fn fail(&mut self, error: DownloadError) -> (r: DownloadResult)
        ensures
            final(self).state == (if transition_allowed(old(self).state, DownloadState::Failed) {
                DownloadState::Failed
            } else {
                old(self).state
            }),
            final(self).last_error matches Some(m) && m@ == download_error_message(error),
            final(self).active_download == old(self).active_download,
            final(self).last_progress == old(self).last_progress,
            !r.success,
            r.file_path is None,
            r.error matches Some(m) && m@ == download_error_message(error),
    {
        let message = error.message();
        let message2 = message.clone();
        match self.transition_to(DownloadState::Failed) {
            Ok(_) => {},
            Err(_) => {},
        }
        self.last_error = Some(message);
        DownloadResult { success: false, file_path: None, error: Some(message2) }
    }

    /// Request cancellation. Only a downloading or merging job can be
    /// cancelled; the caller must kill the external process itself.
    pub fn cancel(&mut self) -> (r: Result<(), DownloadError>)
        ensures
            (!is_active_state(old(self).state) || old(self).state == DownloadState::Cancelling)
                ==> (r matches Err(DownloadError::GenericError(m)) && m@
                == "No active download to cancel"@) && *final(self) == *old(self),
            (old(self).state == DownloadState::Downloading || old(self).state
                == DownloadState::Merging) ==> r is Ok && final(self).state
                == DownloadState::Cancelled && final(self).active_download == old(self).active_download && final(self).last_error == old(self).last_error,
            (old(self).state == DownloadState::Analyzing || old(self).state
                == DownloadState::Starting) ==> (r matches Err(DownloadError::GenericError(m)) && m@
                == "Cannot cancel in current state"@) && *final(self) == *old(self),
    {
        let current = self.get_state();
        let cancelling = match current {
            DownloadState::Cancelling => true,
            _ => false,
        };
        if !self.is_active() || cancelling {
            return Err(DownloadError::GenericError(String::from_str(
                "No active download to cancel",
            )));
        }
        match self.transition_to(DownloadState::Cancelling) {
            Ok(_) => {},
            Err(_) => {
                return Err(DownloadError::GenericError(String::from_str(
                    "Cannot cancel in current state",
                )));
            },
        }
        match self.transition_to(DownloadState::Cancelled) {
            Ok(_) => {},
            Err(_) => {
                return Err(DownloadError::GenericError(String::from_str(
                    "Failed to complete cancellation",
                )));
            },
        }
        Ok(())
    }

    /// Reset to idle, allowed only from a terminal state; clears the job,
    /// error and progress records.
    pub fn reset(&mut self) -> (r: Result<(), DownloadError>)
        ensures
            is_active_state(old(self).state) ==> (r matches Err(
                DownloadError::AlreadyDownloading,
            )) && *final(self) == *old(self),
            !is_active_state(old(self).state) && !transition_allowed(
                old(self).state,
                DownloadState::Idle,
            ) ==> (r matches Err(DownloadError::GenericError(m)) && m@
                == "Cannot reset in current state"@) && *final(self) == *old(self),
            !is_active_state(old(self).state) && transition_allowed(
                old(self).state,
                DownloadState::Idle,
            ) ==> r is Ok && final(self).state == DownloadState::Idle && final(self).active_download is None && final(self).last_error is None && final(self).last_progress is None,
    {
        if self.is_active() {
            return Err(DownloadError::AlreadyDownloading);
        }
        match self.transition_to(DownloadState::Idle) {
            Ok(_) => {},
            Err(_) => {
                return Err(DownloadError::GenericError(String::from_str(
                    "Cannot reset in current state",
                )));
            },
        }
        self.active_download = None;
        self.last_error = None;
        self.last_progress = None;
        Ok(())
    }

    /// The configuration of the managed job, when one exists.
    pub fn get_active_download(&self) -> (r: Option<DownloadConfig>)
        ensures
            match (r, self.active_download) {
                (Some(c), Some(a)) => c == a.config,
                (None, None) => true,
                _ => false,
            },
    {
        match &self.active_download {
            Some(a) => Some(a.config.clone()),
            None => None,
        }
    }

    /// The last recorded error message.
    pub fn get_last_error(&self) -> (r: Option<String>)
        ensures
            r == self.last_error,
    {
        match &self.last_error {
            Some(m) => Some(m.clone()),
            None => None,
        }
    }

    /// The current retry attempt, zero when no job is managed.
    pub fn get_retry_attempt(&self) -> (r: u32)
        ensures
            r == match self.active_download {
                Some(a) => a.retry_attempt,
                None => 0u32,
            },
    {
        match &self.active_download {
            Some(a) => a.retry_attempt,
            None => 0,
        }
    }

    /// Count a retry attempt and record the error that caused it.
    pub fn increment_retry(&mut self, error: &DownloadError)
        requires
            old(self).active_download matches Some(a) ==> a.retry_attempt < u32::MAX,
        ensures
            final(self).state == old(self).state,
            final(self).last_error == old(self).last_error,
            final(self).last_progress == old(self).last_progress,
            old(self).active_download is None ==> final(self).active_download is None,
            match (old(self).active_download, final(self).active_download) {
                (Some(a), Some(b)) => b.config == a.config && b.output_path == a.output_path
                    && b.retry_attempt == a.retry_attempt + 1 && (b.last_retry_error matches Some(m)
                    && m@ == download_error_message(*error)),
                (None, None) => true,
                _ => false,
            },
    {
        let message = error.message();
        let current = self.active_download.take();
        match current {
            Some(a) => {
                self.active_download = Some(
                    ActiveDownload {
                        config: a.config,
                        output_path: a.output_path,
                        retry_attempt: a.retry_attempt + 1,
                        last_retry_error: Some(message),
                    },
                );
            },
            None => {},
        }
    }

    /// Prepare a retry: fall back to idle when legal, then move to
    /// `Starting` and clear the recorded progress.
    pub fn prepare_retry(&mut self) -> (r: Result<(), DownloadError>)
        ensures
            ({
                let mid = if transition_allowed(old(self).state, DownloadState::Idle) {
                    DownloadState::Idle
                } else {
                    old(self).state
                };
                if transition_allowed(mid, DownloadState::Starting) {
                    r is Ok && final(self).state == DownloadState::Starting && final(self).last_progress is None && final(self).active_download == old(self).active_download && final(self).last_error == old(self).last_error
                } else {
                    (r matches Err(DownloadError::GenericError(m)) && m@
                        == "Cannot prepare for retry"@) && final(self).state == mid && final(self).active_download == old(self).active_download && final(self).last_error == old(self).last_error && final(self).last_progress == old(self).last_progress
                }
            }),
    {
        match self.transition_to(DownloadState::Idle) {
            Ok(_) => {},
            Err(_) => {},
        }
        match self.transition_to(DownloadState::Starting) {
            Ok(_) => {},
            Err(_) => {
                return Err(
                    DownloadError::GenericError(String::from_str("Cannot prepare for retry")),
                );
            },
        }
        self.last_progress = None;
        Ok(())
    }

    /// Move to the downloading state (the external process started).
    pub fn start_downloading(&mut self) -> (r: Result<(), DownloadError>)
        ensures
            transition_allowed(old(self).state, DownloadState::Downloading) ==> r is Ok && final(self).state == DownloadState::Downloading,
            !transition_allowed(old(self).state, DownloadState::Downloading) ==> (
            r matches Err(DownloadError::GenericError(m)) && m@ == "Invalid state transition"@)
                && final(self).state == old(self).state,
            final(self).active_download == old(self).active_download,
            final(self).last_error == old(self).last_error,
            final(self).last_progress == old(self).last_progress,
    {
        match self.transition_to(DownloadState::Downloading) {
            Ok(_) => Ok(()),
            Err(_) => Err(
                DownloadError::GenericError(String::from_str("Invalid state transition")),
            ),
        }
    }

    /// Move to the merging state.
    pub fn start_merging(&mut self) -> (r: Result<(), DownloadError>)
        ensures
            transition_allowed(old(self).state, DownloadState::Merging) ==> r is Ok && final(self).state == DownloadState::Merging,
            !transition_allowed(old(self).state, DownloadState::Merging) ==> (
            r matches Err(DownloadError::GenericError(m)) && m@ == "Invalid state transition"@)
                && final(self).state == old(self).state,
            final(self).active_download == old(self).active_download,
            final(self).last_error == old(self).last_error,
            final(self).last_progress == old(self).last_progress,
    {
        match self.transition_to(DownloadState::Merging) {
            Ok(_) => Ok(()),
            Err(_) => Err(
                DownloadError::GenericError(String::from_str("Invalid state transition")),
            ),
        }
    }
}

impl Default for DownloadManager {
    /// A fresh manager, idle.
    fn default() -> (r: Self)
        ensures
            r.state == DownloadState::Idle,
            r.active_download is None,
            r.last_error is None,
            r.last_progress is None,
    {
        DownloadManager::new()
    }
}

} // verus!
