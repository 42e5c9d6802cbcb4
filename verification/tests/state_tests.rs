//! Tests for the download lifecycle state machine.

use mediagrab::state::DownloadState;

const ALL_STATES: [DownloadState; 9] = [
    DownloadState::Idle,
    DownloadState::Analyzing,
    DownloadState::Starting,
    DownloadState::Downloading,
    DownloadState::Merging,
    DownloadState::Completed,
    DownloadState::Cancelled,
    DownloadState::Cancelling,
    DownloadState::Failed,
];

const VALID_TRANSITIONS: &[(DownloadState, DownloadState)] = &[
    (DownloadState::Idle, DownloadState::Analyzing),
    (DownloadState::Idle, DownloadState::Starting),
    (DownloadState::Analyzing, DownloadState::Idle),
    (DownloadState::Analyzing, DownloadState::Starting),
    (DownloadState::Analyzing, DownloadState::Failed),
    (DownloadState::Starting, DownloadState::Downloading),
    (DownloadState::Starting, DownloadState::Failed),
    (DownloadState::Downloading, DownloadState::Merging),
    (DownloadState::Downloading, DownloadState::Completed),
    (DownloadState::Downloading, DownloadState::Cancelling),
    (DownloadState::Downloading, DownloadState::Failed),
    (DownloadState::Merging, DownloadState::Completed),
    (DownloadState::Merging, DownloadState::Cancelling),
    (DownloadState::Merging, DownloadState::Failed),
    (DownloadState::Cancelling, DownloadState::Cancelled),
    (DownloadState::Completed, DownloadState::Idle),
    (DownloadState::Cancelled, DownloadState::Idle),
    (DownloadState::Failed, DownloadState::Idle),
];

#[test]
fn test_default_state_is_idle() {
    assert_eq!(DownloadState::default(), DownloadState::Idle);
}

#[test]
fn test_cancel_flow() {
    let state = DownloadState::Downloading;
    let state = state.transition_to(DownloadState::Cancelling).unwrap();
    let state = state.transition_to(DownloadState::Cancelled).unwrap();
    let state = state.transition_to(DownloadState::Idle).unwrap();
    assert_eq!(state, DownloadState::Idle);
}

#[test]
fn test_successful_download_flow() {
    let state = DownloadState::Idle;
    let state = state.transition_to(DownloadState::Starting).unwrap();
    let state = state.transition_to(DownloadState::Downloading).unwrap();
    let state = state.transition_to(DownloadState::Merging).unwrap();
    let state = state.transition_to(DownloadState::Completed).unwrap();
    let state = state.transition_to(DownloadState::Idle).unwrap();
    assert_eq!(state, DownloadState::Idle);
}

#[test]
fn test_cannot_start_while_downloading() {
    let state = DownloadState::Downloading;
    let result = state.transition_to(DownloadState::Starting);
    assert_eq!(result, Err(DownloadState::Downloading));
}

#[test]
fn test_transition_matrix_matches_allow_list() {
    for &from in ALL_STATES.iter() {
        for &to in ALL_STATES.iter() {
            let allowed = VALID_TRANSITIONS.contains(&(from, to));
            assert_eq!(from.can_transition_to(to), allowed);
            match from.transition_to(to) {
                Ok(new_state) => {
                    assert!(allowed);
                    assert_eq!(new_state, to);
                }
                Err(unchanged) => {
                    assert!(!allowed);
                    assert_eq!(unchanged, from);
                }
            }
        }
    }
}

#[test]
fn test_active_state_partition() {
    for &s in ALL_STATES.iter() {
        let expected = matches!(
            s,
            DownloadState::Analyzing
                | DownloadState::Starting
                | DownloadState::Downloading
                | DownloadState::Merging
                | DownloadState::Cancelling
        );
        assert_eq!(s.is_active(), expected);
    }
}
