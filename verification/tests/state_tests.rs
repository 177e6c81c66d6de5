use work_to_jira_effort::state::{
    BreakPeriod, Session, StateError, StateManager, TrackingState,
};
use work_to_jira_effort::time::Timestamp;

#[test]
fn test_state_transitions() {
    let mut manager = StateManager::new();

    assert_eq!(manager.current_state(), TrackingState::Stopped);

    // Start tracking
    assert!(manager.start_tracking(1).is_ok());
    assert_eq!(manager.current_state(), TrackingState::Tracking);
    assert!(manager.current_session().is_some());

    // Pause
    assert!(manager.pause_tracking(1).is_ok());
    assert_eq!(manager.current_state(), TrackingState::Paused);
    assert!(manager.current_break().is_some());

    // Resume
    assert!(manager.resume_tracking().is_ok());
    assert_eq!(manager.current_state(), TrackingState::Tracking);
    assert!(manager.current_break().is_none() || !manager.current_break().unwrap().is_active());

    // Stop
    assert!(manager.stop_tracking().is_ok());
    assert_eq!(manager.current_state(), TrackingState::Stopped);
}

#[test]
fn state_names() {
    assert_eq!(TrackingState::Stopped.as_str(), "stopped");
    assert_eq!(TrackingState::Tracking.as_str(), "tracking");
    assert_eq!(TrackingState::Paused.as_str(), "paused");
    assert!(TrackingState::Tracking.is_tracking());
    assert!(!TrackingState::Tracking.is_paused());
    assert!(TrackingState::Paused.is_paused());
    assert!(TrackingState::Stopped.is_stopped());
    assert!(!TrackingState::Paused.is_stopped());
}

#[test]
fn start_while_tracking_is_refused() {
    let mut manager = StateManager::new();
    manager.start_tracking_at(1, Timestamp::from_millis(1_000)).unwrap();
    assert_eq!(
        manager.start_tracking_at(2, Timestamp::from_millis(2_000)),
        Err(StateError::AlreadyTracking)
    );
    assert_eq!(manager.current_session().unwrap().id, 1);
    assert_eq!(manager.current_state(), TrackingState::Tracking);
}

#[test]
fn pause_errors() {
    let mut manager = StateManager::new();
    assert_eq!(
        manager.pause_tracking_at(1, Timestamp::from_millis(0)),
        Err(StateError::NotTracking)
    );
    manager.start_tracking_at(7, Timestamp::from_millis(0)).unwrap();
    manager.pause_tracking_at(3, Timestamp::from_millis(10)).unwrap();
    assert_eq!(
        manager.pause_tracking_at(4, Timestamp::from_millis(20)),
        Err(StateError::AlreadyPaused)
    );
    let brk = manager.current_break().unwrap();
    assert_eq!(brk.id, 3);
    assert_eq!(brk.session_id, 7);
    assert_eq!(brk.start_time, Timestamp::from_millis(10));
    assert!(brk.is_active());
}

#[test]
fn pause_without_session_is_refused() {
    let mut manager = StateManager::new();
    manager.start_tracking_at(1, Timestamp::from_millis(0)).unwrap();
    manager.clear_session();
    assert_eq!(manager.current_state(), TrackingState::Tracking);
    assert_eq!(
        manager.pause_tracking_at(1, Timestamp::from_millis(5)),
        Err(StateError::NoActiveSession)
    );
}

#[test]
fn resume_errors() {
    let mut manager = StateManager::new();
    assert_eq!(manager.resume_tracking(), Err(StateError::NotInSession));
    manager.start_tracking_at(1, Timestamp::from_millis(0)).unwrap();
    assert_eq!(manager.resume_tracking(), Err(StateError::AlreadyTracking));
}

#[test]
fn stop_errors_and_closes() {
    let mut manager = StateManager::new();
    assert_eq!(
        manager.stop_tracking_at(Timestamp::from_millis(0)),
        Err(StateError::NotTracking)
    );
    manager.start_tracking_at(1, Timestamp::from_millis(1_000)).unwrap();
    manager.pause_tracking_at(1, Timestamp::from_millis(2_000)).unwrap();
    manager.stop_tracking_at(Timestamp::from_millis(5_000)).unwrap();
    let session = manager.current_session().unwrap();
    assert_eq!(session.end_time, Some(Timestamp::from_millis(5_000)));
    assert!(!session.is_active());
    let brk = manager.current_break().unwrap();
    assert_eq!(brk.end_time, Some(Timestamp::from_millis(5_000)));
    assert!(!brk.is_active());
}

#[test]
fn start_from_paused_resumes_same_session() {
    let mut manager = StateManager::new();
    manager.start_tracking_at(1, Timestamp::from_millis(0)).unwrap();
    manager.pause_tracking_at(1, Timestamp::from_millis(10)).unwrap();
    manager.start_tracking_at(99, Timestamp::from_millis(20)).unwrap();
    assert_eq!(manager.current_state(), TrackingState::Tracking);
    assert_eq!(manager.current_session().unwrap().id, 1);
    assert!(manager.current_break().is_none());
}

#[test]
fn error_messages() {
    assert_eq!(StateError::AlreadyTracking.message(), "Already tracking");
    assert_eq!(StateError::NoActiveSession.message(), "No active session");
    assert_eq!(StateError::AlreadyPaused.message(), "Already paused");
    assert_eq!(StateError::NotTracking.message(), "Not tracking");
    assert_eq!(StateError::NotInSession.message(), "Not in a session");
}

#[test]
fn session_duration() {
    let session = Session::new_at(4, Timestamp::from_millis(10_000));
    assert_eq!(session.id, 4);
    assert!(session.is_active());
    assert_eq!(session.state, TrackingState::Tracking);
    assert_eq!(session.duration_secs_at(Timestamp::from_millis(12_999)), 2);
    assert_eq!(session.duration_secs_at(Timestamp::from_millis(13_000)), 3);
    assert_eq!(session.duration_secs_at(Timestamp::from_millis(5_000)), 0);
    let closed = Session { end_time: Some(Timestamp::from_millis(70_000)), ..session };
    assert_eq!(closed.duration_secs_at(Timestamp::from_millis(999_000)), 60);
    assert_eq!(closed.duration_secs(), 60);
    assert!(!closed.is_active());
}

#[test]
fn break_duration() {
    let brk = BreakPeriod::new_at(2, 9, Timestamp::from_millis(-1_500));
    assert_eq!(brk.session_id, 9);
    assert!(brk.is_active());
    assert_eq!(brk.duration_secs_at(Timestamp::from_millis(1_500)), 3);
    let closed = BreakPeriod { end_time: Some(Timestamp::from_millis(0)), ..brk };
    assert_eq!(closed.duration_secs(), 1);
}

#[test]
fn sessions_made_now_are_open() {
    let session = Session::new(11);
    assert_eq!(session.id, 11);
    assert!(session.is_active());
    let brk = BreakPeriod::new(5, 11);
    assert_eq!(brk.id, 5);
    assert_eq!(brk.session_id, 11);
    assert!(brk.is_active());
    let manager = StateManager::default();
    assert_eq!(manager.current_state(), TrackingState::Stopped);
    assert!(manager.current_session().is_none());
}
