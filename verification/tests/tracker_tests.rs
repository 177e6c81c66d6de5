use work_to_jira_effort::config::Config;
use work_to_jira_effort::consolidate::consolidate_activities;
use work_to_jira_effort::database::{ActivityTier, PersistenceError};
use work_to_jira_effort::screenpipe::Activity;
use work_to_jira_effort::state::{StateError, TrackingState};
use work_to_jira_effort::time::Timestamp;
use work_to_jira_effort::tracker::{TrackerError, WorkTracker};

fn at(millis: i64) -> Timestamp {
    Timestamp::from_millis(millis)
}

fn tracker() -> WorkTracker {
    WorkTracker::new_at(Config::default(), None, at(1_000_000))
}

fn seen(app: &str, window: &str, secs: u64, when: i64, text: &str) -> Activity {
    Activity {
        timestamp: at(when),
        duration_secs: secs,
        window_title: window.to_string(),
        app_name: app.to_string(),
        description: text.to_string(),
    }
}

fn open_sessions(tracker: &WorkTracker, upto: i64) -> usize {
    let mut open = 0;
    for id in 1..=upto {
        let stats = tracker.database().get_session_stats_at(id, at(0)).unwrap();
        if stats.end_time.is_none() {
            open += 1;
        }
    }
    open
}

#[test]
fn consolidation_merges_within_one_fetch() {
    let units = consolidate_activities(&[
        seen("X", "A", 60, 1, "first"),
        seen("X", "A", 60, 2, "second"),
        seen("Y", "B", 30, 3, "third"),
    ]);
    assert_eq!(units.len(), 2);
    assert_eq!(units[0].app_name, "X");
    assert_eq!(units[0].window_title, "A");
    assert_eq!(units[0].duration_secs, 120);
    assert_eq!(units[0].timestamp, at(1));
    assert_eq!(units[0].description, "first");
    assert_eq!(units[1].app_name, "Y");
    assert_eq!(units[1].window_title, "B");
    assert_eq!(units[1].duration_secs, 30);
    assert_eq!(units[1].timestamp, at(3));
}

#[test]
fn consolidation_groups_by_the_pair() {
    let units = consolidate_activities(&[
        seen("a", "b:c", 10, 1, ""),
        seen("a:b", "c", 20, 2, ""),
        seen("a", "b", 30, 3, ""),
        seen("a:b", "c", 40, 4, ""),
        seen("a", "b:c", 50, 5, ""),
    ]);
    let found: Vec<(&str, &str, u64)> = units
        .iter()
        .map(|u| (u.app_name.as_str(), u.window_title.as_str(), u.duration_secs))
        .collect();
    assert_eq!(found, vec![("a", "b:c", 60), ("a:b", "c", 60), ("a", "b", 30)]);
}

#[test]
fn consolidation_edge_cases() {
    assert!(consolidate_activities(&[]).is_empty());
    let one = consolidate_activities(&[seen("X", "A", 60, 1, "t")]);
    assert_eq!(one.len(), 1);
    assert_eq!(one[0].duration_secs, 60);
    let capped = consolidate_activities(&[
        seen("X", "A", u64::MAX, 1, ""),
        seen("X", "A", 5, 2, ""),
        seen("X", "A", 7, 3, ""),
    ]);
    assert_eq!(capped.len(), 1);
    assert_eq!(capped[0].duration_secs, u64::MAX);
}

#[test]
fn new_tracker_is_stopped() {
    let tracker = tracker();
    assert_eq!(tracker.state_manager().current_state(), TrackingState::Stopped);
    assert_eq!(tracker.last_sync(), at(700_000));
    assert_eq!(tracker.last_llm_analysis(), at(1_000_000));
    assert!(tracker.issue_override().is_none());
    assert!(tracker.database().get_active_session().unwrap().is_none());
    assert!(tracker.sync_window().is_none());
    assert_eq!(tracker.config().tracking.llm_batch_interval_secs, 10_800);
    let by_clock = WorkTracker::new(Config::default(), Some("PROJ-1".to_string()));
    assert_eq!(by_clock.issue_override(), Some(&"PROJ-1".to_string()));
    assert_eq!(
        by_clock.last_sync(),
        at(by_clock.last_llm_analysis().millis - 300_000)
    );
}

#[test]
fn start_opens_exactly_one_session() {
    let mut tracker = tracker();
    assert_eq!(tracker.start_tracking_at(at(2_000_000)), Ok(()));
    let active = tracker.database().get_active_session().unwrap().unwrap();
    assert_eq!(active.id, 1);
    assert_eq!(active.start_time, at(2_000_000));
    assert_eq!(active.end_time, None);
    assert_eq!(tracker.state_manager().current_session().unwrap().id, 1);
    assert_eq!(open_sessions(&tracker, 1), 1);

    // A second start is refused and opens nothing.
    assert_eq!(
        tracker.start_tracking_at(at(2_000_500)),
        Err(TrackerError::State(StateError::AlreadyTracking))
    );
    assert!(tracker.database().get_session_stats_at(2, at(0)).is_err());
    assert_eq!(open_sessions(&tracker, 1), 1);
}

#[test]
fn never_two_open_sessions_or_breaks() {
    let mut tracker = tracker();
    let mut now = 2_000_000;
    let mut sessions = 0;
    for round in 0..6 {
        now += 1_000;
        if tracker.start_tracking_at(at(now)).is_ok() && round % 2 == 0 {
            sessions += 1;
        }
        now += 1_000;
        let _ = tracker.pause_tracking_at(at(now));
        now += 1_000;
        let _ = tracker.pause_tracking_at(at(now));
        if round % 2 == 0 {
            now += 1_000;
            let _ = tracker.resume_tracking_at(at(now));
            now += 1_000;
            let _ = tracker.start_tracking_at(at(now));
        }
        assert!(open_sessions(&tracker, sessions) <= 1);
        if round % 2 == 1 {
            now += 1_000;
            let _ = tracker.stop_tracking_at(at(now));
            assert_eq!(open_sessions(&tracker, sessions), 0);
            // After a stop no break is open: break time stands still.
            for id in 1..=sessions {
                let early = tracker.database().get_session_break_time_at(id, at(now)).unwrap();
                let late =
                    tracker.database().get_session_break_time_at(id, at(now + 9_000_000)).unwrap();
                assert_eq!(early, late);
            }
        }
    }
    assert_eq!(sessions, 3);
}

#[test]
fn pause_and_resume_open_and_close_a_break() {
    let mut tracker = tracker();
    assert_eq!(
        tracker.pause_tracking_at(at(1)),
        Err(TrackerError::State(StateError::NotTracking))
    );
    assert_eq!(
        tracker.resume_tracking_at(at(1)),
        Err(TrackerError::State(StateError::NotInSession))
    );
    tracker.start_tracking_at(at(2_000_000)).unwrap();
    assert_eq!(
        tracker.resume_tracking_at(at(2_000_001)),
        Err(TrackerError::State(StateError::AlreadyTracking))
    );
    tracker.pause_tracking_at(at(2_010_000)).unwrap();
    assert_eq!(tracker.state_manager().current_state(), TrackingState::Paused);
    assert_eq!(
        tracker.pause_tracking_at(at(2_011_000)),
        Err(TrackerError::State(StateError::AlreadyPaused))
    );
    assert!(tracker.sync_window().is_none());
    assert_eq!(tracker.database().get_session_break_time_at(1, at(2_030_000)), Ok(20));
    tracker.resume_tracking_at(at(2_040_000)).unwrap();
    assert_eq!(tracker.state_manager().current_state(), TrackingState::Tracking);
    assert!(tracker.state_manager().current_break().is_none());
    // The break is closed in the store: its time no longer grows.
    assert_eq!(tracker.database().get_session_break_time_at(1, at(2_040_000)), Ok(30));
    assert_eq!(tracker.database().get_session_break_time_at(1, at(9_000_000)), Ok(30));
}

#[test]
fn start_while_paused_resumes() {
    let mut tracker = tracker();
    tracker.start_tracking_at(at(2_000_000)).unwrap();
    tracker.pause_tracking_at(at(2_010_000)).unwrap();
    tracker.start_tracking_at(at(2_020_000)).unwrap();
    assert_eq!(tracker.state_manager().current_state(), TrackingState::Tracking);
    assert_eq!(tracker.state_manager().current_session().unwrap().id, 1);
    assert!(tracker.database().get_session_stats_at(2, at(0)).is_err());
    assert_eq!(tracker.database().get_session_break_time_at(1, at(9_000_000)), Ok(10));
}

#[test]
fn stop_closes_session_and_open_break() {
    let mut tracker = tracker();
    assert_eq!(
        tracker.stop_tracking_at(at(1)),
        Err(TrackerError::State(StateError::NotTracking))
    );
    tracker.start_tracking_at(at(2_000_000)).unwrap();
    tracker.pause_tracking_at(at(2_010_000)).unwrap();
    // The default settings ask for an export on stop.
    assert_eq!(tracker.stop_tracking_at(at(2_050_000)), Ok(Some(1)));
    assert_eq!(tracker.state_manager().current_state(), TrackingState::Stopped);
    assert!(tracker.database().get_active_session().unwrap().is_none());
    let stats = tracker.database().get_session_stats_at(1, at(9_000_000)).unwrap();
    assert_eq!(stats.end_time, Some(at(2_050_000)));
    assert_eq!(stats.total_duration_secs, 50);
    assert_eq!(stats.break_duration_secs, 40);
    assert_eq!(
        tracker.state_manager().current_session().unwrap().end_time,
        Some(at(2_050_000))
    );
    // A new start opens the next session.
    tracker.start_tracking_at(at(2_060_000)).unwrap();
    assert_eq!(tracker.database().get_active_session().unwrap().unwrap().id, 2);
}

#[test]
fn stop_without_export_on_stop() {
    let mut config = Config::default();
    config.tracking.analyze_on_stop = false;
    let mut tracker = WorkTracker::new_at(config, None, at(0));
    tracker.start_tracking_at(at(1_000)).unwrap();
    assert_eq!(tracker.stop_tracking_at(at(2_000)), Ok(None));
}

#[test]
fn transitions_by_the_clock() {
    let mut tracker = WorkTracker::new(Config::default(), None);
    assert!(tracker.start_tracking().is_ok());
    assert!(tracker.pause_tracking().is_ok());
    assert!(tracker.resume_tracking().is_ok());
    assert!(tracker.sync(1, &[seen("X", "A", 60, 1, "")]).is_ok());
    assert_eq!(tracker.stop_tracking(), Ok(Some(1)));
    assert!(tracker.stop_tracking().is_err());
    assert!(tracker.export_due().is_none());
}

#[test]
fn sync_stores_consolidated_units_and_moves_the_cursor() {
    let mut config = Config::default();
    config.tracking.micro_activity_threshold_secs = 100;
    let mut tracker = WorkTracker::new_at(config, None, at(1_000_000));
    tracker.start_tracking_at(at(1_100_000)).unwrap();
    assert_eq!(tracker.sync_window(), Some((1, at(700_000))));

    let stored = tracker.sync_at(
        1,
        &[
            seen("X", "A", 60, 5, "one"),
            seen("Y", "B", 30, 6, "two"),
            seen("X", "A", 60, 7, "three"),
        ],
        at(1_200_000),
    );
    assert_eq!(stored, Ok(2));
    assert_eq!(tracker.last_sync(), at(1_200_000));
    assert_eq!(tracker.sync_window(), Some((1, at(1_200_000))));

    let units = tracker.database().get_session_activities(1, None).unwrap();
    assert_eq!(units.len(), 2);
    assert_eq!(units[0].window_title, "A");
    assert_eq!(units[0].duration_secs, 120);
    assert_eq!(units[0].tier, ActivityTier::Billable);
    assert_eq!(units[0].description, "one");
    assert!(!units[0].logged_to_jira);
    assert_eq!(units[1].duration_secs, 30);
    assert_eq!(units[1].tier, ActivityTier::Micro);

    // Merging never reaches across fetches.
    assert_eq!(tracker.sync_at(1, &[seen("X", "A", 60, 8, "four")], at(1_300_000)), Ok(1));
    assert_eq!(tracker.database().get_session_activities(1, None).unwrap().len(), 3);

    // An empty fetch still moves the cursor.
    assert_eq!(tracker.sync_at(1, &[], at(1_400_000)), Ok(0));
    assert_eq!(tracker.last_sync(), at(1_400_000));
}

#[test]
fn export_is_due_after_the_interval() {
    let mut config = Config::default();
    config.tracking.llm_batch_interval_secs = 100;
    let mut tracker = WorkTracker::new_at(config, None, at(1_000_000));
    // No session: nothing is due, however late.
    assert_eq!(tracker.export_due_at(at(9_000_000)), None);
    tracker.start_tracking_at(at(1_000_000)).unwrap();
    assert_eq!(tracker.export_due_at(at(1_099_999)), None);
    assert_eq!(tracker.export_due_at(at(1_100_000)), Some(1));
    tracker.export_finished_at(at(1_100_000));
    assert_eq!(tracker.export_due_at(at(1_150_000)), None);
    assert_eq!(tracker.export_due_at(at(1_200_000)), Some(1));
    // The session stays the machine's own after a stop.
    tracker.stop_tracking_at(at(1_200_000)).unwrap();
    assert_eq!(tracker.export_due_at(at(1_300_000)), Some(1));
}

#[test]
fn pinned_issue_key_is_kept() {
    let mut tracker = tracker();
    tracker.set_issue_override(Some("PROJ-5".to_string()));
    assert_eq!(tracker.issue_override(), Some(&"PROJ-5".to_string()));
    tracker.set_issue_override(None);
    assert!(tracker.issue_override().is_none());
}

#[test]
fn tracker_error_messages() {
    assert_eq!(TrackerError::State(StateError::NotTracking).message(), "Not tracking");
    assert_eq!(
        TrackerError::Persistence(PersistenceError::StoreFull).message(),
        "Store is full"
    );
}
