use work_to_jira_effort::confidence::Confidence;
use work_to_jira_effort::config::Config;
use work_to_jira_effort::database::{
    ActivityTier, AnalysisResult, Database, PersistenceError, StoredActivity,
};
use work_to_jira_effort::state::{BreakPeriod, Session, TrackingState};
use work_to_jira_effort::time::Timestamp;
use work_to_jira_effort::tracker::WorkTracker;

fn at(millis: i64) -> Timestamp {
    Timestamp::from_millis(millis)
}

fn session(id: i64, start: i64, end: Option<i64>) -> Session {
    Session {
        id,
        start_time: at(start),
        end_time: end.map(at),
        state: if end.is_some() { TrackingState::Stopped } else { TrackingState::Tracking },
    }
}

fn brk(id: i64, session_id: i64, start: i64, end: Option<i64>) -> BreakPeriod {
    BreakPeriod { id, session_id, start_time: at(start), end_time: end.map(at) }
}

fn unit(id: i64, session_id: i64, secs: u64, tier: ActivityTier) -> StoredActivity {
    StoredActivity {
        id,
        session_id,
        timestamp: at(id * 1_000),
        duration_secs: secs,
        window_title: format!("unit {}", id),
        app_name: "App".to_string(),
        description: String::new(),
        tier,
        logged_to_jira: id % 2 == 0,
    }
}

fn analysis(id: i64) -> AnalysisResult {
    AnalysisResult {
        id,
        session_id: 1,
        analyzed_at: at(5),
        llm_response: "{}".to_string(),
        confidence: Confidence::from_millionths(800_000),
    }
}

#[test]
fn rows_of_a_store_are_taken_back() {
    let db = Database::from_rows(
        vec![session(1, 0, Some(10)), session(2, 20, None)],
        vec![brk(1, 1, 2, Some(4)), brk(2, 2, 25, None)],
        vec![unit(1, 1, 600, ActivityTier::Billable), unit(2, 2, 599, ActivityTier::Micro)],
        vec![analysis(1)],
        600,
    )
    .unwrap();
    assert_eq!(db.session_rows().len(), 2);
    assert_eq!(db.session_rows()[1].id, 2);
    assert_eq!(db.break_rows().len(), 2);
    assert_eq!(db.break_rows()[0].end_time, Some(at(4)));
    assert_eq!(db.activity_rows().len(), 2);
    assert_eq!(db.activity_rows()[1].window_title, "unit 2");
    assert!(db.activity_rows()[1].logged_to_jira);
    assert_eq!(db.analysis_rows().len(), 1);
    assert_eq!(db.analysis_rows()[0].confidence, Confidence::from_millionths(800_000));
    assert_eq!(db.micro_threshold_secs(), 600);
    assert_eq!(db.get_active_session().unwrap().unwrap().id, 2);
    let empty = Database::from_rows(Vec::new(), Vec::new(), Vec::new(), Vec::new(), 60).unwrap();
    assert!(empty.session_rows().is_empty());
    assert_eq!(empty.micro_threshold_secs(), 60);
}

#[test]
fn rows_that_are_not_those_of_a_store_are_refused() {
    let refused = |sessions: Vec<Session>,
                   breaks: Vec<BreakPeriod>,
                   units: Vec<StoredActivity>,
                   analyses: Vec<AnalysisResult>| {
        match Database::from_rows(sessions, breaks, units, analyses, 600) {
            Ok(_) => panic!("rows were taken"),
            Err(e) => assert_eq!(e, PersistenceError::CorruptRows),
        }
    };
    refused(vec![session(2, 0, None)], Vec::new(), Vec::new(), Vec::new());
    refused(vec![session(1, 0, None), session(1, 0, None)], Vec::new(), Vec::new(), Vec::new());
    refused(vec![session(0, 0, None)], Vec::new(), Vec::new(), Vec::new());
    refused(Vec::new(), vec![brk(1, 1, 0, None), brk(3, 1, 0, None)], Vec::new(), Vec::new());
    refused(Vec::new(), Vec::new(), vec![unit(1, 1, 600, ActivityTier::Micro)], Vec::new());
    refused(Vec::new(), Vec::new(), vec![unit(1, 1, 599, ActivityTier::Billable)], Vec::new());
    refused(Vec::new(), Vec::new(), vec![unit(5, 1, 599, ActivityTier::Micro)], Vec::new());
    refused(Vec::new(), Vec::new(), Vec::new(), vec![analysis(2)]);
    assert_eq!(PersistenceError::CorruptRows.message(), "Stored rows are corrupt");
}

#[test]
fn open_rows_are_closed() {
    let mut db = Database::from_rows(
        vec![session(1, 0, Some(10)), session(2, 20, None), session(3, 30, None)],
        vec![brk(1, 1, 2, Some(4)), brk(2, 2, 25, None)],
        vec![unit(1, 2, 700, ActivityTier::Billable)],
        Vec::new(),
        600,
    )
    .unwrap();
    db.close_open_at(at(100));
    let sessions = db.session_rows();
    assert_eq!(sessions[0].end_time, Some(at(10)));
    assert_eq!(sessions[0].state, TrackingState::Stopped);
    assert_eq!(sessions[1].end_time, Some(at(100)));
    assert_eq!(sessions[1].state, TrackingState::Stopped);
    assert_eq!(sessions[1].start_time, at(20));
    assert_eq!(sessions[2].end_time, Some(at(100)));
    let breaks = db.break_rows();
    assert_eq!(breaks[0].end_time, Some(at(4)));
    assert_eq!(breaks[1].end_time, Some(at(100)));
    assert_eq!(breaks[1].session_id, 2);
    assert!(db.get_active_session().unwrap().is_none());
    assert_eq!(db.activity_rows().len(), 1);
    // A second closing changes nothing.
    db.close_open_at(at(900));
    assert_eq!(db.session_rows()[1].end_time, Some(at(100)));
}

#[test]
fn tracker_goes_on_from_stored_rows() {
    let db = Database::from_rows(
        vec![session(1, 0, Some(10)), session(2, 20, None)],
        vec![brk(1, 2, 25, None)],
        vec![unit(1, 2, 700, ActivityTier::Billable)],
        Vec::new(),
        600,
    )
    .unwrap();
    let mut tracker =
        WorkTracker::restore_at(Config::default(), Some("PROJ-1".to_string()), db, at(50_000));
    assert_eq!(tracker.state_manager().current_state(), TrackingState::Stopped);
    assert!(tracker.state_manager().current_session().is_none());
    assert!(tracker.database().get_active_session().unwrap().is_none());
    assert_eq!(tracker.database().session_rows()[1].end_time, Some(at(50_000)));
    assert_eq!(tracker.database().break_rows()[0].end_time, Some(at(50_000)));
    assert_eq!(tracker.last_llm_analysis(), at(50_000));
    assert_eq!(tracker.last_sync(), at(-250_000));
    assert_eq!(tracker.issue_override(), Some(&"PROJ-1".to_string()));

    // The next session gets the next id, and is the only open one.
    tracker.start_tracking_at(at(60_000)).unwrap();
    let active = tracker.database().get_active_session().unwrap().unwrap();
    assert_eq!(active.id, 3);
    let open = tracker.database().session_rows().iter().filter(|s| s.end_time.is_none()).count();
    assert_eq!(open, 1);
}
