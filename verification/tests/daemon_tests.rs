use work_to_jira_effort::config::Config;
use work_to_jira_effort::daemon::{
    clean_issue_key, default_format, export_csv, export_session, handle_command,
    handle_command_at, parse_format, pin_issue_at, status, status_at, ExportBody, ExportError,
    ExportFormat, VERSION,
};
use work_to_jira_effort::database::{ActivityTier, Database, StoredActivity};
use work_to_jira_effort::screenpipe::Activity;
use work_to_jira_effort::state::TrackingState;
use work_to_jira_effort::time::Timestamp;
use work_to_jira_effort::tracker::{Command, WorkTracker};

fn at(millis: i64) -> Timestamp {
    Timestamp::from_millis(millis)
}

fn unit(id: i64, when: i64, secs: u64, title: &str, app: &str, text: &str) -> StoredActivity {
    StoredActivity {
        id,
        session_id: 1,
        timestamp: at(when),
        duration_secs: secs,
        window_title: title.to_string(),
        app_name: app.to_string(),
        description: text.to_string(),
        tier: ActivityTier::from_duration(secs),
        logged_to_jira: false,
    }
}

#[test]
fn default_format_is_csv() {
    assert_eq!(default_format(), "csv");
}

#[test]
fn formats_by_name() {
    assert_eq!(parse_format("csv"), Ok(ExportFormat::Csv));
    assert_eq!(parse_format("json"), Ok(ExportFormat::Json));
    assert_eq!(parse_format("xml"), Err(ExportError::UnsupportedFormat));
    assert_eq!(parse_format("CSV"), Err(ExportError::UnsupportedFormat));
    assert_eq!(parse_format(""), Err(ExportError::UnsupportedFormat));
    assert_eq!(parse_format(&default_format()), Ok(ExportFormat::Csv));
}

#[test]
fn export_error_messages() {
    assert_eq!(ExportError::NoActiveSession.message(), "No active session found");
    assert_eq!(ExportError::UnsupportedFormat.message(), "Unsupported format");
    assert_eq!(ExportError::TimestampOutOfRange.message(), "Timestamp out of range");
}

#[test]
fn issue_key_is_trimmed_and_upper_cased() {
    assert_eq!(clean_issue_key(Some("  proj-123 \n".to_string())), Some("PROJ-123".to_string()));
    assert_eq!(clean_issue_key(Some("PROJ-1".to_string())), Some("PROJ-1".to_string()));
    assert_eq!(clean_issue_key(Some("a b".to_string())), Some("A B".to_string()));
    assert_eq!(clean_issue_key(Some("\u{a0}straße\u{2003}".to_string())), Some("STRASSE".to_string()));
    assert_eq!(clean_issue_key(Some("   ".to_string())), None);
    assert_eq!(clean_issue_key(Some(String::new())), None);
    assert_eq!(clean_issue_key(None), None);
}

#[test]
fn csv_export_text() {
    let mut logged = unit(2, 1_700_000_000_123, 600, "Plain", "Editor", "");
    logged.logged_to_jira = true;
    let units = vec![unit(1, 0, 59, "Say \"hi\"", "App, with comma", "a \"\" b\nnext"), logged];
    let text = export_csv(&units).unwrap();
    let expected = "Timestamp,Duration (seconds),Window Title,App Name,Description,Tier,Logged to Jira\n\
\"1970-01-01T00:00:00+00:00\",59,\"Say \"\"hi\"\"\",\"App, with comma\",\"a \"\"\"\" b\nnext\",micro,No\n\
\"2023-11-14T22:13:20.123+00:00\",600,\"Plain\",\"Editor\",\"\",billable,Yes\n";
    assert_eq!(text, expected);
}

#[test]
fn csv_export_of_nothing_is_the_header() {
    assert_eq!(
        export_csv(&[]).unwrap(),
        "Timestamp,Duration (seconds),Window Title,App Name,Description,Tier,Logged to Jira\n"
    );
}

#[test]
fn csv_export_needs_times_the_calendar_knows() {
    let units = vec![unit(1, 0, 1, "a", "b", "c"), unit(2, i64::MIN, 1, "a", "b", "c")];
    assert_eq!(export_csv(&units), Err(ExportError::TimestampOutOfRange));
}

#[test]
fn export_needs_an_open_session() {
    let mut db = Database::new();
    assert!(matches!(export_session(&db, "csv"), Err(ExportError::NoActiveSession)));
    // Without a session the format is not even looked at.
    assert!(matches!(export_session(&db, "xml"), Err(ExportError::NoActiveSession)));
    let session = db.create_session_at(at(0)).unwrap();
    db.end_session_at(session, at(10)).unwrap();
    assert!(matches!(export_session(&db, "json"), Err(ExportError::NoActiveSession)));
}

#[test]
fn export_of_open_session() {
    let mut db = Database::new();
    let old = db.create_session_at(at(0)).unwrap();
    db.end_session_at(old, at(10)).unwrap();
    let session = db.create_session_at(at(20)).unwrap();
    let observation = |when: i64, title: &str| Activity {
        timestamp: at(when),
        duration_secs: 60,
        window_title: title.to_string(),
        app_name: "App".to_string(),
        description: "d".to_string(),
    };
    db.store_activity(old, &observation(1_000, "old")).unwrap();
    db.store_activity(session, &observation(3_000, "later")).unwrap();
    db.store_activity(session, &observation(2_000, "sooner")).unwrap();
    db.mark_activities_logged(&[3]).unwrap();

    assert!(matches!(export_session(&db, "yaml"), Err(ExportError::UnsupportedFormat)));
    match export_session(&db, "json").unwrap() {
        ExportBody::Json(units) => {
            let titles: Vec<&str> = units.iter().map(|u| u.window_title.as_str()).collect();
            assert_eq!(titles, vec!["sooner", "later"]);
            assert!(units[0].logged_to_jira);
            assert!(!units[1].logged_to_jira);
        }
        other => panic!("expected units, got {:?}", other),
    }
    match export_session(&db, "csv").unwrap() {
        ExportBody::Csv(text) => {
            assert_eq!(
                text,
                "Timestamp,Duration (seconds),Window Title,App Name,Description,Tier,Logged to Jira\n\
\"1970-01-01T00:00:02+00:00\",60,\"sooner\",\"App\",\"d\",micro,Yes\n\
\"1970-01-01T00:00:03+00:00\",60,\"later\",\"App\",\"d\",micro,No\n"
            );
        }
        other => panic!("expected text, got {:?}", other),
    }
}

#[test]
fn status_of_tracker() {
    let mut tracker = WorkTracker::new_at(Config::default(), None, at(0));
    let idle = status_at(&tracker, at(5_000));
    assert_eq!(idle.version, VERSION);
    assert_eq!(idle.version, "0.1.0");
    assert_eq!(idle.tracking_state, TrackingState::Stopped);
    assert_eq!(idle.session_duration_secs, None);
    assert_eq!(idle.break_duration_secs, None);
    assert_eq!(idle.issue_override, None);

    tracker.start_tracking_at(at(10_000)).unwrap();
    tracker.pause_tracking_at(at(40_000)).unwrap();
    tracker.set_issue_override(Some("PROJ-1".to_string()));
    let paused = status_at(&tracker, at(100_000));
    assert_eq!(paused.tracking_state, TrackingState::Paused);
    assert_eq!(paused.session_duration_secs, Some(90));
    assert_eq!(paused.break_duration_secs, Some(60));
    assert_eq!(paused.issue_override, Some("PROJ-1".to_string()));
    assert_eq!(status(&tracker).tracking_state, TrackingState::Paused);
}

#[test]
fn pinning_reports_the_cleaned_key() {
    let mut tracker = WorkTracker::new_at(Config::default(), None, at(0));
    let pinned = pin_issue_at(&mut tracker, Some(" proj-9 ".to_string()), at(1));
    assert_eq!(pinned.issue_override, Some("PROJ-9".to_string()));
    assert_eq!(tracker.issue_override(), Some(&"PROJ-9".to_string()));
    let cleared = pin_issue_at(&mut tracker, Some("  ".to_string()), at(2));
    assert_eq!(cleared.issue_override, None);
    assert!(tracker.issue_override().is_none());
    pin_issue_at(&mut tracker, Some("x-1".to_string()), at(3));
    let absent = pin_issue_at(&mut tracker, None, at(4));
    assert_eq!(absent.issue_override, None);
}

#[test]
fn commands_are_answered() {
    let mut tracker = WorkTracker::new_at(Config::default(), None, at(0));

    let refused = handle_command_at(&mut tracker, Command::Pause, at(1_000));
    assert!(!refused.success);
    assert_eq!(refused.message, "Not tracking");
    assert_eq!(refused.http_status, 400);
    assert_eq!(refused.status.tracking_state, TrackingState::Stopped);
    assert_eq!(refused.export_session, None);

    let started = handle_command_at(&mut tracker, Command::Start, at(2_000));
    assert!(started.success);
    assert_eq!(started.message, "Tracking started");
    assert_eq!(started.http_status, 200);
    assert_eq!(started.status.tracking_state, TrackingState::Tracking);
    assert_eq!(started.status.session_duration_secs, Some(0));

    let again = handle_command_at(&mut tracker, Command::Start, at(3_000));
    assert!(!again.success);
    assert_eq!(again.message, "Already tracking");
    assert_eq!(again.http_status, 400);

    let paused = handle_command_at(&mut tracker, Command::Pause, at(4_000));
    assert!(paused.success);
    assert_eq!(paused.message, "Tracking paused");
    assert_eq!(paused.status.tracking_state, TrackingState::Paused);

    let resumed = handle_command_at(&mut tracker, Command::Resume, at(5_000));
    assert!(resumed.success);
    assert_eq!(resumed.message, "Tracking resumed");
    assert_eq!(resumed.status.break_duration_secs, None);

    let stopped = handle_command_at(&mut tracker, Command::Stop, at(62_000));
    assert!(stopped.success);
    assert_eq!(stopped.message, "Tracking stopped");
    assert_eq!(stopped.status.tracking_state, TrackingState::Stopped);
    assert_eq!(stopped.status.session_duration_secs, Some(60));
    assert_eq!(stopped.export_session, Some(1));

    let late = handle_command(&mut tracker, Command::Resume);
    assert!(!late.success);
    assert_eq!(late.message, "Not in a session");
}
