use work_to_jira_effort::salesforce::{
    after_response, LogTimeStep, SalesforceClient, SalesforceLoginResponse,
};
use work_to_jira_effort::screenpipe::{
    activities_from, activity_from, Activity, ScreenpipeClient, ScreenpipeContent,
    ScreenpipeResponse, ScreenpipeSearchEntry,
};
use work_to_jira_effort::time::Timestamp;

fn content(timestamp: Option<&str>, app: Option<&str>, window: Option<&str>) -> ScreenpipeContent {
    ScreenpipeContent {
        frame_id: Some(1),
        text: Some("seen text".to_string()),
        timestamp: timestamp.map(|t| t.to_string()),
        app_name: app.map(|t| t.to_string()),
        window_name: window.map(|t| t.to_string()),
        browser_url: None,
    }
}

fn crm() -> SalesforceClient {
    SalesforceClient::new(
        "https://acme.my.salesforce.com".to_string(),
        "user".to_string(),
        "pass".to_string(),
        "tok".to_string(),
        "cid".to_string(),
        "csecret".to_string(),
    )
}

#[test]
fn frame_becomes_a_minute_of_activity() {
    let now = Timestamp::from_millis(42);
    let activity = activity_from(
        &content(Some("2023-11-14T22:13:20.123+00:00"), Some("Editor"), Some("main.rs")),
        now,
    );
    assert_eq!(activity.timestamp, Timestamp::from_millis(1_700_000_000_123));
    assert_eq!(activity.duration_secs, 60);
    assert_eq!(activity.window_title, "main.rs");
    assert_eq!(activity.app_name, "Editor");
    assert_eq!(activity.description, "seen text");
}

#[test]
fn frame_without_readable_time_counts_as_now() {
    let now = Timestamp::from_millis(42);
    assert_eq!(activity_from(&content(None, None, None), now).timestamp, now);
    assert_eq!(activity_from(&content(Some("soon"), None, None), now).timestamp, now);
    let bare = ScreenpipeContent {
        frame_id: None,
        text: None,
        timestamp: None,
        app_name: None,
        window_name: None,
        browser_url: Some("https://example.com".to_string()),
    };
    let activity = activity_from(&bare, now);
    assert_eq!(activity.window_title, "");
    assert_eq!(activity.app_name, "");
    assert_eq!(activity.description, "");
    assert_eq!(activity.duration_secs, 60);
}

#[test]
fn every_entry_is_observed_in_order() {
    let response = ScreenpipeResponse {
        data: vec![
            ScreenpipeSearchEntry {
                data_type: "OCR".to_string(),
                content: content(Some("1970-01-01T00:00:01Z"), Some("A"), Some("one")),
            },
            ScreenpipeSearchEntry {
                data_type: "OCR".to_string(),
                content: content(None, Some("B"), Some("two")),
            },
        ],
    };
    let activities = activities_from(&response, Timestamp::from_millis(9_000));
    assert_eq!(activities.len(), 2);
    assert_eq!(activities[0].timestamp, Timestamp::from_millis(1_000));
    assert_eq!(activities[0].window_title, "one");
    assert_eq!(activities[1].timestamp, Timestamp::from_millis(9_000));
    assert_eq!(activities[1].app_name, "B");
    assert!(activities_from(&ScreenpipeResponse { data: Vec::new() }, Timestamp::from_millis(0))
        .is_empty());
}

#[test]
fn capture_addresses_and_parameters() {
    let client = ScreenpipeClient::new("http://localhost:3030".to_string());
    assert_eq!(client.search_url(), "http://localhost:3030/search");
    assert_eq!(client.health_url(), "http://localhost:3030/health");
    let params = ScreenpipeClient::search_params(
        Timestamp::from_millis(1_700_000_000_999),
        Timestamp::from_millis(1_700_000_300_000),
    );
    let pairs: Vec<(&str, &str)> =
        params.iter().map(|p| (p.name.as_str(), p.value.as_str())).collect();
    assert_eq!(
        pairs,
        vec![
            ("start_timestamp", "1700000000"),
            ("end_timestamp", "1700000300"),
            ("limit", "100"),
        ]
    );
    let early = ScreenpipeClient::search_params(
        Timestamp::from_millis(-1_500),
        Timestamp::from_millis(0),
    );
    assert_eq!(early[0].value, "-2");
    assert_eq!(early[1].value, "0");
}

#[test]
fn activity_copy_is_equal() {
    let activity = Activity {
        timestamp: Timestamp::from_millis(5),
        duration_secs: 9,
        window_title: "w".to_string(),
        app_name: "a".to_string(),
        description: "d".to_string(),
    };
    let copy = activity.clone();
    assert_eq!(copy.timestamp, activity.timestamp);
    assert_eq!(copy.duration_secs, 9);
    assert_eq!(copy.window_title, "w");
    assert_eq!(copy.app_name, "a");
    assert_eq!(copy.description, "d");
}

#[test]
fn crm_addresses_and_sign_in() {
    let mut client = crm();
    assert_eq!(client.token_url(), "https://acme.my.salesforce.com/services/oauth2/token");
    assert_eq!(
        client.time_entry_url(),
        "https://acme.my.salesforce.com/services/data/v58.0/sobjects/TimeEntry__c"
    );
    let request = client.login_request();
    assert_eq!(request.grant_type, "password");
    assert_eq!(request.client_id, "cid");
    assert_eq!(request.client_secret, "csecret");
    assert_eq!(request.username, "user");
    assert_eq!(request.password, "passtok");

    assert!(client.needs_login());
    assert!(client.access_token().is_none());
    client.signed_in(SalesforceLoginResponse {
        access_token: "abc".to_string(),
        instance_url: "https://other".to_string(),
    });
    assert!(!client.needs_login());
    assert_eq!(client.access_token(), Some(&"abc".to_string()));
    assert_eq!(client.token_url(), "https://acme.my.salesforce.com/services/oauth2/token");
    client.signed_out();
    assert!(client.needs_login());
}

#[test]
fn time_entry_of_unit() {
    let activity = Activity {
        timestamp: Timestamp::from_millis(1_700_000_000_123),
        duration_secs: 1_800,
        window_title: "Quarterly numbers".to_string(),
        app_name: "Sheets".to_string(),
        description: "ignored".to_string(),
    };
    let entry = SalesforceClient::log_time(&activity).unwrap();
    assert_eq!(entry.name, "Auto-tracked: Sheets");
    assert_eq!(entry.start_time, "2023-11-14T22:13:20.123+00:00");
    assert_eq!(entry.duration_secs, 1_800);
    assert_eq!(entry.description, "Sheets - Quarterly numbers");

    let unwritable = Activity { timestamp: Timestamp::from_millis(i64::MAX), ..activity };
    assert!(SalesforceClient::log_time(&unwritable).is_none());
}

#[test]
fn refused_token_is_answered_by_one_new_sign_in() {
    assert_eq!(after_response(200, false), LogTimeStep::Done);
    assert_eq!(after_response(201, false), LogTimeStep::Done);
    assert_eq!(after_response(299, true), LogTimeStep::Done);
    assert_eq!(after_response(401, false), LogTimeStep::Reauthenticate);
    assert_eq!(after_response(401, true), LogTimeStep::Failed);
    assert_eq!(after_response(403, false), LogTimeStep::Failed);
    assert_eq!(after_response(500, false), LogTimeStep::Failed);
    assert_eq!(after_response(199, false), LogTimeStep::Failed);
    assert_eq!(after_response(300, false), LogTimeStep::Failed);
}
