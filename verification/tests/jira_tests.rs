use work_to_jira_effort::jira::{
    choose_target, copy_issues, find_issue_key, AssignedIssuesCache, JiraClient, JiraIssue,
    JiraIssueFields, JiraSearchResponse,
};
use work_to_jira_effort::llm::AssignedIssue;
use work_to_jira_effort::screenpipe::Activity;
use work_to_jira_effort::time::Timestamp;

fn client() -> JiraClient {
    JiraClient::new(
        "https://acme.atlassian.net".to_string(),
        "me@example.com".to_string(),
        "token".to_string(),
    )
}

fn activity(title: &str, app: &str) -> Activity {
    Activity {
        timestamp: Timestamp::from_millis(1_700_000_000_123),
        duration_secs: 900,
        window_title: title.to_string(),
        app_name: app.to_string(),
        description: String::new(),
    }
}

fn issues(keys: &[&str]) -> Vec<AssignedIssue> {
    keys.iter()
        .map(|k| AssignedIssue { key: k.to_string(), summary: String::new() })
        .collect()
}

#[test]
fn issue_key_is_found_in_text() {
    assert_eq!(find_issue_key("Working on PROJ-123 today"), Ok(Some("PROJ-123".to_string())));
    assert_eq!(find_issue_key("PROJ-123"), Ok(Some("PROJ-123".to_string())));
    assert_eq!(find_issue_key("first AB-1 then CD-22"), Ok(Some("AB-1".to_string())));
    assert_eq!(find_issue_key("xPROJ-7y"), Ok(Some("PROJ-7".to_string())));
    assert_eq!(find_issue_key("proj-123"), Ok(None));
    assert_eq!(find_issue_key("PROJ-"), Ok(None));
    assert_eq!(find_issue_key("-123"), Ok(None));
    assert_eq!(find_issue_key("PROJ 123"), Ok(None));
    assert_eq!(find_issue_key(""), Ok(None));
}

#[test]
fn issue_key_is_looked_for_in_title_then_app() {
    let jira = client();
    assert_eq!(
        jira.find_issue_from_activity(&activity("Fix PROJ-123 bug", "Editor")),
        Ok(Some("PROJ-123".to_string()))
    );
    assert_eq!(
        jira.find_issue_from_activity(&activity("Inbox", "Browser OPS-9")),
        Ok(Some("OPS-9".to_string()))
    );
    assert_eq!(
        jira.find_issue_from_activity(&activity("AB-1", "CD-2")),
        Ok(Some("AB-1".to_string()))
    );
    assert_eq!(jira.find_issue_from_activity(&activity("Inbox", "Mail")), Ok(None));
    // Title and application are joined by a space: no key across the two.
    assert_eq!(jira.find_issue_from_activity(&activity("PROJ", "-12")), Ok(None));
}

#[test]
fn pinned_key_wins() {
    let pinned = "PIN-1".to_string();
    assert_eq!(
        choose_target(Some(&pinned), Some("PROJ-2".to_string())),
        Some("PIN-1".to_string())
    );
    assert_eq!(choose_target(Some(&pinned), None), Some("PIN-1".to_string()));
    assert_eq!(choose_target(None, Some("PROJ-2".to_string())), Some("PROJ-2".to_string()));
    assert_eq!(choose_target(None, None), None);
}

#[test]
fn addresses() {
    let jira = client();
    assert_eq!(
        jira.worklog_url("PROJ-1"),
        "https://acme.atlassian.net/rest/api/3/issue/PROJ-1/worklog"
    );
    assert_eq!(jira.myself_url(), "https://acme.atlassian.net/rest/api/3/myself");
    assert_eq!(jira.search_url(), "https://acme.atlassian.net/rest/api/3/search");
    assert_eq!(jira.email(), "me@example.com");
    assert_eq!(jira.api_token(), "token");
    assert_eq!(
        JiraClient::assigned_issues_jql("abc123"),
        "assignee = \"abc123\" AND resolution = Unresolved ORDER BY updated DESC"
    );
}

#[test]
fn worklog_entry_of_unit() {
    let entry = JiraClient::worklog_entry(&activity("Fix bug", "Editor")).unwrap();
    assert_eq!(entry.comment, "Auto-tracked: Editor - Fix bug");
    assert_eq!(entry.time_spent_seconds, 900);
    assert_eq!(entry.started, "2023-11-14T22:13:20.123+0000");
}

#[test]
fn worklog_entry_needs_a_time_the_calendar_knows() {
    let mut unit = activity("a", "b");
    unit.timestamp = Timestamp::from_millis(i64::MAX);
    assert!(JiraClient::worklog_entry(&unit).is_none());
}

#[test]
fn cache_is_fresh_for_its_time_to_live() {
    let mut jira = client().with_cache_duration(10);
    assert!(jira.cached_assigned_issues_at(Timestamp::from_millis(0)).is_none());
    jira.remember_assigned_issues_at(&issues(&["PROJ-1", "PROJ-2"]), Timestamp::from_millis(5_000));

    let hit = jira.cached_assigned_issues_at(Timestamp::from_millis(14_999)).unwrap();
    assert_eq!(hit.len(), 2);
    assert_eq!(hit[0].key, "PROJ-1");
    assert_eq!(hit[1].key, "PROJ-2");
    assert!(jira.cached_assigned_issues_at(Timestamp::from_millis(5_000)).is_some());
    assert!(jira.cached_assigned_issues_at(Timestamp::from_millis(15_000)).is_none());
    assert!(jira.cached_assigned_issues_at(Timestamp::from_millis(99_000)).is_none());
    // A clock that went back makes the list no older.
    assert!(jira.cached_assigned_issues_at(Timestamp::from_millis(1_000)).is_some());

    jira.clear_cache();
    assert!(jira.cached_assigned_issues_at(Timestamp::from_millis(6_000)).is_none());
}

#[test]
fn cache_defaults_to_two_hours() {
    let mut jira = client();
    jira.remember_assigned_issues_at(&issues(&["A-1"]), Timestamp::from_millis(0));
    assert!(jira.cached_assigned_issues_at(Timestamp::from_millis(7_199_999)).is_some());
    assert!(jira.cached_assigned_issues_at(Timestamp::from_millis(7_200_000)).is_none());
    jira.remember_assigned_issues(&issues(&["A-2"]));
    let hit = jira.cached_assigned_issues().unwrap();
    assert_eq!(hit[0].key, "A-2");
}

#[test]
fn staleness_predicate() {
    let cache = AssignedIssuesCache { issues: issues(&["A-1"]), cached_at: Timestamp::from_millis(0) };
    assert!(!cache.is_stale(Timestamp::from_millis(999), 1));
    assert!(cache.is_stale(Timestamp::from_millis(1_000), 1));
    assert!(cache.is_stale(Timestamp::from_millis(0), 0));
    assert!(!cache.is_stale(Timestamp::from_millis(-5_000), 0));
    assert!(!cache.is_stale(Timestamp::from_millis(i64::MAX), u64::MAX));
    assert_eq!(copy_issues(&cache.issues).len(), 1);
}

#[test]
fn assigned_to_me() {
    let list = issues(&["PROJ-123"]);
    assert!(JiraClient::is_assigned_to_me(&list, "PROJ-123"));
    assert!(!JiraClient::is_assigned_to_me(&list, "PROJ-124"));
}

#[test]
fn search_result_becomes_assigned_issues() {
    let response = JiraSearchResponse {
        issues: vec![
            JiraIssue {
                key: "PROJ-1".to_string(),
                fields: JiraIssueFields { summary: "One".to_string(), assignee: None },
            },
            JiraIssue {
                key: "PROJ-2".to_string(),
                fields: JiraIssueFields { summary: "Two".to_string(), assignee: None },
            },
        ],
        total: 2,
    };
    let assigned = JiraClient::assigned_from_search(response);
    assert_eq!(assigned.len(), 2);
    assert_eq!(assigned[0].key, "PROJ-1");
    assert_eq!(assigned[0].summary, "One");
    assert_eq!(assigned[1].key, "PROJ-2");
    assert_eq!(assigned[1].summary, "Two");
}
