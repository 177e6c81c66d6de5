use work_to_jira_effort::confidence::Confidence;
use work_to_jira_effort::config::{expand_home, needs_home, Config};
use work_to_jira_effort::text::{
    chars_of, decimal, double_each, join2, join3, join4, signed_decimal, trim,
};
use work_to_jira_effort::time::Timestamp;

#[test]
fn decimal_digits() {
    assert_eq!(decimal(0), "0");
    assert_eq!(decimal(7), "7");
    assert_eq!(decimal(10), "10");
    assert_eq!(decimal(1_234_567_890), "1234567890");
    assert_eq!(decimal(u64::MAX), "18446744073709551615");
    assert_eq!(signed_decimal(0), "0");
    assert_eq!(signed_decimal(42), "42");
    assert_eq!(signed_decimal(-42), "-42");
    assert_eq!(signed_decimal(i64::MAX), "9223372036854775807");
    assert_eq!(signed_decimal(i64::MIN), "-9223372036854775808");
}

#[test]
fn trimming() {
    assert_eq!(trim("  a b  "), "a b");
    assert_eq!(trim("\t\n x \r\n"), "x");
    assert_eq!(trim("x"), "x");
    assert_eq!(trim(""), "");
    assert_eq!(trim(" \u{3000} "), "");
    assert_eq!(trim("\u{2028}é y\u{85}"), "é y");
    // A zero-width space is no whitespace.
    assert_eq!(trim("\u{200b}a"), "\u{200b}a");
}

#[test]
fn characters_and_joins() {
    assert_eq!(chars_of("héy"), vec!['h', 'é', 'y']);
    assert!(chars_of("").is_empty());
    assert_eq!(join2("a", "b"), "ab");
    assert_eq!(join3("a", "", "c"), "ac");
    assert_eq!(join4("1", "2", "3", "4"), "1234");
    assert_eq!(double_each("a\"b\"\"", '"'), "a\"\"b\"\"\"\"");
    assert_eq!(double_each("plain", '"'), "plain");
    assert_eq!(double_each("", '"'), "");
}

#[test]
fn elapsed_seconds() {
    let start = Timestamp::from_millis(10_500);
    assert_eq!(start.seconds_until(Timestamp::from_millis(10_500)), 0);
    assert_eq!(start.seconds_until(Timestamp::from_millis(11_499)), 0);
    assert_eq!(start.seconds_until(Timestamp::from_millis(11_500)), 1);
    assert_eq!(start.seconds_until(Timestamp::from_millis(5)), 0);
    assert_eq!(
        Timestamp::from_millis(i64::MIN).seconds_until(Timestamp::from_millis(i64::MAX)),
        18_446_744_073_709_551
    );
    assert!(start.is_before(Timestamp::from_millis(10_501)));
    assert!(!start.is_before(start));
}

#[test]
fn signed_age() {
    let start = Timestamp::from_millis(10_000);
    assert_eq!(start.age_at(Timestamp::from_millis(12_999)), 2);
    assert_eq!(start.age_at(Timestamp::from_millis(10_000)), 0);
    assert_eq!(start.age_at(Timestamp::from_millis(9_001)), 0);
    assert_eq!(start.age_at(Timestamp::from_millis(7_500)), -2);
    assert_eq!(
        Timestamp::from_millis(i64::MAX).age_at(Timestamp::from_millis(i64::MIN)),
        -18_446_744_073_709_551
    );
}

#[test]
fn whole_seconds_round_towards_the_past() {
    assert_eq!(Timestamp::from_millis(0).unix_secs(), 0);
    assert_eq!(Timestamp::from_millis(999).unix_secs(), 0);
    assert_eq!(Timestamp::from_millis(1_000).unix_secs(), 1);
    assert_eq!(Timestamp::from_millis(-1).unix_secs(), -1);
    assert_eq!(Timestamp::from_millis(-1_000).unix_secs(), -1);
    assert_eq!(Timestamp::from_millis(-1_001).unix_secs(), -2);
    assert_eq!(Timestamp::from_millis(i64::MIN).unix_secs(), -9_223_372_036_854_776);
}

#[test]
fn earlier_timestamps() {
    assert_eq!(Timestamp::from_millis(500).minus_millis(300), Timestamp::from_millis(200));
    assert_eq!(Timestamp::from_millis(0).minus_millis(300_000), Timestamp::from_millis(-300_000));
    assert_eq!(
        Timestamp::from_millis(i64::MIN + 5).minus_millis(6),
        Timestamp::from_millis(i64::MIN)
    );
}

#[test]
fn rfc3339_text_of_timestamps() {
    assert_eq!(
        Timestamp::from_millis(0).to_rfc3339(),
        Some("1970-01-01T00:00:00+00:00".to_string())
    );
    assert_eq!(
        Timestamp::from_millis(1_700_000_000_123).to_rfc3339(),
        Some("2023-11-14T22:13:20.123+00:00".to_string())
    );
    assert_eq!(
        Timestamp::from_millis(-1).to_rfc3339(),
        Some("1969-12-31T23:59:59.999+00:00".to_string())
    );
    assert_eq!(Timestamp::from_millis(i64::MAX).to_rfc3339(), None);
    assert_eq!(Timestamp::from_millis(i64::MIN).to_rfc3339(), None);
}

#[test]
fn rfc3339_text_is_read_back() {
    assert_eq!(
        Timestamp::parse_rfc3339("2023-11-14T22:13:20.123+00:00"),
        Some(Timestamp::from_millis(1_700_000_000_123))
    );
    assert_eq!(
        Timestamp::parse_rfc3339("2023-11-14T22:13:20Z"),
        Some(Timestamp::from_millis(1_700_000_000_000))
    );
    assert_eq!(
        Timestamp::parse_rfc3339("2023-11-15T00:13:20.5+02:00"),
        Some(Timestamp::from_millis(1_700_000_000_500))
    );
    assert_eq!(Timestamp::parse_rfc3339("yesterday"), None);
    assert_eq!(Timestamp::parse_rfc3339(""), None);
    assert_eq!(Timestamp::parse_rfc3339("2023-11-14 22:13:20"), None);
}

#[test]
fn formatted_timestamps() {
    let t = Timestamp::from_millis(1_700_000_000_123);
    assert_eq!(
        t.format("%Y-%m-%dT%H:%M:%S%.3f%z"),
        Some("2023-11-14T22:13:20.123+0000".to_string())
    );
    assert_eq!(t.format("%d/%m/%Y"), Some("14/11/2023".to_string()));
    assert_eq!(t.format(""), Some(String::new()));
    assert_eq!(t.format("%Q"), None);
    assert_eq!(Timestamp::from_millis(i64::MAX).format("%Y"), None);
}

#[test]
fn the_clock_moves_forward() {
    let first = Timestamp::now();
    let second = Timestamp::now();
    assert!(first.millis > 1_600_000_000_000);
    assert!(!second.is_before(first));
}

#[test]
fn confidence_comparison() {
    let threshold = Confidence::from_millionths(750_000);
    assert!(Confidence::from_millionths(500_000).is_below(threshold));
    assert!(Confidence::from_millionths(749_999).is_below(threshold));
    assert!(!Confidence::from_millionths(750_000).is_below(threshold));
    assert!(!Confidence::from_millionths(900_000).is_below(threshold));
    assert_eq!(Confidence::from_millionths(12).millionths, 12);
}

#[test]
fn default_settings() {
    let config = Config::default();
    assert_eq!(config.company.name, "Your Company Name");
    assert_eq!(config.screenpipe.url, "http://localhost:3030");
    assert_eq!(config.jira.url, "https://your-domain.atlassian.net");
    assert_eq!(config.jira.email, "your-email@example.com");
    assert_eq!(config.jira.api_token, "your-api-token");
    assert!(config.jira.enabled);
    assert_eq!(config.salesforce.instance_url, "https://your-instance.salesforce.com");
    assert_eq!(config.salesforce.username, "your-username");
    assert_eq!(config.salesforce.password, "your-password");
    assert_eq!(config.salesforce.security_token, "your-security-token");
    assert_eq!(config.salesforce.client_id, "your-client-id");
    assert_eq!(config.salesforce.client_secret, "your-client-secret");
    assert!(!config.salesforce.enabled);
    assert_eq!(config.tracking.screenpipe_poll_interval_secs, 300);
    assert_eq!(config.tracking.llm_batch_interval_secs, 10_800);
    assert_eq!(config.tracking.min_activity_duration_secs, 60);
    assert_eq!(config.tracking.micro_activity_threshold_secs, 600);
    assert!(config.tracking.analyze_on_stop);
    assert!(!config.llm.enabled);
    assert_eq!(config.llm.endpoint, "https://your-corporate-api.company.com/ai/analyze");
    assert_eq!(config.llm.api_key, "your-api-key");
    assert_eq!(config.llm.timeout_secs, 30);
    assert_eq!(config.llm.confidence_threshold, Confidence::from_millionths(750_000));
    assert_eq!(config.llm.batch_size, 100);
    assert!(config.nudging.enabled);
    assert_eq!(config.nudging.cooldown_secs, 1_800);
    assert!(config.nudging.detect_assigned_issues_in_titles);
    assert!(config.analytics.store_local);
    assert_eq!(config.analytics.database_path, "~/.work-tracker/analytics.db");
    assert_eq!(config.analytics.retention_days, 90);
}

#[test]
fn home_directory_in_paths() {
    assert!(needs_home("~/.work-tracker/analytics.db"));
    assert!(needs_home("~"));
    assert!(!needs_home("/var/db"));
    assert!(!needs_home("a~b"));
    assert!(!needs_home(""));
    assert_eq!(
        expand_home("~/.work-tracker/analytics.db", "/home/me"),
        "/home/me/.work-tracker/analytics.db"
    );
    assert_eq!(expand_home("~", "/home/me"), "/home/me");
    assert_eq!(expand_home("~~/x", "/h"), "/h~/x");
    assert_eq!(expand_home("/var/db", "/home/me"), "/var/db");
    assert_eq!(expand_home("a/~/b", "/home/me"), "a/~/b");
    assert_eq!(expand_home("", "/home/me"), "");
}
