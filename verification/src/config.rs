//! The tracker's settings and their defaults.

use crate::confidence::Confidence;
use crate::text::{chars_of, join2, text_of};
use vstd::prelude::*;

verus! {

/// Where the capture service listens.
#[derive(Debug)]
pub struct ScreenpipeConfig {
    pub url: String,
}

/// The issue tracker's address and the user's credentials.
#[derive(Debug)]
pub struct JiraConfig {
    pub url: String,
    pub email: String,
    pub api_token: String,
    pub enabled: bool,
}

/// The CRM's address and the user's credentials.
#[derive(Debug)]
pub struct SalesforceConfig {
    pub instance_url: String,
    pub username: String,
    pub password: String,
    pub security_token: String,
    pub client_id: String,
    pub client_secret: String,
    pub enabled: bool,
}

/// The company the work is done for.
#[derive(Debug)]
pub struct CompanyConfig {
    pub name: String,
}

/// Intervals and thresholds of tracking.
#[derive(Debug, Clone, Copy)]
pub struct TrackingConfig {
    pub screenpipe_poll_interval_secs: u64,
    pub llm_batch_interval_secs: u64,
    pub min_activity_duration_secs: u64,
    pub micro_activity_threshold_secs: u64,
    pub analyze_on_stop: bool,
}

/// The classifier's address and how far its answers are trusted.
#[derive(Debug)]
pub struct LLMConfig {
    pub enabled: bool,
    pub endpoint: String,
    pub api_key: String,
    pub timeout_secs: u64,
    /// Matches with a confidence below this are not exported.
    pub confidence_threshold: Confidence,
    pub batch_size: usize,
}

/// When the user is reminded.
#[derive(Debug, Clone, Copy)]
pub struct NudgingConfig {
    pub enabled: bool,
    pub cooldown_secs: u64,
    pub detect_assigned_issues_in_titles: bool,
}

/// Where and how long activity is kept.
#[derive(Debug)]
pub struct AnalyticsConfig {
    pub store_local: bool,
    pub database_path: String,
    pub retention_days: u64,
}

/// All settings.
#[derive(Debug)]
pub struct Config {
    pub company: CompanyConfig,
    pub screenpipe: ScreenpipeConfig,
    pub jira: JiraConfig,
    pub salesforce: SalesforceConfig,
    pub tracking: TrackingConfig,
    pub llm: LLMConfig,
    pub nudging: NudgingConfig,
    pub analytics: AnalyticsConfig,
}

impl TrackingConfig {
    /// Poll every five minutes, classify every three hours and on stop,
    /// ten minutes make a unit billable.
    pub open spec fn standard() -> TrackingConfig {
        TrackingConfig {
            screenpipe_poll_interval_secs: 300,
            llm_batch_interval_secs: 10800,
            min_activity_duration_secs: 60,
            micro_activity_threshold_secs: 600,
            analyze_on_stop: true,
        }
    }
}

impl NudgingConfig {
    /// Remind at most every half hour.
    pub open spec fn standard() -> NudgingConfig {
        NudgingConfig { enabled: true, cooldown_secs: 1800, detect_assigned_issues_in_titles: true }
    }
}

impl Config {
    /// True of the settings that a new installation starts with: the issue
    /// tracker on, the CRM and the classifier off, and placeholders where
    /// the user's own values go.
    pub open spec fn is_standard(self) -> bool {
        &&& self.company.name@ == "Your Company Name"@
        &&& self.screenpipe.url@ == "http://localhost:3030"@
        &&& self.jira.url@ == "https://your-domain.atlassian.net"@
        &&& self.jira.email@ == "your-email@example.com"@
        &&& self.jira.api_token@ == "your-api-token"@
        &&& self.jira.enabled
        &&& self.salesforce.instance_url@ == "https://your-instance.salesforce.com"@
        &&& self.salesforce.username@ == "your-username"@
        &&& self.salesforce.password@ == "your-password"@
        &&& self.salesforce.security_token@ == "your-security-token"@
        &&& self.salesforce.client_id@ == "your-client-id"@
        &&& self.salesforce.client_secret@ == "your-client-secret"@
        &&& !self.salesforce.enabled
        &&& self.tracking == TrackingConfig::standard()
        &&& !self.llm.enabled
        &&& self.llm.endpoint@ == "https://your-corporate-api.company.com/ai/analyze"@
        &&& self.llm.api_key@ == "your-api-key"@
        &&& self.llm.timeout_secs == 30
        &&& self.llm.confidence_threshold.millionths == 750_000
        &&& self.llm.batch_size == 100
        &&& self.nudging == NudgingConfig::standard()
        &&& self.analytics.store_local
        &&& self.analytics.database_path@ == "~/.work-tracker/analytics.db"@
        &&& self.analytics.retention_days == 90
    }
}

impl Default for Config {
    fn default() -> (c: Config)
        ensures
            c.is_standard(),
    {
        Config {
            company: CompanyConfig { name: "Your Company Name".to_owned() },
            screenpipe: ScreenpipeConfig { url: "http://localhost:3030".to_owned() },
            jira: JiraConfig {
                url: "https://your-domain.atlassian.net".to_owned(),
                email: "your-email@example.com".to_owned(),
                api_token: "your-api-token".to_owned(),
                enabled: true,
            },
            salesforce: SalesforceConfig {
                instance_url: "https://your-instance.salesforce.com".to_owned(),
                username: "your-username".to_owned(),
                password: "your-password".to_owned(),
                security_token: "your-security-token".to_owned(),
                client_id: "your-client-id".to_owned(),
                client_secret: "your-client-secret".to_owned(),
                enabled: false,
            },
            tracking: TrackingConfig {
                screenpipe_poll_interval_secs: 300,
                llm_batch_interval_secs: 10800,
                min_activity_duration_secs: 60,
                micro_activity_threshold_secs: 600,
                analyze_on_stop: true,
            },
            llm: LLMConfig {
                enabled: false,
                endpoint: "https://your-corporate-api.company.com/ai/analyze".to_owned(),
                api_key: "your-api-key".to_owned(),
                timeout_secs: 30,
                confidence_threshold: Confidence::from_millionths(750_000),
                batch_size: 100,
            },
            nudging: NudgingConfig {
                enabled: true,
                cooldown_secs: 1800,
                detect_assigned_issues_in_titles: true,
            },
            analytics: AnalyticsConfig {
                store_local: true,
                database_path: "~/.work-tracker/analytics.db".to_owned(),
                retention_days: 90,
            },
        }
    }
}

/// A path with a leading `~` replaced by the home directory; any other path
/// as it is.
pub open spec fn expanded(path: Seq<char>, home: Seq<char>) -> Seq<char> {
    if path.len() > 0 && path.first() == '~' {
        home + path.drop_first()
    } else {
        path
    }
}

/// True where the path starts with `~` and so needs the home directory.
pub fn needs_home(path: &str) -> (b: bool)
    ensures
        b == (path@.len() > 0 && path@.first() == '~'),
{
    let chars = chars_of(path);
    chars.len() > 0 && chars[0] == '~'
}

/// `path` with a leading `~` replaced by `home`; any other path as it is.
pub fn expand_home(path: &str, home: &str) -> (r: String)
    ensures
        r@ == expanded(path@, home@),
{
    let chars = chars_of(path);
    if chars.len() > 0 && chars[0] == '~' {
        let rest = text_of(&chars, 1, chars.len());
        assert(chars@.subrange(1, chars@.len() as int) =~= path@.drop_first());
        join2(home, rest.as_str())
    } else {
        path.to_owned()
    }
}

} // verus!
