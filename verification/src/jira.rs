//! The issue tracker as the core sees it: the payloads it is sent, the cache
//! of assigned issues, and the search for an issue key in a unit's texts.

use crate::llm::{has_key, is_assigned, AssignedIssue};
use crate::screenpipe::Activity;
use crate::text::{join2, join3, join4};
use crate::time::{age_secs, strftime_text, Timestamp};
use vstd::prelude::*;

verus! {

/// The seconds for which a list of assigned issues is used before it is
/// fetched again, unless the client is told otherwise: two hours.
pub const DEFAULT_CACHE_DURATION_SECS: u64 = 7200;

/// The shape of an issue key: upper-case letters, a dash, digits.
pub const ISSUE_KEY_PATTERN: &'static str = "([A-Z]+-\\d+)";

/// The `strftime` pattern of a work log's start time.
pub const WORKLOG_TIME_PATTERN: &'static str = "%Y-%m-%dT%H:%M:%S%.3f%z";

/// A work log as the issue tracker takes it.
#[derive(Debug)]
pub struct WorklogEntry {
    pub comment: String,
    pub time_spent_seconds: u64,
    pub started: String,
}

/// The issue tracker's answer to a work log.
#[derive(Debug)]
pub struct JiraWorklogResponse {
    pub id: String,
}

/// The user as the issue tracker knows them.
#[derive(Debug)]
pub struct JiraUser {
    pub account_id: String,
    pub email_address: String,
    pub display_name: String,
}

/// The user an issue is assigned to.
#[derive(Debug)]
pub struct JiraAssignee {
    pub account_id: String,
}

/// The fields of an issue that the tracker reads.
#[derive(Debug)]
pub struct JiraIssueFields {
    pub summary: String,
    pub assignee: Option<JiraAssignee>,
}

/// An issue as a search returns it.
#[derive(Debug)]
pub struct JiraIssue {
    pub key: String,
    pub fields: JiraIssueFields,
}

/// The result of a search for issues.
#[derive(Debug)]
pub struct JiraSearchResponse {
    pub issues: Vec<JiraIssue>,
    pub total: usize,
}

/// The first match of a regular expression in a text, as the `regex` crate
/// finds it: `None` where the pattern is no regular expression,
/// `Some(None)` where nothing matches or the group took no part in the
/// match, else the text that group `group` matched.
pub uninterp spec fn regex_capture(pattern: Seq<char>, text: Seq<char>, group: nat) -> Option<
    Option<Seq<char>>,
>;

/// `regex::Error`: why a pattern is no regular expression. Nothing is said
/// of what it holds.
#[verifier::external_type_specification]
#[verifier::external_body]
pub struct ExRegexError(regex::Error);

/// `regex::Regex::new` on `pattern`, then `Regex::captures` on `text`, and
/// of the captures the text of group `group` (`Captures::get`,
/// `Match::as_str`). The error is that of `Regex::new`. The result is a
/// function of the three arguments alone and is named `regex_capture`.
#[verifier::external_body]
fn first_capture(pattern: &str, text: &str, group: usize) -> (r: Result<
    Option<String>,
    regex::Error,
>)
    ensures
        match r {
            Ok(Some(m)) => regex_capture(pattern@, text@, group as nat) == Some(Some(m@)),
            Ok(None) => regex_capture(pattern@, text@, group as nat) == Some(
                None::<Seq<char>>,
            ),
            Err(_) => regex_capture(pattern@, text@, group as nat) is None,
        },
{
    let re = regex::Regex::new(pattern)?;
    match re.captures(text) {
        Some(captures) => match captures.get(group) {
            Some(found) => Ok(Some(found.as_str().to_string())),
            None => Ok(None),
        },
        None => Ok(None),
    }
}

/// Why no issue key could be looked for.
#[derive(Debug, Clone, Copy, PartialEq, Eq, Structural)]
pub enum DetectionError {
    /// The pattern of issue keys is no regular expression.
    InvalidPattern,
}

/// What the search for an issue key in `text` gives: the first key, nothing
/// where the text holds none, or the error where the pattern is no regular
/// expression.
pub open spec fn detection_of(text: Seq<char>) -> Result<Option<Seq<char>>, DetectionError> {
    match regex_capture(ISSUE_KEY_PATTERN@, text, 1) {
        Some(found) => Ok(found),
        None => Err(DetectionError::InvalidPattern),
    }
}

/// True where `r` is what the search for an issue key in `text` gives.
pub open spec fn is_detection(text: Seq<char>, r: Result<Option<String>, DetectionError>) -> bool {
    match detection_of(text) {
        Ok(Some(key)) => r matches Ok(Some(k)) && k@ == key,
        Ok(None) => r matches Ok(None),
        Err(e) => r matches Err(f) && f == e,
    }
}

/// The first issue key in `text`; none where the text holds none, and none
/// where none could be looked for.
pub open spec fn issue_key_in(text: Seq<char>) -> Option<Seq<char>> {
    match detection_of(text) {
        Ok(found) => found,
        Err(_) => None,
    }
}

/// The text in which a unit's issue key is looked for: its window title, a
/// space, its application.
pub open spec fn searched_text(activity: Activity) -> Seq<char> {
    activity.window_title@ + " "@ + activity.app_name@
}

/// The key that a unit is logged under: the pinned one where one is pinned,
/// else the detected one.
pub open spec fn target_of(pinned: Option<Seq<char>>, detected: Option<Seq<char>>) -> Option<
    Seq<char>,
> {
    match pinned {
        Some(key) => Some(key),
        None => detected,
    }
}

/// The first issue key in `text`, if it holds one. Fails where the pattern
/// of issue keys is no regular expression, and only there.
pub fn find_issue_key(text: &str) -> (r: Result<Option<String>, DetectionError>)
    ensures
        is_detection(text@, r),
{
    match first_capture(ISSUE_KEY_PATTERN, text, 1) {
        Ok(found) => Ok(found),
        Err(_) => Err(DetectionError::InvalidPattern),
    }
}

/// The key that a unit is logged under: the pinned one where one is pinned,
/// whatever was detected; else the detected one.
pub fn choose_target(pinned: Option<&String>, detected: Option<String>) -> (r: Option<String>)
    ensures
        match r {
            Some(key) => target_of(
                match pinned {
                    Some(p) => Some(p@),
                    None => None,
                },
                match detected {
                    Some(d) => Some(d@),
                    None => None,
                },
            ) == Some(key@),
            None => pinned is None && detected is None,
        },
{
    match pinned {
        Some(key) => Some(key.clone()),
        None => detected,
    }
}

/// A list of assigned issues and when it was fetched.
#[derive(Debug)]
pub struct AssignedIssuesCache {
    pub issues: Vec<AssignedIssue>,
    pub cached_at: Timestamp,
}

impl AssignedIssuesCache {
    /// A cached list is stale once its age in whole seconds has reached the
    /// time to live.
    pub open spec fn stale(self, now: Timestamp, ttl_secs: u64) -> bool {
        age_secs(self.cached_at, now) >= ttl_secs
    }

    /// True where the list is too old to be used at `now`.
    pub fn is_stale(&self, now: Timestamp, ttl_secs: u64) -> (b: bool)
        ensures
            b == self.stale(now, ttl_secs),
    {
        let age: i64 = self.cached_at.age_at(now);
        age >= 0 && age as u64 >= ttl_secs
    }
}

/// Copies a list of issues.
pub fn copy_issues(issues: &Vec<AssignedIssue>) -> (r: Vec<AssignedIssue>)
    ensures
        r@ == issues@,
{
    let mut out: Vec<AssignedIssue> = Vec::new();
    let mut i: usize = 0;
    while i < issues.len()
        invariant
            i <= issues.len(),
            out@ == issues@.take(i as int),
        decreases issues.len() - i,
    {
        out.push(issues[i].clone());
        assert(issues@.take(i + 1) =~= issues@.take(i as int).push(issues@[i as int]));
        i = i + 1;
    }
    assert(issues@.take(issues.len() as int) =~= issues@);
    out
}

/// What a `JiraClient` holds, as a plain value.
pub struct ClientView {
    pub base_url: Seq<char>,
    pub email: Seq<char>,
    pub api_token: Seq<char>,
    pub cache: Option<AssignedIssuesCache>,
    pub cache_duration_secs: u64,
}

impl ClientView {
    /// The cached list where there is one and it is not stale at `now`.
    pub open spec fn fresh_issues(self, now: Timestamp) -> Option<Seq<AssignedIssue>> {
        match self.cache {
            Some(c) => if c.stale(now, self.cache_duration_secs) {
                None
            } else {
                Some(c.issues@)
            },
            None => None,
        }
    }
}

/// The issue tracker's address, the user's credentials, and the cache of
/// the issues assigned to the user.
#[derive(Debug)]
pub struct JiraClient {
    base_url: String,
    email: String,
    api_token: String,
    assigned_issues_cache: Option<AssignedIssuesCache>,
    cache_duration_secs: u64,
}

impl View for JiraClient {
    type V = ClientView;

    closed spec fn view(&self) -> ClientView {
        ClientView {
            base_url: self.base_url@,
            email: self.email@,
            api_token: self.api_token@,
            cache: self.assigned_issues_cache,
            cache_duration_secs: self.cache_duration_secs,
        }
    }
}

/// The comment of a unit's work log.
pub open spec fn worklog_comment(activity: Activity) -> Seq<char> {
    "Auto-tracked: "@ + activity.app_name@ + " - "@ + activity.window_title@
}

/// The search that finds the unresolved issues of an account, last changed
/// first.
pub open spec fn assigned_issues_query(account_id: Seq<char>) -> Seq<char> {
    "assignee = \""@ + account_id + "\" AND resolution = Unresolved ORDER BY updated DESC"@
}

impl JiraClient {
    /// A client without cached issues that keeps a fetched list for two
    /// hours.
    pub fn new(base_url: String, email: String, api_token: String) -> (c: JiraClient)
        ensures
            c@ == (ClientView {
                base_url: base_url@,
                email: email@,
                api_token: api_token@,
                cache: None,
                cache_duration_secs: DEFAULT_CACHE_DURATION_SECS,
            }),
    {
        JiraClient {
            base_url,
            email,
            api_token,
            assigned_issues_cache: None,
            cache_duration_secs: DEFAULT_CACHE_DURATION_SECS,
        }
    }

    /// The same client, keeping a fetched list for `cache_duration_secs`.
    pub fn with_cache_duration(self, cache_duration_secs: u64) -> (c: JiraClient)
        ensures
            c@ == (ClientView { cache_duration_secs, ..self@ }),
    {
        JiraClient {
            base_url: self.base_url,
            email: self.email,
            api_token: self.api_token,
            assigned_issues_cache: self.assigned_issues_cache,
            cache_duration_secs,
        }
    }

    /// The user's e-mail address.
    pub fn email(&self) -> (r: &str)
        ensures
            r@ == self@.email,
    {
        self.email.as_str()
    }

    /// The user's token.
    pub fn api_token(&self) -> (r: &str)
        ensures
            r@ == self@.api_token,
    {
        self.api_token.as_str()
    }

    /// The address work on `issue_key` is logged at.
    pub fn worklog_url(&self, issue_key: &str) -> (url: String)
        ensures
            url@ == self@.base_url + "/rest/api/3/issue/"@ + issue_key@ + "/worklog"@,
    {
        join4(self.base_url.as_str(), "/rest/api/3/issue/", issue_key, "/worklog")
    }

    /// The address that tells who the user is.
    pub fn myself_url(&self) -> (url: String)
        ensures
            url@ == self@.base_url + "/rest/api/3/myself"@,
    {
        join2(self.base_url.as_str(), "/rest/api/3/myself")
    }

    /// The address issues are searched at.
    pub fn search_url(&self) -> (url: String)
        ensures
            url@ == self@.base_url + "/rest/api/3/search"@,
    {
        join2(self.base_url.as_str(), "/rest/api/3/search")
    }

    /// The search that finds the unresolved issues of `account_id`.
    pub fn assigned_issues_jql(account_id: &str) -> (jql: String)
        ensures
            jql@ == assigned_issues_query(account_id@),
    {
        join3(
            "assignee = \"",
            account_id,
            "\" AND resolution = Unresolved ORDER BY updated DESC",
        )
    }

    /// The work log of a unit: its comment, its seconds, and its start in
    /// the issue tracker's time format. `None` where the calendar cannot
    /// write the unit's time.
    pub fn worklog_entry(activity: &Activity) -> (r: Option<WorklogEntry>)
        ensures
            match r {
                Some(entry) => entry.comment@ == worklog_comment(*activity)
                    && entry.time_spent_seconds == activity.duration_secs && strftime_text(
                    activity.timestamp.millis,
                    WORKLOG_TIME_PATTERN@,
                ) == Some(entry.started@),
                None => strftime_text(activity.timestamp.millis, WORKLOG_TIME_PATTERN@) is None,
            },
    {
        match activity.timestamp.format(WORKLOG_TIME_PATTERN) {
            Some(started) => Some(
                WorklogEntry {
                    comment: join4(
                        "Auto-tracked: ",
                        activity.app_name.as_str(),
                        " - ",
                        activity.window_title.as_str(),
                    ),
                    time_spent_seconds: activity.duration_secs,
                    started,
                },
            ),
            None => None,
        }
    }

    /// The first issue key in the unit's window title or application, if
    /// there is one.
    pub fn find_issue_from_activity(&self, activity: &Activity) -> (r: Result<
        Option<String>,
        DetectionError,
    >)
        ensures
            is_detection(searched_text(*activity), r),
    {
        let text = join3(activity.window_title.as_str(), " ", activity.app_name.as_str());
        find_issue_key(text.as_str())
    }

    /// The issues of a search result, each with its key and summary, in
    /// order.
    pub fn assigned_from_search(response: JiraSearchResponse) -> (issues: Vec<AssignedIssue>)
        ensures
            issues@.len() == response.issues@.len(),
            forall|i: int|
                0 <= i < issues@.len() ==> (#[trigger] issues@[i]).key == response.issues@[i].key
                    && issues@[i].summary == response.issues@[i].fields.summary,
    {
        let mut issues: Vec<AssignedIssue> = Vec::new();
        let mut i: usize = 0;
        while i < response.issues.len()
            invariant
                i <= response.issues@.len(),
                issues@.len() == i,
                forall|k: int|
                    0 <= k < i ==> (#[trigger] issues@[k]).key == response.issues@[k].key
                        && issues@[k].summary == response.issues@[k].fields.summary,
            decreases response.issues@.len() - i,
        {
            issues.push(
                AssignedIssue {
                    key: response.issues[i].key.clone(),
                    summary: response.issues[i].fields.summary.clone(),
                },
            );
            i = i + 1;
        }
        issues
    }

    /// The cached list of assigned issues, where there is one and it is not
    /// stale at `now`. `None` says that the list must be fetched.
    pub fn cached_assigned_issues_at(&self, now: Timestamp) -> (r: Option<Vec<AssignedIssue>>)
        ensures
            match r {
                Some(issues) => self@.fresh_issues(now) == Some(issues@),
                None => self@.fresh_issues(now) is None,
            },
    {
        match &self.assigned_issues_cache {
            Some(cache) => if cache.is_stale(now, self.cache_duration_secs) {
                None
            } else {
                Some(copy_issues(&cache.issues))
            },
            None => None,
        }
    }

    /// The cached list of assigned issues, where there is one and it is not
    /// stale at the current time of the system clock.
    pub fn cached_assigned_issues(&self) -> (r: Option<Vec<AssignedIssue>>)
        ensures
            exists|now: Timestamp|
                match r {
                    Some(issues) => #[trigger] self@.fresh_issues(now) == Some(issues@),
                    None => self@.fresh_issues(now) is None,
                },
    {
        let now = Timestamp::now();
        let r = self.cached_assigned_issues_at(now);
        assert(match r {
            Some(issues) => self@.fresh_issues(now) == Some(issues@),
            None => self@.fresh_issues(now) is None,
        });
        r
    }

    /// Keeps a list that was fetched at `now`.
    pub fn remember_assigned_issues_at(&mut self, issues: &Vec<AssignedIssue>, now: Timestamp)
        ensures
            final(self)@.cache matches Some(c) && c.issues@ == issues@ && c.cached_at == now,
            final(self)@.base_url == old(self)@.base_url,
            final(self)@.email == old(self)@.email,
            final(self)@.api_token == old(self)@.api_token,
            final(self)@.cache_duration_secs == old(self)@.cache_duration_secs,
    {
        self.assigned_issues_cache = Some(
            AssignedIssuesCache { issues: copy_issues(issues), cached_at: now },
        );
    }

    /// Keeps a list that was fetched just now.
    pub fn remember_assigned_issues(&mut self, issues: &Vec<AssignedIssue>)
        ensures
            final(self)@.cache matches Some(c) && c.issues@ == issues@,
            final(self)@.base_url == old(self)@.base_url,
            final(self)@.email == old(self)@.email,
            final(self)@.api_token == old(self)@.api_token,
            final(self)@.cache_duration_secs == old(self)@.cache_duration_secs,
    {
        let now = Timestamp::now();
        self.remember_assigned_issues_at(issues, now);
    }

    /// True where `issue_key` is the key of one of `assigned_issues`.
    pub fn is_assigned_to_me(assigned_issues: &[AssignedIssue], issue_key: &str) -> (b: bool)
        ensures
            b == has_key(assigned_issues@, issue_key@),
    {
        is_assigned(assigned_issues, issue_key)
    }

    /// Forgets the cached list.
    pub fn clear_cache(&mut self)
        ensures
            final(self)@ == (ClientView { cache: None, ..old(self)@ }),
    {
        self.assigned_issues_cache = None;
    }
}

/// A list that was just remembered is used until its time to live has
/// passed, and not after.
pub proof fn lemma_cache_lives_its_time(
    cache: AssignedIssuesCache,
    ttl_secs: u64,
    now: Timestamp,
)
    requires
        cache.cached_at.millis <= now.millis,
    ensures
        cache.stale(now, ttl_secs) <==> now.millis - cache.cached_at.millis >= ttl_secs * 1000,
{
}

} // verus!
