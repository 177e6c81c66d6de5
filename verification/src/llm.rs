//! What is sent to the classifier and what comes back from it.

use crate::confidence::Confidence;
use crate::database::StoredActivity;
use crate::time::Timestamp;
use vstd::prelude::*;
use vstd::string::StringExecFns;

verus! {

/// The longest text sample, in characters, that is sent for one unit.
pub const OCR_SAMPLE_LIMIT: usize = 500;

/// An issue assigned to the user.
#[derive(Debug)]
pub struct AssignedIssue {
    pub key: String,
    pub summary: String,
}

impl Clone for AssignedIssue {
    fn clone(&self) -> (r: AssignedIssue)
        ensures
            r == *self,
    {
        AssignedIssue { key: self.key.clone(), summary: self.summary.clone() }
    }
}

/// A text cut to `limit` characters, with three dots behind it where
/// something was cut off.
pub open spec fn sample_of(text: Seq<char>, limit: nat) -> Seq<char> {
    if text.len() > limit {
        text.take(limit as int) + "..."@
    } else {
        text
    }
}

/// `text` cut to `limit` characters, with three dots behind it where
/// something was cut off.
pub fn truncate_sample(text: &str, limit: usize) -> (r: String)
    ensures
        r@ == sample_of(text@, limit as nat),
{
    if text.unicode_len() > limit {
        let mut sample = text.substring_char(0, limit).to_owned();
        sample.append("...");
        sample
    } else {
        text.to_owned()
    }
}

/// A unit as the classifier sees it.
#[derive(Debug)]
pub struct ActivityForAnalysis {
    pub id: i64,
    pub timestamp: Timestamp,
    pub duration_secs: u64,
    pub app_name: String,
    pub window_title: String,
    /// The unit's text, cut to `OCR_SAMPLE_LIMIT` characters.
    pub ocr_sample: String,
}

impl ActivityForAnalysis {
    /// True where `self` is what the classifier is shown of `unit`: its id,
    /// time, duration, application and title, and its text cut to
    /// `OCR_SAMPLE_LIMIT` characters.
    pub open spec fn shows(self, unit: StoredActivity) -> bool {
        &&& self.id == unit.id
        &&& self.timestamp == unit.timestamp
        &&& self.duration_secs == unit.duration_secs
        &&& self.app_name == unit.app_name
        &&& self.window_title == unit.window_title
        &&& self.ocr_sample@ == sample_of(unit.description@, OCR_SAMPLE_LIMIT as nat)
    }

    /// What the classifier is shown of `unit`.
    pub fn of(unit: &StoredActivity) -> (r: ActivityForAnalysis)
        ensures
            r.shows(*unit),
    {
        ActivityForAnalysis {
            id: unit.id,
            timestamp: unit.timestamp,
            duration_secs: unit.duration_secs,
            app_name: unit.app_name.clone(),
            window_title: unit.window_title.clone(),
            ocr_sample: truncate_sample(unit.description.as_str(), OCR_SAMPLE_LIMIT),
        }
    }
}

impl From<&StoredActivity> for ActivityForAnalysis {
    /// What the classifier is shown of `unit`: its id, time, duration,
    /// application and title, and its text cut to `OCR_SAMPLE_LIMIT`
    /// characters.
    fn from(unit: &StoredActivity) -> (r: ActivityForAnalysis)
        ensures
            r.shows(*unit),
    {
        ActivityForAnalysis::of(unit)
    }
}

impl vstd::std_specs::convert::FromSpecImpl<&StoredActivity> for ActivityForAnalysis {
    /// The result is not a value that a spec function can name: the sample
    /// is a new string, known by its characters only. What it holds is
    /// stated on `from` itself.
    open spec fn obeys_from_spec() -> bool {
        false
    }

    open spec fn from_spec(unit: &StoredActivity) -> ActivityForAnalysis {
        choose|r: ActivityForAnalysis| r.shows(*unit)
    }
}

/// Who the session belongs to and which issues are theirs.
#[derive(Debug)]
pub struct UserContext {
    pub email: String,
    pub company: String,
    pub assigned_issues: Vec<AssignedIssue>,
}

/// The session's span and its time.
#[derive(Debug, Clone, Copy)]
pub struct SessionContext {
    pub start: Timestamp,
    pub end: Timestamp,
    pub tracking_duration_secs: u64,
    pub break_duration_secs: u64,
}

/// The units to classify, by tier.
#[derive(Debug)]
pub struct ActivitiesContext {
    pub billable: Vec<ActivityForAnalysis>,
    pub micro: Vec<ActivityForAnalysis>,
}

/// What the classifier is asked to do.
#[derive(Debug)]
pub struct TaskInstructions {
    pub primary: String,
    pub rules: Vec<String>,
}

/// One batch request to the classifier.
#[derive(Debug)]
pub struct LLMAnalysisRequest {
    pub user: UserContext,
    pub session: SessionContext,
    pub activities: ActivitiesContext,
    pub task: TaskInstructions,
}

/// The units that the classifier could not match.
#[derive(Debug)]
pub struct UnmatchedActivities {
    pub total_time_secs: u64,
    pub activities: Vec<i64>,
    pub likely_reason: String,
}

/// The time that the classifier puts on one issue.
#[derive(Debug)]
pub struct IssueMatch {
    pub key: String,
    pub total_time_secs: u64,
    pub summary: String,
    pub work_type: String,
    /// The ids of the units that the match subsumes.
    pub activities_included: Vec<i64>,
    pub confidence: Confidence,
}

/// The classifier's result for a batch.
#[derive(Debug)]
pub struct AnalysisResult {
    pub total_productive_time_secs: u64,
    pub confidence: Confidence,
    pub issues: Vec<IssueMatch>,
    pub unmatched: UnmatchedActivities,
    pub micro_activities_merged: bool,
    pub red_flags: Vec<String>,
}

/// The classifier's answer.
#[derive(Debug)]
pub struct LLMAnalysisResponse {
    pub analysis: AnalysisResult,
}

/// The instruction that heads every batch request.
pub open spec fn primary_instruction() -> Seq<char> {
    "Analyze this work session. Group activities by issue, generate summaries, calculate productive time. ONLY match to assigned issues. Return grouped results."@
}

/// The rules that follow the instruction, in order.
pub open spec fn instruction_rules() -> Seq<Seq<char>> {
    seq![
        "ONLY match to assigned_issues list"@,
        "Combine micro-activities with related billable activities when logical"@,
        "Generate summaries max 200 characters"@,
        "Return confidence scores (0-1)"@,
        "Flag unmatched activities (possible personal/other client work)"@,
        "Calculate actual productive time per issue"@,
    ]
}

/// True where `shown` shows the units of `units`, one for one and in order.
pub open spec fn shows_all(shown: Seq<ActivityForAnalysis>, units: Seq<StoredActivity>) -> bool {
    &&& shown.len() == units.len()
    &&& forall|i: int| 0 <= i < shown.len() ==> (#[trigger] shown[i]).shows(units[i])
}

/// What the classifier is shown of each unit, in order.
pub fn for_analysis(units: &Vec<StoredActivity>) -> (shown: Vec<ActivityForAnalysis>)
    ensures
        shows_all(shown@, units@),
{
    let mut shown: Vec<ActivityForAnalysis> = Vec::new();
    let mut i: usize = 0;
    while i < units.len()
        invariant
            i <= units.len(),
            shown@.len() == i,
            forall|k: int| 0 <= k < i ==> (#[trigger] shown@[k]).shows(units@[k]),
        decreases units.len() - i,
    {
        shown.push(ActivityForAnalysis::of(&units[i]));
        i = i + 1;
    }
    shown
}

/// The task that every batch request carries.
pub fn task_instructions() -> (task: TaskInstructions)
    ensures
        task.primary@ == primary_instruction(),
        task.rules@.len() == instruction_rules().len(),
        forall|i: int|
            0 <= i < task.rules@.len() ==> (#[trigger] task.rules@[i])@ == instruction_rules()[i],
{
    let mut rules: Vec<String> = Vec::new();
    rules.push("ONLY match to assigned_issues list".to_owned());
    rules.push("Combine micro-activities with related billable activities when logical".to_owned());
    rules.push("Generate summaries max 200 characters".to_owned());
    rules.push("Return confidence scores (0-1)".to_owned());
    rules.push("Flag unmatched activities (possible personal/other client work)".to_owned());
    rules.push("Calculate actual productive time per issue".to_owned());
    TaskInstructions {
        primary: "Analyze this work session. Group activities by issue, generate summaries, calculate productive time. ONLY match to assigned issues. Return grouped results.".to_owned(),
        rules,
    }
}

/// The classifier's address and key.
#[derive(Debug)]
pub struct LLMAnalyzer {
    endpoint: String,
    api_key: String,
    timeout_secs: u64,
}

impl LLMAnalyzer {
    /// The address that requests go to.
    pub closed spec fn endpoint_text(&self) -> Seq<char> {
        self.endpoint@
    }

    /// The key that requests carry.
    pub closed spec fn key_text(&self) -> Seq<char> {
        self.api_key@
    }

    /// The seconds after which a request is given up.
    pub closed spec fn timeout(&self) -> u64 {
        self.timeout_secs
    }

    /// A classifier at `endpoint`.
    pub fn new(endpoint: String, api_key: String, timeout_secs: u64) -> (r: LLMAnalyzer)
        ensures
            r.endpoint_text() == endpoint@,
            r.key_text() == api_key@,
            r.timeout() == timeout_secs,
    {
        LLMAnalyzer { endpoint, api_key, timeout_secs }
    }

    /// The address that requests go to.
    pub fn endpoint(&self) -> (r: &str)
        ensures
            r@ == self.endpoint_text(),
    {
        self.endpoint.as_str()
    }

    /// The seconds after which a request is given up.
    pub fn timeout_secs(&self) -> (r: u64)
        ensures
            r == self.timeout(),
    {
        self.timeout_secs
    }

    /// The value of the `Authorization` header: the word `Bearer`, a space
    /// and the key.
    pub fn authorization(&self) -> (r: String)
        ensures
            r@ == "Bearer "@ + self.key_text(),
    {
        let mut value = "Bearer ".to_owned();
        value.append(self.api_key.as_str());
        value
    }

    /// The batch request for a session: the user and the issues assigned to
    /// them, the session's span and time, the units by tier with their texts
    /// cut, and the task.
    pub fn analyze_batch(
        &self,
        user_email: String,
        company_name: String,
        assigned_issues: Vec<AssignedIssue>,
        session_start: Timestamp,
        session_end: Timestamp,
        tracking_duration_secs: u64,
        break_duration_secs: u64,
        billable_activities: &Vec<StoredActivity>,
        micro_activities: &Vec<StoredActivity>,
    ) -> (request: LLMAnalysisRequest)
        ensures
            request.carries(
                user_email@,
                company_name@,
                assigned_issues@,
                SessionContext {
                    start: session_start,
                    end: session_end,
                    tracking_duration_secs,
                    break_duration_secs,
                },
                billable_activities@,
                micro_activities@,
            ),
    {
        batch_request(
            user_email,
            company_name,
            assigned_issues,
            SessionContext {
                start: session_start,
                end: session_end,
                tracking_duration_secs,
                break_duration_secs,
            },
            billable_activities,
            micro_activities,
        )
    }
}

impl LLMAnalysisRequest {
    /// True where the request names the user and the issues assigned to
    /// them, gives the session's span and time, shows every unit of the two
    /// tiers in order with its text cut, and carries the task.
    pub open spec fn carries(
        self,
        email: Seq<char>,
        company: Seq<char>,
        assigned_issues: Seq<AssignedIssue>,
        session: SessionContext,
        billable: Seq<StoredActivity>,
        micro: Seq<StoredActivity>,
    ) -> bool {
        &&& self.user.email@ == email
        &&& self.user.company@ == company
        &&& self.user.assigned_issues@ == assigned_issues
        &&& self.session == session
        &&& shows_all(self.activities.billable@, billable)
        &&& shows_all(self.activities.micro@, micro)
        &&& self.task.primary@ == primary_instruction()
        &&& self.task.rules@.len() == instruction_rules().len()
        &&& forall|i: int|
            0 <= i < self.task.rules@.len() ==> (#[trigger] self.task.rules@[i])@
                == instruction_rules()[i]
    }
}

/// The batch request for a session.
pub fn batch_request(
    user_email: String,
    company_name: String,
    assigned_issues: Vec<AssignedIssue>,
    session: SessionContext,
    billable_activities: &Vec<StoredActivity>,
    micro_activities: &Vec<StoredActivity>,
) -> (request: LLMAnalysisRequest)
    ensures
        request.carries(
            user_email@,
            company_name@,
            assigned_issues@,
            session,
            billable_activities@,
            micro_activities@,
        ),
{
    LLMAnalysisRequest {
        user: UserContext { email: user_email, company: company_name, assigned_issues },
        session,
        activities: ActivitiesContext {
            billable: for_analysis(billable_activities),
            micro: for_analysis(micro_activities),
        },
        task: task_instructions(),
    }
}

/// True where some issue of `issues` has the key `key`.
pub open spec fn has_key(issues: Seq<AssignedIssue>, key: Seq<char>) -> bool {
    exists|i: int| 0 <= i < issues.len() && (#[trigger] issues[i]).key@ == key
}

/// True where some issue of `issues` has the key `key`.
pub fn is_assigned(issues: &[AssignedIssue], key: &str) -> (b: bool)
    ensures
        b == has_key(issues@, key@),
{
    let wanted = key.to_owned();
    let mut i: usize = 0;
    while i < issues.len()
        invariant
            i <= issues.len(),
            wanted@ == key@,
            forall|k: int| 0 <= k < i ==> (#[trigger] issues@[k]).key@ != key@,
        decreases issues.len() - i,
    {
        if issues[i].key == wanted {
            return true;
        }
        i = i + 1;
    }
    false
}

/// The issue that the classifier suggests for a single unit, where it is one
/// of the assigned ones; nothing where it suggests none or another.
pub fn accept_suggestion(suggested: Option<&str>, assigned_issues: &[AssignedIssue]) -> (r: Option<
    String,
>)
    ensures
        match r {
            Some(key) => suggested matches Some(s) && key@ == s@ && has_key(
                assigned_issues@,
                s@,
            ),
            None => suggested matches Some(s) ==> !has_key(assigned_issues@, s@),
        },
{
    match suggested {
        Some(key) => if is_assigned(assigned_issues, key) {
            Some(key.to_owned())
        } else {
            None
        },
        None => None,
    }
}

} // verus!
