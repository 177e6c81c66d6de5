//! The control surface: what a command, a status request, a pinned issue key
//! and an export request are answered with.

use crate::database::{Database, Store, StoredActivity};
use crate::state::{Session, TrackingState};
use crate::text::{
    decimal, decimal_text, double_each, doubled, to_uppercase, trim, trimmed, uppercase_text,
};
use crate::time::{rfc3339_text, Timestamp};
use crate::tracker::{text_view, Command, Outcome, TrackerError, TrackerView, WorkTracker};
use vstd::prelude::*;
use vstd::string::StringExecFns;

verus! {

/// The version that a status reports.
pub const VERSION: &'static str = "0.1.0";

/// The status of a successful request.
pub const HTTP_OK: u16 = 200;

/// The status of a command that the state does not allow.
pub const HTTP_BAD_REQUEST: u16 = 400;

/// The status of a command that the store refused.
pub const HTTP_INTERNAL_ERROR: u16 = 500;

/// The format of an export where the request names none.
pub fn default_format() -> (format: String)
    ensures
        format@ == "csv"@,
{
    "csv".to_owned()
}

/// The formats an export comes in.
#[derive(Debug, Clone, Copy, PartialEq, Eq, Structural)]
pub enum ExportFormat {
    Csv,
    Json,
}

/// Why an export was refused.
#[derive(Debug, Clone, Copy, PartialEq, Eq, Structural)]
pub enum ExportError {
    /// No session is open.
    NoActiveSession,
    /// The format is neither `csv` nor `json`.
    UnsupportedFormat,
    /// A unit's time lies outside the years the calendar can write.
    TimestampOutOfRange,
}

impl ExportError {
    /// The message shown for the error.
    pub open spec fn text(self) -> Seq<char> {
        match self {
            ExportError::NoActiveSession => "No active session found"@,
            ExportError::UnsupportedFormat => "Unsupported format"@,
            ExportError::TimestampOutOfRange => "Timestamp out of range"@,
        }
    }

    /// The message shown for the error.
    pub fn message(&self) -> (s: &'static str)
        ensures
            s@ == self.text(),
    {
        match self {
            ExportError::NoActiveSession => "No active session found",
            ExportError::UnsupportedFormat => "Unsupported format",
            ExportError::TimestampOutOfRange => "Timestamp out of range",
        }
    }
}

/// The format that a name stands for.
pub open spec fn format_of(name: Seq<char>) -> Option<ExportFormat> {
    if name == "csv"@ {
        Some(ExportFormat::Csv)
    } else if name == "json"@ {
        Some(ExportFormat::Json)
    } else {
        None
    }
}

/// The format that `name` stands for; any name but `csv` and `json` is
/// refused.
pub fn parse_format(name: &str) -> (r: Result<ExportFormat, ExportError>)
    ensures
        match format_of(name@) {
            Some(format) => r == Ok::<ExportFormat, ExportError>(format),
            None => r == Err::<ExportFormat, ExportError>(ExportError::UnsupportedFormat),
        },
{
    let wanted = name.to_owned();
    if wanted == "csv".to_owned() {
        Ok(ExportFormat::Csv)
    } else if wanted == "json".to_owned() {
        Ok(ExportFormat::Json)
    } else {
        Err(ExportError::UnsupportedFormat)
    }
}

/// The key that a request pins: the text without the whitespace around it,
/// in upper case; nothing where the request names none or only whitespace.
pub open spec fn cleaned_key(raw: Option<Seq<char>>) -> Option<Seq<char>> {
    match raw {
        Some(text) => if uppercase_text(trimmed(text)).len() == 0 {
            None
        } else {
            Some(uppercase_text(trimmed(text)))
        },
        None => None,
    }
}

/// The key that a request pins, trimmed and in upper case; `None` unpins.
pub fn clean_issue_key(raw: Option<String>) -> (key: Option<String>)
    ensures
        text_view(key) == cleaned_key(text_view(raw)),
{
    match raw {
        Some(text) => {
            let short = trim(text.as_str());
            let upper = to_uppercase(short.as_str());
            if upper.as_str().is_empty() {
                None
            } else {
                Some(upper)
            }
        },
        None => None,
    }
}

/// The first line of a CSV export.
pub open spec fn csv_header() -> Seq<char> {
    "Timestamp,Duration (seconds),Window Title,App Name,Description,Tier,Logged to Jira\n"@
}

/// `Yes` for an exported unit, `No` for another.
pub open spec fn yes_no(flag: bool) -> Seq<char> {
    if flag {
        "Yes"@
    } else {
        "No"@
    }
}

/// The line of a unit: its time, seconds, window title, application, text,
/// tier, and whether it is exported. Time and texts stand in double quotes,
/// and a double quote inside a text is written twice.
pub open spec fn csv_row(unit: StoredActivity, time_text: Seq<char>) -> Seq<char> {
    "\""@ + time_text + "\","@ + decimal_text(unit.duration_secs as nat) + ",\""@ + doubled(
        unit.window_title@,
        '"',
    ) + "\",\""@ + doubled(unit.app_name@, '"') + "\",\""@ + doubled(unit.description@, '"')
        + "\","@ + unit.tier.name() + ","@ + yes_no(unit.logged_to_jira) + "\n"@
}

/// The lines of the units, in order; `None` where the time of one of them
/// cannot be written.
pub open spec fn csv_rows(units: Seq<StoredActivity>) -> Option<Seq<char>>
    decreases units.len(),
{
    if units.len() == 0 {
        Some(Seq::empty())
    } else {
        match (csv_rows(units.drop_last()), rfc3339_text(units.last().timestamp.millis)) {
            (Some(head), Some(time_text)) => Some(head + csv_row(units.last(), time_text)),
            _ => None,
        }
    }
}

/// The CSV export of the units: the header and their lines.
pub open spec fn csv_text(units: Seq<StoredActivity>) -> Option<Seq<char>> {
    match csv_rows(units) {
        Some(rows) => Some(csv_header() + rows),
        None => None,
    }
}

/// The line of a unit whose time is written as `time_text`.
fn csv_line(unit: &StoredActivity, time_text: &str) -> (line: String)
    ensures
        line@ == csv_row(*unit, time_text@),
{
    let mut line = "\"".to_owned();
    line.append(time_text);
    line.append("\",");
    line.append(decimal(unit.duration_secs).as_str());
    line.append(",\"");
    line.append(double_each(unit.window_title.as_str(), '"').as_str());
    line.append("\",\"");
    line.append(double_each(unit.app_name.as_str(), '"').as_str());
    line.append("\",\"");
    line.append(double_each(unit.description.as_str(), '"').as_str());
    line.append("\",");
    line.append(unit.tier.as_str());
    line.append(",");
    line.append(if unit.logged_to_jira {
        "Yes"
    } else {
        "No"
    });
    line.append("\n");
    line
}

/// The CSV export of the units. Fails where the time of a unit cannot be
/// written, and only there.
pub fn export_csv(units: &[StoredActivity]) -> (r: Result<String, ExportError>)
    ensures
        match csv_text(units@) {
            Some(text) => r matches Ok(s) && s@ == text,
            None => r matches Err(e) && e == ExportError::TimestampOutOfRange,
        },
{
    let mut out =
        "Timestamp,Duration (seconds),Window Title,App Name,Description,Tier,Logged to Jira\n".to_owned();
    let mut i: usize = 0;
    while i < units.len()
        invariant
            i <= units@.len(),
            csv_rows(units@.take(i as int)) matches Some(rows) && out@ == csv_header() + rows,
        decreases units@.len() - i,
    {
        proof {
            assert(units@.take(i + 1).drop_last() == units@.take(i as int));
            assert(units@.take(i + 1).last() == units@[i as int]);
        }
        match units[i].timestamp.to_rfc3339() {
            Some(time_text) => {
                let ghost rows = csv_rows(units@.take(i as int)).unwrap();
                let line = csv_line(&units[i], time_text.as_str());
                out.append(line.as_str());
                assert(out@ =~= csv_header() + (rows + line@));
            },
            None => {
                proof {
                    lemma_csv_needs_every_time(units@, i as int);
                }
                return Err(ExportError::TimestampOutOfRange);
            },
        }
        i = i + 1;
    }
    assert(units@.take(units@.len() as int) == units@);
    Ok(out)
}

/// Where the time of one unit cannot be written, there is no CSV export.
proof fn lemma_csv_needs_every_time(units: Seq<StoredActivity>, i: int)
    requires
        0 <= i < units.len(),
        rfc3339_text(units[i].timestamp.millis) is None,
    ensures
        csv_rows(units) is None,
    decreases units.len(),
{
    if i < units.len() - 1 {
        lemma_csv_needs_every_time(units.drop_last(), i);
    }
}

/// What an export holds: the text of a CSV export, or the units of a JSON
/// export, which are written out where they are sent.
#[derive(Debug)]
pub enum ExportBody {
    Csv(String),
    Json(Vec<StoredActivity>),
}

/// What an export of the open session `found` in format `format` owes.
/// Without an open session the export fails, whatever the format; then an
/// unknown format fails; then the units of the session, exported or not, are
/// given in time order in the format asked for.
pub open spec fn export_owed(
    store: Store,
    found: Option<Session>,
    format: Seq<char>,
    r: Result<ExportBody, ExportError>,
) -> bool {
    match found {
        None => r matches Err(e) && e == ExportError::NoActiveSession,
        Some(session) => match format_of(format) {
            None => r matches Err(e) && e == ExportError::UnsupportedFormat,
            Some(ExportFormat::Json) => r matches Ok(ExportBody::Json(units)) && store.is_selection(
                units@,
                session.id,
                None,
                false,
            ),
            Some(ExportFormat::Csv) => exists|units: Seq<StoredActivity>|
                #![trigger store.is_selection(units, session.id, None, false)]
                store.is_selection(units, session.id, None, false) && match csv_text(units) {
                    Some(text) => r matches Ok(ExportBody::Csv(s)) && s@ == text,
                    None => r matches Err(e) && e == ExportError::TimestampOutOfRange,
                },
        },
    }
}

/// The export of the open session's units in the format `format`.
pub fn export_session(database: &Database, format: &str) -> (r: Result<ExportBody, ExportError>)
    ensures
        exists|found: Option<Session>|
            #![trigger database@.is_active_session(found)]
            database@.is_active_session(found) && export_owed(database@, found, format@, r),
{
    let found = match database.get_active_session() {
        Ok(found) => found,
        Err(_) => None,
    };
    let session = match found {
        Some(session) => session,
        None => {
            assert(database@.is_active_session(found) && export_owed(
                database@,
                found,
                format@,
                Err(ExportError::NoActiveSession),
            ));
            return Err(ExportError::NoActiveSession);
        },
    };
    let units = match database.get_session_activities(session.id, None) {
        Ok(units) => units,
        Err(_) => Vec::new(),
    };
    let r = match parse_format(format) {
        Err(e) => Err(e),
        Ok(ExportFormat::Json) => Ok(ExportBody::Json(units)),
        Ok(ExportFormat::Csv) => match export_csv(units.as_slice()) {
            Ok(text) => Ok(ExportBody::Csv(text)),
            Err(e) => Err(e),
        },
    };
    assert(database@.is_active_session(found) && export_owed(database@, found, format@, r));
    r
}

/// What a status request is answered with.
#[derive(Debug)]
pub struct StatusResponse {
    pub version: String,
    pub tracking_state: TrackingState,
    /// The length of the current session, while the tracker holds one.
    pub session_duration_secs: Option<u64>,
    /// The length of the current break, while the tracker holds one.
    pub break_duration_secs: Option<u64>,
    pub issue_override: Option<String>,
}

impl StatusResponse {
    /// True where `self` reports the tracker as it stands at `now`.
    pub open spec fn reports(self, tracker: TrackerView, now: Timestamp) -> bool {
        &&& self.version@ == VERSION@
        &&& self.tracking_state == tracker.control.machine.state
        &&& match tracker.control.machine.session {
            Some(s) => self.session_duration_secs == Some(s.duration_at(now) as u64),
            None => self.session_duration_secs is None,
        }
        &&& match tracker.control.machine.current_break {
            Some(b) => self.break_duration_secs == Some(b.duration_at(now) as u64),
            None => self.break_duration_secs is None,
        }
        &&& text_view(self.issue_override) == tracker.issue_override
    }
}

/// The status of the tracker at `now`.
pub fn status_at(tracker: &WorkTracker, now: Timestamp) -> (status: StatusResponse)
    ensures
        status.reports(tracker@, now),
{
    StatusResponse {
        version: VERSION.to_owned(),
        tracking_state: tracker.state_manager().current_state(),
        session_duration_secs: match tracker.state_manager().current_session() {
            Some(s) => Some(s.duration_secs_at(now)),
            None => None,
        },
        break_duration_secs: match tracker.state_manager().current_break() {
            Some(b) => Some(b.duration_secs_at(now)),
            None => None,
        },
        issue_override: match tracker.issue_override() {
            Some(key) => Some(key.clone()),
            None => None,
        },
    }
}

/// The status of the tracker at the current time of the system clock.
pub fn status(tracker: &WorkTracker) -> (status: StatusResponse)
    ensures
        exists|now: Timestamp| #[trigger] status.reports(tracker@, now),
{
    let now = Timestamp::now();
    let status = status_at(tracker, now);
    assert(status.reports(tracker@, now));
    status
}

/// Pins the key that a request names, cleaned, and reports the status.
pub fn pin_issue_at(tracker: &mut WorkTracker, raw: Option<String>, now: Timestamp) -> (status:
    StatusResponse)
    ensures
        final(tracker)@ == (TrackerView {
            issue_override: cleaned_key(text_view(raw)),
            ..old(tracker)@
        }),
        status.reports(final(tracker)@, now),
{
    tracker.set_issue_override(clean_issue_key(raw));
    status_at(tracker, now)
}

/// What a command is answered with.
#[derive(Debug)]
pub struct ControlResponse {
    pub success: bool,
    pub message: String,
    pub status: StatusResponse,
    /// The status code of the answer.
    pub http_status: u16,
    /// The session to export now, after a stop that asks for it.
    pub export_session: Option<i64>,
}

/// What is said of a command that was carried out.
pub open spec fn done_text(command: Command) -> Seq<char> {
    match command {
        Command::Start => "Tracking started"@,
        Command::Pause => "Tracking paused"@,
        Command::Resume => "Tracking resumed"@,
        Command::Stop => "Tracking stopped"@,
    }
}

/// The status code of an answer: a refused transition is the caller's
/// error, a refusal of the store is not.
pub open spec fn http_status_of(result: Result<(), TrackerError>) -> u16 {
    match result {
        Ok(_) => HTTP_OK,
        Err(TrackerError::State(_)) => HTTP_BAD_REQUEST,
        Err(TrackerError::Persistence(_)) => HTTP_INTERNAL_ERROR,
    }
}

/// What a command at `now` owes: the tracker makes the transition, and the
/// answer says whether it did, with the message of the refusal if not, the
/// status after it, and the session to export after a stop that asks for it.
pub open spec fn answered(
    before: TrackerView,
    command: Command,
    now: Timestamp,
    after: TrackerView,
    response: ControlResponse,
) -> bool {
    let outcome: Outcome = before.control.step(command, now);
    &&& after == (TrackerView { control: outcome.control, ..before })
    &&& response.success == (outcome.result is Ok)
    &&& response.message@ == match outcome.result {
        Ok(_) => done_text(command),
        Err(TrackerError::State(e)) => e.text(),
        Err(TrackerError::Persistence(e)) => e.text(),
    }
    &&& response.http_status == http_status_of(outcome.result)
    &&& response.status.reports(after, now)
    &&& response.export_session == (if command == Command::Stop && outcome.result is Ok
        && before.config.tracking.analyze_on_stop {
        Some(before.control.machine.session.unwrap().id)
    } else {
        None
    })
}

/// Carries out a command at `now` and answers it.
pub fn handle_command_at(tracker: &mut WorkTracker, command: Command, now: Timestamp) -> (response:
    ControlResponse)
    ensures
        answered(old(tracker)@, command, now, final(tracker)@, response),
{
    let mut export_session: Option<i64> = None;
    let result: Result<(), TrackerError> = match command {
        Command::Start => tracker.start_tracking_at(now),
        Command::Pause => tracker.pause_tracking_at(now),
        Command::Resume => tracker.resume_tracking_at(now),
        Command::Stop => match tracker.stop_tracking_at(now) {
            Ok(session) => {
                export_session = session;
                Ok(())
            },
            Err(e) => Err(e),
        },
    };
    let (message, http_status): (&'static str, u16) = match result {
        Ok(_) => (
            match command {
                Command::Start => "Tracking started",
                Command::Pause => "Tracking paused",
                Command::Resume => "Tracking resumed",
                Command::Stop => "Tracking stopped",
            },
            HTTP_OK,
        ),
        Err(TrackerError::State(e)) => (e.message(), HTTP_BAD_REQUEST),
        Err(TrackerError::Persistence(e)) => (e.message(), HTTP_INTERNAL_ERROR),
    };
    ControlResponse {
        success: result.is_ok(),
        message: message.to_owned(),
        status: status_at(tracker, now),
        http_status,
        export_session,
    }
}

/// Carries out a command at the current time of the system clock and
/// answers it.
pub fn handle_command(tracker: &mut WorkTracker, command: Command) -> (response: ControlResponse)
    ensures
        exists|now: Timestamp|
            #[trigger] answered(old(tracker)@, command, now, final(tracker)@, response),
{
    let now = Timestamp::now();
    let response = handle_command_at(tracker, command, now);
    assert(answered(old(tracker)@, command, now, tracker@, response));
    response
}

} // verus!
