//! The activity store: sessions, breaks, activity units and analysis
//! results, with the rules that say which unit is exported and what a
//! session's statistics are.

use crate::confidence::Confidence;
use crate::screenpipe::Activity;
use crate::state::{BreakPeriod, Session, TrackingState};
use crate::time::Timestamp;
use vstd::prelude::*;

verus! {

/// Durations below this many seconds are micro activities unless the store
/// was made with another threshold.
pub const DEFAULT_MICRO_THRESHOLD_SECS: u64 = 600;

/// The tier of an activity unit.
#[derive(Debug, Clone, Copy, PartialEq, Eq, Structural)]
pub enum ActivityTier {
    /// Shorter than the threshold.
    Micro,
    /// At least as long as the threshold.
    Billable,
}

impl ActivityTier {
    /// The tier of a duration under a threshold: `Micro` strictly below it,
    /// `Billable` from the threshold on.
    pub open spec fn classify(duration_secs: u64, threshold_secs: u64) -> ActivityTier {
        if duration_secs < threshold_secs {
            ActivityTier::Micro
        } else {
            ActivityTier::Billable
        }
    }

    /// The lower-case name under which the tier is stored and reported.
    pub open spec fn name(self) -> Seq<char> {
        match self {
            ActivityTier::Micro => "micro"@,
            ActivityTier::Billable => "billable"@,
        }
    }

    /// The tier of a duration under the default threshold of ten minutes.
    pub fn from_duration(duration_secs: u64) -> (tier: ActivityTier)
        ensures
            tier == ActivityTier::classify(duration_secs, DEFAULT_MICRO_THRESHOLD_SECS),
    {
        ActivityTier::from_duration_with(duration_secs, DEFAULT_MICRO_THRESHOLD_SECS)
    }

    /// The tier of a duration under `threshold_secs`.
    pub fn from_duration_with(duration_secs: u64, threshold_secs: u64) -> (tier: ActivityTier)
        ensures
            tier == ActivityTier::classify(duration_secs, threshold_secs),
    {
        if duration_secs < threshold_secs {
            ActivityTier::Micro
        } else {
            ActivityTier::Billable
        }
    }

    /// The lower-case name of the tier.
    pub fn as_str(&self) -> (s: &'static str)
        ensures
            s@ == self.name(),
    {
        match self {
            ActivityTier::Micro => "micro",
            ActivityTier::Billable => "billable",
        }
    }
}

/// An activity unit as the store holds it.
#[derive(Debug)]
pub struct StoredActivity {
    pub id: i64,
    pub session_id: i64,
    pub timestamp: Timestamp,
    pub duration_secs: u64,
    pub window_title: String,
    pub app_name: String,
    pub description: String,
    pub tier: ActivityTier,
    pub logged_to_jira: bool,
}

impl Clone for StoredActivity {
    fn clone(&self) -> (r: StoredActivity)
        ensures
            r == *self,
    {
        StoredActivity {
            id: self.id,
            session_id: self.session_id,
            timestamp: self.timestamp,
            duration_secs: self.duration_secs,
            window_title: self.window_title.clone(),
            app_name: self.app_name.clone(),
            description: self.description.clone(),
            tier: self.tier,
            logged_to_jira: self.logged_to_jira,
        }
    }
}

impl StoredActivity {
    /// The unit that an observation becomes before the store has seen it:
    /// no id, no session, tier by the default threshold, not exported.
    pub open spec fn unsaved(activity: Activity) -> StoredActivity {
        StoredActivity {
            id: 0,
            session_id: 0,
            timestamp: activity.timestamp,
            duration_secs: activity.duration_secs,
            window_title: activity.window_title,
            app_name: activity.app_name,
            description: activity.description,
            tier: ActivityTier::classify(activity.duration_secs, DEFAULT_MICRO_THRESHOLD_SECS),
            logged_to_jira: false,
        }
    }

    /// The row that the store writes for an observation.
    pub open spec fn row(
        id: i64,
        session_id: i64,
        activity: Activity,
        threshold_secs: u64,
    ) -> StoredActivity {
        StoredActivity {
            id,
            session_id,
            timestamp: activity.timestamp,
            duration_secs: activity.duration_secs,
            window_title: activity.window_title,
            app_name: activity.app_name,
            description: activity.description,
            tier: ActivityTier::classify(activity.duration_secs, threshold_secs),
            logged_to_jira: false,
        }
    }

    /// The observation that the unit was made from.
    pub open spec fn observation(self) -> Activity {
        Activity {
            timestamp: self.timestamp,
            duration_secs: self.duration_secs,
            window_title: self.window_title,
            app_name: self.app_name,
            description: self.description,
        }
    }

    /// The same unit, exported.
    pub open spec fn exported(self) -> StoredActivity {
        StoredActivity { logged_to_jira: true, ..self }
    }

    /// `self` comes before `other` where it is earlier, or as early and
    /// stored first.
    pub open spec fn precedes(self, other: StoredActivity) -> bool {
        self.timestamp.millis < other.timestamp.millis || (self.timestamp.millis
            == other.timestamp.millis && self.id < other.id)
    }

    /// The observation that the unit was made from.
    pub fn to_activity(&self) -> (a: Activity)
        ensures
            a == self.observation(),
    {
        Activity {
            timestamp: self.timestamp,
            duration_secs: self.duration_secs,
            window_title: self.window_title.clone(),
            app_name: self.app_name.clone(),
            description: self.description.clone(),
        }
    }
}

impl From<&Activity> for StoredActivity {
    fn from(activity: &Activity) -> (r: StoredActivity) {
        StoredActivity {
            id: 0,
            session_id: 0,
            timestamp: activity.timestamp,
            duration_secs: activity.duration_secs,
            window_title: activity.window_title.clone(),
            app_name: activity.app_name.clone(),
            description: activity.description.clone(),
            tier: ActivityTier::from_duration(activity.duration_secs),
            logged_to_jira: false,
        }
    }
}

impl vstd::std_specs::convert::FromSpecImpl<&Activity> for StoredActivity {
    open spec fn obeys_from_spec() -> bool {
        true
    }

    open spec fn from_spec(activity: &Activity) -> StoredActivity {
        StoredActivity::unsaved(*activity)
    }
}

/// One stored result of a classifier run.
#[derive(Debug)]
pub struct AnalysisResult {
    pub id: i64,
    pub session_id: i64,
    pub analyzed_at: Timestamp,
    /// The classifier's answer as it was received.
    pub llm_response: String,
    pub confidence: Confidence,
}

impl Clone for AnalysisResult {
    fn clone(&self) -> (r: AnalysisResult)
        ensures
            r == *self,
    {
        AnalysisResult {
            id: self.id,
            session_id: self.session_id,
            analyzed_at: self.analyzed_at,
            llm_response: self.llm_response.clone(),
            confidence: self.confidence,
        }
    }
}

/// Why the store refused an operation.
#[derive(Debug, Clone, Copy, PartialEq, Eq, Structural)]
pub enum PersistenceError {
    /// The table holds as many rows as there are row ids.
    StoreFull,
    /// No session has the id that was asked for.
    SessionNotFound,
    /// The rows handed in are not those of a store.
    CorruptRows,
}

impl PersistenceError {
    /// The message shown for the error.
    pub open spec fn text(self) -> Seq<char> {
        match self {
            PersistenceError::StoreFull => "Store is full"@,
            PersistenceError::SessionNotFound => "Session not found"@,
            PersistenceError::CorruptRows => "Stored rows are corrupt"@,
        }
    }

    /// The message shown for the error.
    pub fn message(&self) -> (s: &'static str)
        ensures
            s@ == self.text(),
    {
        match self {
            PersistenceError::StoreFull => "Store is full",
            PersistenceError::SessionNotFound => "Session not found",
            PersistenceError::CorruptRows => "Stored rows are corrupt",
        }
    }
}

/// The position of the row with id `id` in a table of `len` rows: row ids
/// count from one in the order of insertion.
pub open spec fn row_position(id: i64, len: nat) -> Option<int> {
    if 1 <= id <= len {
        Some(id - 1)
    } else {
        None
    }
}

/// The largest number of rows a table can hold.
pub open spec fn max_rows() -> nat {
    if usize::MAX < i64::MAX {
        usize::MAX as nat
    } else {
        i64::MAX as nat
    }
}

/// What the store holds, as a plain value.
#[verifier::ext_equal]
pub struct Store {
    pub sessions: Seq<Session>,
    pub breaks: Seq<BreakPeriod>,
    pub activities: Seq<StoredActivity>,
    pub analyses: Seq<AnalysisResult>,
    pub micro_threshold_secs: u64,
}

impl Store {
    /// The store without rows.
    pub open spec fn empty(micro_threshold_secs: u64) -> Store {
        Store {
            sessions: Seq::empty(),
            breaks: Seq::empty(),
            activities: Seq::empty(),
            analyses: Seq::empty(),
            micro_threshold_secs,
        }
    }

    /// Row ids count from one in each table, no table holds more rows than
    /// there are ids, and each unit's tier is the tier of its duration.
    pub open spec fn well_formed(self) -> bool {
        &&& self.sessions.len() <= max_rows()
        &&& self.breaks.len() <= max_rows()
        &&& self.activities.len() <= max_rows()
        &&& self.analyses.len() <= max_rows()
        &&& forall|i: int| 0 <= i < self.sessions.len() ==> (#[trigger] self.sessions[i]).id == i + 1
        &&& forall|i: int| 0 <= i < self.breaks.len() ==> (#[trigger] self.breaks[i]).id == i + 1
        &&& forall|i: int|
            0 <= i < self.activities.len() ==> (#[trigger] self.activities[i]).id == i + 1
        &&& forall|i: int| 0 <= i < self.analyses.len() ==> (#[trigger] self.analyses[i]).id == i + 1
        &&& forall|i: int|
            0 <= i < self.activities.len() ==> (#[trigger] self.activities[i]).tier
                == ActivityTier::classify(self.activities[i].duration_secs, self.micro_threshold_secs)
    }

    /// The store after a session opened at `now`.
    pub open spec fn with_session(self, now: Timestamp) -> Store {
        Store {
            sessions: self.sessions.push(Session::opened((self.sessions.len() + 1) as i64, now)),
            ..self
        }
    }

    /// The store after session `id` ended at `now`; unchanged where no
    /// session has that id.
    pub open spec fn session_ended(self, id: i64, now: Timestamp) -> Store {
        match row_position(id, self.sessions.len()) {
            Some(i) => Store {
                sessions: self.sessions.update(
                    i,
                    Session {
                        end_time: Some(now),
                        state: TrackingState::Stopped,
                        ..self.sessions[i]
                    },
                ),
                ..self
            },
            None => self,
        }
    }

    /// True where `found` is the open session that was stored last, or
    /// `None` and no session is open.
    pub open spec fn is_active_session(self, found: Option<Session>) -> bool {
        match found {
            Some(s) => exists|i: int|
                0 <= i < self.sessions.len() && #[trigger] self.sessions[i] == s && s.end_time
                    is None && forall|j: int|
                    i < j < self.sessions.len() ==> (#[trigger] self.sessions[j]).end_time is Some,
            None => forall|j: int|
                0 <= j < self.sessions.len() ==> (#[trigger] self.sessions[j]).end_time is Some,
        }
    }

    /// The store after a break of session `session_id` opened at `now`.
    pub open spec fn with_break(self, session_id: i64, now: Timestamp) -> Store {
        Store {
            breaks: self.breaks.push(
                BreakPeriod::opened((self.breaks.len() + 1) as i64, session_id, now),
            ),
            ..self
        }
    }

    /// The store after break `id` ended at `now`; unchanged where no break
    /// has that id.
    pub open spec fn break_ended(self, id: i64, now: Timestamp) -> Store {
        match row_position(id, self.breaks.len()) {
            Some(i) => Store {
                breaks: self.breaks.update(
                    i,
                    BreakPeriod { end_time: Some(now), ..self.breaks[i] },
                ),
                ..self
            },
            None => self,
        }
    }

    /// The store after an observation was stored for session `session_id`.
    pub open spec fn with_activity(self, session_id: i64, activity: Activity) -> Store {
        Store {
            activities: self.activities.push(
                StoredActivity::row(
                    (self.activities.len() + 1) as i64,
                    session_id,
                    activity,
                    self.micro_threshold_secs,
                ),
            ),
            ..self
        }
    }

    /// The store after the units with an id in `ids` were marked exported.
    /// Ids that no unit has, and units that are exported already, change
    /// nothing.
    pub open spec fn marked(self, ids: Seq<i64>) -> Store {
        Store {
            activities: Seq::new(
                self.activities.len(),
                |i: int|
                    if ids.contains(self.activities[i].id) {
                        self.activities[i].exported()
                    } else {
                        self.activities[i]
                    },
            ),
            ..self
        }
    }

    /// The store after a classifier result was stored at `now`.
    pub open spec fn with_analysis(
        self,
        session_id: i64,
        llm_response: String,
        confidence: Confidence,
        now: Timestamp,
    ) -> Store {
        Store {
            analyses: self.analyses.push(
                AnalysisResult {
                    id: (self.analyses.len() + 1) as i64,
                    session_id,
                    analyzed_at: now,
                    llm_response,
                    confidence,
                },
            ),
            ..self
        }
    }
}

/// The store of sessions, breaks, activity units and analysis results.
pub struct Database {
    sessions: Vec<Session>,
    breaks: Vec<BreakPeriod>,
    activities: Vec<StoredActivity>,
    analyses: Vec<AnalysisResult>,
    micro_threshold_secs: u64,
}

impl View for Database {
    type V = Store;

    closed spec fn view(&self) -> Store {
        Store {
            sessions: self.sessions@,
            breaks: self.breaks@,
            activities: self.activities@,
            analyses: self.analyses@,
            micro_threshold_secs: self.micro_threshold_secs,
        }
    }
}

/// True where a table of `len` rows has room for one more.
fn has_room(len: usize) -> (b: bool)
    ensures
        b == (len < max_rows()),
{
    len < usize::MAX && (len as u64) < (i64::MAX as u64)
}

/// The position of the row with id `id` in a table of `len` rows.
fn position_of(id: i64, len: usize) -> (p: Option<usize>)
    ensures
        match p {
            Some(i) => row_position(id, len as nat) == Some(i as int),
            None => row_position(id, len as nat) is None,
        },
{
    if id >= 1 && (id as u64) <= (len as u64) {
        Some((id - 1) as usize)
    } else {
        None
    }
}

impl Database {
    #[verifier::type_invariant]
    closed spec fn inv(self) -> bool {
        self@.well_formed()
    }

    /// An empty store with the default micro threshold.
    pub fn new() -> (db: Database)
        ensures
            db@ == Store::empty(DEFAULT_MICRO_THRESHOLD_SECS),
            db@.well_formed(),
    {
        Database::with_micro_threshold(DEFAULT_MICRO_THRESHOLD_SECS)
    }

    /// An empty store in which durations below `threshold_secs` are micro.
    pub fn with_micro_threshold(threshold_secs: u64) -> (db: Database)
        ensures
            db@ == Store::empty(threshold_secs),
            db@.well_formed(),
    {
        Database {
            sessions: Vec::new(),
            breaks: Vec::new(),
            activities: Vec::new(),
            analyses: Vec::new(),
            micro_threshold_secs: threshold_secs,
        }
    }

    /// Opens a session at `now` and returns its id. Fails only where the
    /// table is full.
    pub fn create_session_at(&mut self, now: Timestamp) -> (r: Result<i64, PersistenceError>)
        ensures
            final(self)@.well_formed(),
            match r {
                Ok(id) => old(self)@.sessions.len() < max_rows() && final(self)@ == old(
                    self,
                )@.with_session(now) && id == old(self)@.sessions.len() + 1,
                Err(e) => old(self)@.sessions.len() >= max_rows() && e
                    == PersistenceError::StoreFull && final(self)@ == old(self)@,
            },
    {
        proof {
            use_type_invariant(&*self);
        }
        if !has_room(self.sessions.len()) {
            return Err(PersistenceError::StoreFull);
        }
        let id: i64 = (self.sessions.len() + 1) as i64;
        let mut rows: Vec<Session> = Vec::new();
        std::mem::swap(&mut self.sessions, &mut rows);
        rows.push(Session::new_at(id, now));
        std::mem::swap(&mut self.sessions, &mut rows);
        Ok(id)
    }

    /// Opens a session at the current time of the system clock and returns
    /// its id. Fails only where the table is full.
    pub fn create_session(&mut self) -> (r: Result<i64, PersistenceError>)
        ensures
            final(self)@.well_formed(),
            match r {
                Ok(id) => old(self)@.sessions.len() < max_rows() && id == old(self)@.sessions.len()
                    + 1 && exists|now: Timestamp|
                    final(self)@ == #[trigger] old(self)@.with_session(now),
                Err(e) => old(self)@.sessions.len() >= max_rows() && e
                    == PersistenceError::StoreFull && final(self)@ == old(self)@,
            },
    {
        let now = Timestamp::now();
        let r = self.create_session_at(now);
        assert(r is Ok ==> self@ == old(self)@.with_session(now));
        r
    }

    /// Ends session `session_id` at `now`: its end is set and its state
    /// becomes `Stopped`. An id that no session has changes nothing.
    pub fn end_session_at(&mut self, session_id: i64, now: Timestamp) -> (r: Result<
        (),
        PersistenceError,
    >)
        ensures
            r is Ok,
            final(self)@ == old(self)@.session_ended(session_id, now),
            final(self)@.well_formed(),
    {
        proof {
            use_type_invariant(&*self);
        }
        match position_of(session_id, self.sessions.len()) {
            Some(i) => {
                let s = self.sessions[i];
                let mut rows: Vec<Session> = Vec::new();
                std::mem::swap(&mut self.sessions, &mut rows);
                rows.set(
                    i,
                    Session {
                        id: s.id,
                        start_time: s.start_time,
                        end_time: Some(now),
                        state: TrackingState::Stopped,
                    },
                );
                std::mem::swap(&mut self.sessions, &mut rows);
            },
            None => {},
        }
        Ok(())
    }

    /// Ends session `session_id` at the current time of the system clock.
    pub fn end_session(&mut self, session_id: i64) -> (r: Result<(), PersistenceError>)
        ensures
            r is Ok,
            exists|now: Timestamp|
                final(self)@ == #[trigger] old(self)@.session_ended(session_id, now),
            final(self)@.well_formed(),
    {
        let now = Timestamp::now();
        let r = self.end_session_at(session_id, now);
        assert(self@ == old(self)@.session_ended(session_id, now));
        r
    }

    /// The open session that was stored last, if any session is open.
    pub fn get_active_session(&self) -> (r: Result<Option<Session>, PersistenceError>)
        ensures
            r matches Ok(found) && self@.is_active_session(found),
    {
        let mut i: usize = self.sessions.len();
        while i > 0
            invariant
                i <= self.sessions.len(),
                forall|j: int|
                    i <= j < self.sessions.len() ==> (#[trigger] self.sessions@[j]).end_time
                        is Some,
            decreases i,
        {
            i = i - 1;
            let s = self.sessions[i];
            if s.end_time.is_none() {
                assert(self@.sessions[i as int] == s);
                return Ok(Some(s));
            }
        }
        Ok(None)
    }

    /// Opens a break of session `session_id` at `now` and returns its id.
    /// Fails only where the table is full.
    pub fn create_break_at(&mut self, session_id: i64, now: Timestamp) -> (r: Result<
        i64,
        PersistenceError,
    >)
        ensures
            final(self)@.well_formed(),
            match r {
                Ok(id) => old(self)@.breaks.len() < max_rows() && final(self)@ == old(
                    self,
                )@.with_break(session_id, now) && id == old(self)@.breaks.len() + 1,
                Err(e) => old(self)@.breaks.len() >= max_rows() && e
                    == PersistenceError::StoreFull && final(self)@ == old(self)@,
            },
    {
        proof {
            use_type_invariant(&*self);
        }
        if !has_room(self.breaks.len()) {
            return Err(PersistenceError::StoreFull);
        }
        let id: i64 = (self.breaks.len() + 1) as i64;
        let mut rows: Vec<BreakPeriod> = Vec::new();
        std::mem::swap(&mut self.breaks, &mut rows);
        rows.push(BreakPeriod::new_at(id, session_id, now));
        std::mem::swap(&mut self.breaks, &mut rows);
        Ok(id)
    }

    /// Opens a break of session `session_id` at the current time of the
    /// system clock and returns its id. Fails only where the table is full.
    pub fn create_break(&mut self, session_id: i64) -> (r: Result<i64, PersistenceError>)
        ensures
            final(self)@.well_formed(),
            match r {
                Ok(id) => old(self)@.breaks.len() < max_rows() && id == old(self)@.breaks.len() + 1
                    && exists|now: Timestamp|
                    final(self)@ == #[trigger] old(self)@.with_break(session_id, now),
                Err(e) => old(self)@.breaks.len() >= max_rows() && e
                    == PersistenceError::StoreFull && final(self)@ == old(self)@,
            },
    {
        let now = Timestamp::now();
        let r = self.create_break_at(session_id, now);
        assert(r is Ok ==> self@ == old(self)@.with_break(session_id, now));
        r
    }

    /// Ends break `break_id` at `now`. An id that no break has changes
    /// nothing.
    pub fn end_break_at(&mut self, break_id: i64, now: Timestamp) -> (r: Result<
        (),
        PersistenceError,
    >)
        ensures
            r is Ok,
            final(self)@ == old(self)@.break_ended(break_id, now),
            final(self)@.well_formed(),
    {
        proof {
            use_type_invariant(&*self);
        }
        match position_of(break_id, self.breaks.len()) {
            Some(i) => {
                let b = self.breaks[i];
                let mut rows: Vec<BreakPeriod> = Vec::new();
                std::mem::swap(&mut self.breaks, &mut rows);
                rows.set(
                    i,
                    BreakPeriod {
                        id: b.id,
                        session_id: b.session_id,
                        start_time: b.start_time,
                        end_time: Some(now),
                    },
                );
                std::mem::swap(&mut self.breaks, &mut rows);
            },
            None => {},
        }
        Ok(())
    }

    /// Ends break `break_id` at the current time of the system clock.
    pub fn end_break(&mut self, break_id: i64) -> (r: Result<(), PersistenceError>)
        ensures
            r is Ok,
            exists|now: Timestamp| final(self)@ == #[trigger] old(self)@.break_ended(break_id, now),
            final(self)@.well_formed(),
    {
        let now = Timestamp::now();
        let r = self.end_break_at(break_id, now);
        assert(self@ == old(self)@.break_ended(break_id, now));
        r
    }

    /// Stores an observation as a new unit of session `session_id`, with
    /// the tier of its duration and not exported, and returns the unit's id.
    /// Fails only where the table is full.
    pub fn store_activity(&mut self, session_id: i64, activity: &Activity) -> (r: Result<
        i64,
        PersistenceError,
    >)
        ensures
            final(self)@.well_formed(),
            match r {
                Ok(id) => old(self)@.activities.len() < max_rows() && final(self)@ == old(
                    self,
                )@.with_activity(session_id, *activity) && id == old(self)@.activities.len() + 1,
                Err(e) => old(self)@.activities.len() >= max_rows() && e
                    == PersistenceError::StoreFull && final(self)@ == old(self)@,
            },
    {
        proof {
            use_type_invariant(&*self);
        }
        if !has_room(self.activities.len()) {
            return Err(PersistenceError::StoreFull);
        }
        let id: i64 = (self.activities.len() + 1) as i64;
        let row = StoredActivity {
            id,
            session_id,
            timestamp: activity.timestamp,
            duration_secs: activity.duration_secs,
            window_title: activity.window_title.clone(),
            app_name: activity.app_name.clone(),
            description: activity.description.clone(),
            tier: ActivityTier::from_duration_with(
                activity.duration_secs,
                self.micro_threshold_secs,
            ),
            logged_to_jira: false,
        };
        let mut rows: Vec<StoredActivity> = Vec::new();
        std::mem::swap(&mut self.activities, &mut rows);
        rows.push(row);
        std::mem::swap(&mut self.activities, &mut rows);
        Ok(id)
    }

    /// Marks the units with an id in `activity_ids` as exported. Ids that no
    /// unit has, and units that are exported already, change nothing.
    pub fn mark_activities_logged(&mut self, activity_ids: &[i64]) -> (r: Result<
        (),
        PersistenceError,
    >)
        ensures
            r is Ok,
            final(self)@ == old(self)@.marked(activity_ids@),
            final(self)@.well_formed(),
    {
        proof {
            use_type_invariant(&*self);
        }
        let mut rows: Vec<StoredActivity> = Vec::new();
        std::mem::swap(&mut self.activities, &mut rows);
        let ghost before = rows@;
        let n: usize = rows.len();
        let mut i: usize = 0;
        while i < n
            invariant
                i <= n,
                n == before.len(),
                rows@.len() == n,
                forall|k: int|
                    0 <= k < i ==> #[trigger] rows@[k] == (if activity_ids@.contains(before[k].id) {
                        before[k].exported()
                    } else {
                        before[k]
                    }),
                forall|k: int| i <= k < n ==> #[trigger] rows@[k] == before[k],
            decreases n - i,
        {
            if id_listed(activity_ids, rows[i].id) {
                let mut row = rows[i].clone();
                row.logged_to_jira = true;
                rows.set(i, row);
            }
            i = i + 1;
        }
        assert(rows@ =~= old(self)@.marked(activity_ids@).activities);
        std::mem::swap(&mut self.activities, &mut rows);
        Ok(())
    }

    /// Stores a classifier result for session `session_id` at `now` and
    /// returns its id. Fails only where the table is full.
    pub fn store_analysis_at(
        &mut self,
        session_id: i64,
        llm_response: String,
        confidence: Confidence,
        now: Timestamp,
    ) -> (r: Result<i64, PersistenceError>)
        ensures
            final(self)@.well_formed(),
            match r {
                Ok(id) => old(self)@.analyses.len() < max_rows() && final(self)@ == old(
                    self,
                )@.with_analysis(session_id, llm_response, confidence, now) && id == old(
                    self,
                )@.analyses.len() + 1,
                Err(e) => old(self)@.analyses.len() >= max_rows() && e
                    == PersistenceError::StoreFull && final(self)@ == old(self)@,
            },
    {
        proof {
            use_type_invariant(&*self);
        }
        if !has_room(self.analyses.len()) {
            return Err(PersistenceError::StoreFull);
        }
        let id: i64 = (self.analyses.len() + 1) as i64;
        let mut rows: Vec<AnalysisResult> = Vec::new();
        std::mem::swap(&mut self.analyses, &mut rows);
        rows.push(AnalysisResult { id, session_id, analyzed_at: now, llm_response, confidence });
        std::mem::swap(&mut self.analyses, &mut rows);
        Ok(id)
    }

    /// Stores a classifier result for session `session_id` at the current
    /// time of the system clock and returns its id. Fails only where the
    /// table is full.
    pub fn store_analysis(
        &mut self,
        session_id: i64,
        llm_response: String,
        confidence: Confidence,
    ) -> (r: Result<i64, PersistenceError>)
        ensures
            final(self)@.well_formed(),
            match r {
                Ok(id) => old(self)@.analyses.len() < max_rows() && id == old(self)@.analyses.len()
                    + 1 && exists|now: Timestamp|
                    final(self)@ == #[trigger] old(self)@.with_analysis(
                        session_id,
                        llm_response,
                        confidence,
                        now,
                    ),
                Err(e) => old(self)@.analyses.len() >= max_rows() && e
                    == PersistenceError::StoreFull && final(self)@ == old(self)@,
            },
    {
        let now = Timestamp::now();
        let r = self.store_analysis_at(session_id, llm_response, confidence, now);
        assert(r is Ok ==> self@ == old(self)@.with_analysis(
            session_id,
            llm_response,
            confidence,
            now,
        ));
        r
    }
}

/// True where `id` occurs in `ids`.
fn id_listed(ids: &[i64], id: i64) -> (b: bool)
    ensures
        b == ids@.contains(id),
{
    let mut i: usize = 0;
    while i < ids.len()
        invariant
            i <= ids.len(),
            forall|k: int| 0 <= k < i ==> ids@[k] != id,
        decreases ids.len() - i,
    {
        if ids[i] == id {
            return true;
        }
        i = i + 1;
    }
    false
}

/// True where the unit belongs to session `session_id`, has the tier that is
/// asked for if one is, and is not exported if only such units are asked for.
pub open spec fn selects(
    row: StoredActivity,
    session_id: i64,
    tier: Option<ActivityTier>,
    unexported_only: bool,
) -> bool {
    &&& row.session_id == session_id
    &&& (tier matches Some(t) ==> row.tier == t)
    &&& (unexported_only ==> !row.logged_to_jira)
}

/// True where each unit comes before all that follow it: earlier first, and
/// of two as early the one stored first.
pub open spec fn in_time_order(rows: Seq<StoredActivity>) -> bool {
    forall|i: int, j: int|
        0 <= i < j < rows.len() ==> (#[trigger] rows[i]).precedes(#[trigger] rows[j])
}

/// The seconds that the breaks of session `session_id` took, an open break
/// counted up to `now`.
pub open spec fn break_secs(breaks: Seq<BreakPeriod>, session_id: i64, now: Timestamp) -> nat
    decreases breaks.len(),
{
    if breaks.len() == 0 {
        0
    } else {
        break_secs(breaks.drop_last(), session_id, now) + (if breaks.last().session_id
            == session_id {
            breaks.last().duration_at(now)
        } else {
            0
        })
    }
}

/// The seconds of the units of session `session_id` in tier `tier`.
pub open spec fn tier_secs(rows: Seq<StoredActivity>, session_id: i64, tier: ActivityTier) -> nat
    decreases rows.len(),
{
    if rows.len() == 0 {
        0
    } else {
        tier_secs(rows.drop_last(), session_id, tier) + (if selects(
            rows.last(),
            session_id,
            Some(tier),
            false,
        ) {
            rows.last().duration_secs as nat
        } else {
            0
        })
    }
}

/// The number of units of session `session_id`, of tier `tier` if one is
/// given.
pub open spec fn tier_count(
    rows: Seq<StoredActivity>,
    session_id: i64,
    tier: Option<ActivityTier>,
) -> nat
    decreases rows.len(),
{
    if rows.len() == 0 {
        0
    } else {
        tier_count(rows.drop_last(), session_id, tier) + (if selects(
            rows.last(),
            session_id,
            tier,
            false,
        ) {
            1nat
        } else {
            0nat
        })
    }
}

/// `n`, or the largest `u64` where `n` is larger.
pub open spec fn capped(n: nat) -> u64 {
    if n > u64::MAX {
        u64::MAX
    } else {
        n as u64
    }
}

/// What is known of a session's time and units.
#[derive(Debug, Clone, Copy)]
pub struct SessionStats {
    pub session_id: i64,
    pub start_time: Timestamp,
    pub end_time: Option<Timestamp>,
    pub total_duration_secs: u64,
    pub break_duration_secs: u64,
    pub billable_time_secs: u64,
    pub micro_time_secs: u64,
    pub total_activities: usize,
    pub billable_activities: usize,
    pub micro_activities: usize,
}

impl Store {
    /// True where `rows` holds exactly the units that `selects` accepts, in
    /// time order.
    pub open spec fn is_selection(
        self,
        rows: Seq<StoredActivity>,
        session_id: i64,
        tier: Option<ActivityTier>,
        unexported_only: bool,
    ) -> bool {
        &&& in_time_order(rows)
        &&& forall|k: int|
            0 <= k < rows.len() ==> self.activities.contains(#[trigger] rows[k]) && selects(
                rows[k],
                session_id,
                tier,
                unexported_only,
            )
        &&& forall|i: int|
            0 <= i < self.activities.len() && selects(
                #[trigger] self.activities[i],
                session_id,
                tier,
                unexported_only,
            ) ==> rows.contains(self.activities[i])
    }

    /// The statistics of session `session_id` as seen at `now`: the session's
    /// length and the time of its breaks, open ones counted up to `now`, and
    /// the time and number of its units by tier. Sums too large for a `u64`
    /// are reported as the largest `u64`. `None` where no session has the id.
    pub open spec fn stats(self, session_id: i64, now: Timestamp) -> Option<SessionStats> {
        match row_position(session_id, self.sessions.len()) {
            None => None,
            Some(i) => Some(
                SessionStats {
                    session_id,
                    start_time: self.sessions[i].start_time,
                    end_time: self.sessions[i].end_time,
                    total_duration_secs: capped(self.sessions[i].duration_at(now)),
                    break_duration_secs: capped(break_secs(self.breaks, session_id, now)),
                    billable_time_secs: capped(
                        tier_secs(self.activities, session_id, ActivityTier::Billable),
                    ),
                    micro_time_secs: capped(
                        tier_secs(self.activities, session_id, ActivityTier::Micro),
                    ),
                    total_activities: tier_count(self.activities, session_id, None) as usize,
                    billable_activities: tier_count(
                        self.activities,
                        session_id,
                        Some(ActivityTier::Billable),
                    ) as usize,
                    micro_activities: tier_count(
                        self.activities,
                        session_id,
                        Some(ActivityTier::Micro),
                    ) as usize,
                },
            ),
        }
    }
}

/// True where `selects` accepts the unit.
fn row_selected(
    row: &StoredActivity,
    session_id: i64,
    tier: Option<ActivityTier>,
    unexported_only: bool,
) -> (b: bool)
    ensures
        b == selects(*row, session_id, tier, unexported_only),
{
    if row.session_id != session_id {
        return false;
    }
    let tier_ok = match tier {
        Some(t) => row.tier == t,
        None => true,
    };
    tier_ok && (!unexported_only || !row.logged_to_jira)
}

/// The place in `rows` behind every unit that is not later than `at`.
fn insertion_point(rows: &Vec<StoredActivity>, at: Timestamp) -> (p: usize)
    requires
        in_time_order(rows@),
    ensures
        p <= rows@.len(),
        forall|k: int| 0 <= k < p ==> (#[trigger] rows@[k]).timestamp.millis <= at.millis,
        forall|k: int| p <= k < rows@.len() ==> (#[trigger] rows@[k]).timestamp.millis > at.millis,
{
    let mut p: usize = rows.len();
    while p > 0 && rows[p - 1].timestamp.millis > at.millis
        invariant
            p <= rows@.len(),
            forall|k: int|
                p <= k < rows@.len() ==> (#[trigger] rows@[k]).timestamp.millis > at.millis,
        decreases p,
    {
        p = p - 1;
    }
    assert forall|k: int| 0 <= k < p implies (#[trigger] rows@[k]).timestamp.millis
        <= at.millis by {
        if k < p - 1 {
            assert(rows@[k].precedes(rows@[p - 1]));
        }
    }
    p
}

/// `n` as a `u64`, or the largest `u64` where `n` is larger.
fn cap(n: u128) -> (c: u64)
    ensures
        c == capped(n as nat),
{
    if n > u64::MAX as u128 {
        u64::MAX
    } else {
        n as u64
    }
}

/// A count of units is never more than there are units.
proof fn lemma_count_bounded(rows: Seq<StoredActivity>, session_id: i64, tier: Option<ActivityTier>)
    ensures
        tier_count(rows, session_id, tier) <= rows.len(),
    decreases rows.len(),
{
    if rows.len() > 0 {
        lemma_count_bounded(rows.drop_last(), session_id, tier);
    }
}

impl Database {
    /// The units of session `session_id` in time order: of tier `tier` if one
    /// is given, and only those not yet exported if `unexported_only` is set.
    #[verifier::rlimit(40)]
    pub fn get_activities(
        &self,
        session_id: i64,
        tier: Option<ActivityTier>,
        unexported_only: bool,
    ) -> (r: Result<Vec<StoredActivity>, PersistenceError>)
        ensures
            r matches Ok(rows) && self@.is_selection(rows@, session_id, tier, unexported_only),
    {
        proof {
            use_type_invariant(self);
        }
        let mut out: Vec<StoredActivity> = Vec::new();
        let n: usize = self.activities.len();
        let mut i: usize = 0;
        while i < n
            invariant
                i <= n,
                n == self.activities@.len(),
                self@.well_formed(),
                in_time_order(out@),
                forall|k: int|
                    0 <= k < out@.len() ==> selects(
                        #[trigger] out@[k],
                        session_id,
                        tier,
                        unexported_only,
                    ) && 1 <= out@[k].id <= i && self.activities@[out@[k].id - 1] == out@[k],
                forall|m: int|
                    0 <= m < i && selects(
                        #[trigger] self.activities@[m],
                        session_id,
                        tier,
                        unexported_only,
                    ) ==> out@.contains(self.activities@[m]),
            decreases n - i,
        {
            if row_selected(&self.activities[i], session_id, tier, unexported_only) {
                let row = self.activities[i].clone();
                let p = insertion_point(&out, row.timestamp);
                let ghost prev = out@;
                out.insert(p, row);
                proof {
                    assert(row == self.activities@[i as int]);
                    assert(row.id == i + 1);
                    assert forall|a: int, b: int| 0 <= a < b < out@.len() implies (
                    #[trigger] out@[a]).precedes(#[trigger] out@[b]) by {
                        if b < p {
                            assert(out@[a] == prev[a] && out@[b] == prev[b]);
                        } else if b == p {
                            assert(out@[a] == prev[a]);
                        } else if a < p {
                            assert(out@[a] == prev[a] && out@[b] == prev[b - 1]);
                        } else if a == p {
                            assert(out@[b] == prev[b - 1]);
                        } else {
                            assert(out@[a] == prev[a - 1] && out@[b] == prev[b - 1]);
                        }
                    }
                    assert forall|k: int| 0 <= k < out@.len() implies selects(
                        #[trigger] out@[k],
                        session_id,
                        tier,
                        unexported_only,
                    ) && 1 <= out@[k].id <= i + 1 && self.activities@[out@[k].id - 1]
                        == out@[k] by {
                        if k < p {
                            assert(out@[k] == prev[k]);
                        } else if k > p {
                            assert(out@[k] == prev[k - 1]);
                        }
                    }
                    assert forall|m: int|
                        0 <= m < i + 1 && selects(
                            #[trigger] self.activities@[m],
                            session_id,
                            tier,
                            unexported_only,
                        ) implies out@.contains(self.activities@[m]) by {
                        if m == i {
                            assert(out@[p as int] == self.activities@[m]);
                        } else {
                            let k = choose|k: int|
                                0 <= k < prev.len() && prev[k] == self.activities@[m];
                            if k < p {
                                assert(out@[k] == prev[k]);
                            } else {
                                assert(out@[k + 1] == prev[k]);
                            }
                        }
                    }
                }
            }
            i = i + 1;
        }
        proof {
            assert forall|k: int| 0 <= k < out@.len() implies self@.activities.contains(
                #[trigger] out@[k],
            ) by {
                assert(self@.activities[out@[k].id - 1] == out@[k]);
            }
        }
        Ok(out)
    }

    /// The units of session `session_id` in time order, of tier `tier` if one
    /// is given, exported or not.
    pub fn get_session_activities(&self, session_id: i64, tier: Option<ActivityTier>) -> (r: Result<
        Vec<StoredActivity>,
        PersistenceError,
    >)
        ensures
            r matches Ok(rows) && self@.is_selection(rows@, session_id, tier, false),
    {
        self.get_activities(session_id, tier, false)
    }

    /// The seconds that the breaks of session `session_id` took, an open
    /// break counted up to `now`.
    pub fn get_session_break_time_at(&self, session_id: i64, now: Timestamp) -> (r: Result<
        u64,
        PersistenceError,
    >)
        ensures
            r == Ok::<u64, PersistenceError>(capped(break_secs(self@.breaks, session_id, now))),
    {
        let n: usize = self.breaks.len();
        let mut total: u128 = 0;
        let mut i: usize = 0;
        while i < n
            invariant
                i <= n,
                n == self.breaks@.len(),
                total == break_secs(self.breaks@.take(i as int), session_id, now),
                total <= i * 0xffff_ffff_ffff_ffff,
            decreases n - i,
        {
            let b = self.breaks[i];
            proof {
                assert(self.breaks@.take(i + 1).drop_last() == self.breaks@.take(i as int));
                assert(self.breaks@.take(i + 1).last() == b);
            }
            if b.session_id == session_id {
                let d: u64 = b.duration_secs_at(now);
                total = total + d as u128;
            }
            i = i + 1;
        }
        assert(self.breaks@.take(n as int) == self.breaks@);
        Ok(cap(total))
    }

    /// The seconds that the breaks of session `session_id` took, an open
    /// break counted up to the current time of the system clock.
    pub fn get_session_break_time(&self, session_id: i64) -> (r: Result<u64, PersistenceError>)
        ensures
            exists|now: Timestamp|
                r == Ok::<u64, PersistenceError>(
                    capped(#[trigger] break_secs(self@.breaks, session_id, now)),
                ),
    {
        let now = Timestamp::now();
        let r = self.get_session_break_time_at(session_id, now);
        assert(r == Ok::<u64, PersistenceError>(capped(break_secs(self@.breaks, session_id, now))));
        r
    }

    /// The seconds and the number of the units of session `session_id` in
    /// tier `tier`.
    fn tier_totals(&self, session_id: i64, tier: ActivityTier) -> (r: (u64, usize))
        ensures
            r.0 == capped(tier_secs(self@.activities, session_id, tier)),
            r.1 == tier_count(self@.activities, session_id, Some(tier)),
    {
        let n: usize = self.activities.len();
        let mut total: u128 = 0;
        let mut count: usize = 0;
        let mut i: usize = 0;
        while i < n
            invariant
                i <= n,
                n == self.activities@.len(),
                total == tier_secs(self.activities@.take(i as int), session_id, tier),
                total <= i * 0xffff_ffff_ffff_ffff,
                count == tier_count(self.activities@.take(i as int), session_id, Some(tier)),
                count <= i,
            decreases n - i,
        {
            proof {
                assert(self.activities@.take(i + 1).drop_last() == self.activities@.take(
                    i as int,
                ));
                assert(self.activities@.take(i + 1).last() == self.activities@[i as int]);
            }
            if row_selected(&self.activities[i], session_id, Some(tier), false) {
                total = total + self.activities[i].duration_secs as u128;
                count = count + 1;
            }
            i = i + 1;
        }
        assert(self.activities@.take(n as int) == self.activities@);
        (cap(total), count)
    }

    /// The number of units of session `session_id`.
    fn unit_count(&self, session_id: i64) -> (count: usize)
        ensures
            count == tier_count(self@.activities, session_id, None),
    {
        let n: usize = self.activities.len();
        let mut count: usize = 0;
        let mut i: usize = 0;
        while i < n
            invariant
                i <= n,
                n == self.activities@.len(),
                count == tier_count(self.activities@.take(i as int), session_id, None),
                count <= i,
            decreases n - i,
        {
            proof {
                assert(self.activities@.take(i + 1).drop_last() == self.activities@.take(
                    i as int,
                ));
                assert(self.activities@.take(i + 1).last() == self.activities@[i as int]);
            }
            if row_selected(&self.activities[i], session_id, None, false) {
                count = count + 1;
            }
            i = i + 1;
        }
        assert(self.activities@.take(n as int) == self.activities@);
        count
    }

    /// The statistics of session `session_id` as seen at `now`. Fails where
    /// no session has the id, and only there.
    pub fn get_session_stats_at(&self, session_id: i64, now: Timestamp) -> (r: Result<
        SessionStats,
        PersistenceError,
    >)
        ensures
            match self@.stats(session_id, now) {
                Some(stats) => r == Ok::<SessionStats, PersistenceError>(stats),
                None => r == Err::<SessionStats, PersistenceError>(
                    PersistenceError::SessionNotFound,
                ),
            },
    {
        let i = match position_of(session_id, self.sessions.len()) {
            Some(i) => i,
            None => {
                return Err(PersistenceError::SessionNotFound);
            },
        };
        let session = self.sessions[i];
        let total_duration_secs = session.duration_secs_at(now);
        let break_duration_secs = match self.get_session_break_time_at(session_id, now) {
            Ok(secs) => secs,
            Err(e) => {
                return Err(e);
            },
        };
        let billable = self.tier_totals(session_id, ActivityTier::Billable);
        let micro = self.tier_totals(session_id, ActivityTier::Micro);
        let total_activities = self.unit_count(session_id);
        Ok(
            SessionStats {
                session_id,
                start_time: session.start_time,
                end_time: session.end_time,
                total_duration_secs,
                break_duration_secs,
                billable_time_secs: billable.0,
                micro_time_secs: micro.0,
                total_activities,
                billable_activities: billable.1,
                micro_activities: micro.1,
            },
        )
    }

    /// The statistics of session `session_id` as seen at the current time of
    /// the system clock. Fails where no session has the id, and only there.
    pub fn get_session_stats(&self, session_id: i64) -> (r: Result<SessionStats, PersistenceError>)
        ensures
            exists|now: Timestamp|
                match #[trigger] self@.stats(session_id, now) {
                    Some(stats) => r == Ok::<SessionStats, PersistenceError>(stats),
                    None => r == Err::<SessionStats, PersistenceError>(
                        PersistenceError::SessionNotFound,
                    ),
                },
    {
        let now = Timestamp::now();
        let r = self.get_session_stats_at(session_id, now);
        assert(match self@.stats(session_id, now) {
            Some(stats) => r == Ok::<SessionStats, PersistenceError>(stats),
            None => r == Err::<SessionStats, PersistenceError>(PersistenceError::SessionNotFound),
        });
        r
    }
}

impl Store {
    /// The store after every open session and every open break ended at
    /// `now`: what is left to do after a run that ended without a stop.
    pub open spec fn closed_at(self, now: Timestamp) -> Store {
        Store {
            sessions: Seq::new(
                self.sessions.len(),
                |i: int|
                    if self.sessions[i].end_time is None {
                        Session {
                            end_time: Some(now),
                            state: TrackingState::Stopped,
                            ..self.sessions[i]
                        }
                    } else {
                        self.sessions[i]
                    },
            ),
            breaks: Seq::new(
                self.breaks.len(),
                |i: int|
                    if self.breaks[i].end_time is None {
                        BreakPeriod { end_time: Some(now), ..self.breaks[i] }
                    } else {
                        self.breaks[i]
                    },
            ),
            ..self
        }
    }
}

/// True where the ids of the sessions count from one.
fn sessions_in_order(rows: &Vec<Session>) -> (b: bool)
    ensures
        b == (rows@.len() <= max_rows() && forall|i: int|
            0 <= i < rows@.len() ==> (#[trigger] rows@[i]).id == i + 1),
{
    if rows.len() > 0 && !has_room(rows.len() - 1) {
        return false;
    }
    let mut i: usize = 0;
    while i < rows.len()
        invariant
            i <= rows@.len(),
            rows@.len() <= max_rows(),
            forall|k: int| 0 <= k < i ==> (#[trigger] rows@[k]).id == k + 1,
        decreases rows@.len() - i,
    {
        if rows[i].id != (i + 1) as i64 {
            return false;
        }
        i = i + 1;
    }
    true
}

/// True where the ids of the breaks count from one.
fn breaks_in_order(rows: &Vec<BreakPeriod>) -> (b: bool)
    ensures
        b == (rows@.len() <= max_rows() && forall|i: int|
            0 <= i < rows@.len() ==> (#[trigger] rows@[i]).id == i + 1),
{
    if rows.len() > 0 && !has_room(rows.len() - 1) {
        return false;
    }
    let mut i: usize = 0;
    while i < rows.len()
        invariant
            i <= rows@.len(),
            rows@.len() <= max_rows(),
            forall|k: int| 0 <= k < i ==> (#[trigger] rows@[k]).id == k + 1,
        decreases rows@.len() - i,
    {
        if rows[i].id != (i + 1) as i64 {
            return false;
        }
        i = i + 1;
    }
    true
}

/// True where the ids of the units count from one and each unit has the
/// tier of its duration.
fn activities_in_order(rows: &Vec<StoredActivity>, threshold_secs: u64) -> (b: bool)
    ensures
        b == (rows@.len() <= max_rows() && forall|i: int|
            0 <= i < rows@.len() ==> (#[trigger] rows@[i]).id == i + 1 && rows@[i].tier
                == ActivityTier::classify(rows@[i].duration_secs, threshold_secs)),
{
    if rows.len() > 0 && !has_room(rows.len() - 1) {
        return false;
    }
    let mut i: usize = 0;
    while i < rows.len()
        invariant
            i <= rows@.len(),
            rows@.len() <= max_rows(),
            forall|k: int|
                0 <= k < i ==> (#[trigger] rows@[k]).id == k + 1 && rows@[k].tier
                    == ActivityTier::classify(rows@[k].duration_secs, threshold_secs),
        decreases rows@.len() - i,
    {
        if rows[i].id != (i + 1) as i64 || rows[i].tier != ActivityTier::from_duration_with(
            rows[i].duration_secs,
            threshold_secs,
        ) {
            return false;
        }
        i = i + 1;
    }
    true
}

/// True where the ids of the results count from one.
fn analyses_in_order(rows: &Vec<AnalysisResult>) -> (b: bool)
    ensures
        b == (rows@.len() <= max_rows() && forall|i: int|
            0 <= i < rows@.len() ==> (#[trigger] rows@[i]).id == i + 1),
{
    if rows.len() > 0 && !has_room(rows.len() - 1) {
        return false;
    }
    let mut i: usize = 0;
    while i < rows.len()
        invariant
            i <= rows@.len(),
            rows@.len() <= max_rows(),
            forall|k: int| 0 <= k < i ==> (#[trigger] rows@[k]).id == k + 1,
        decreases rows@.len() - i,
    {
        if rows[i].id != (i + 1) as i64 {
            return false;
        }
        i = i + 1;
    }
    true
}

impl Database {
    /// A store that holds the given rows. Fails where the rows are not those
    /// of a store: where the ids of a table do not count from one, or a unit
    /// has not the tier of its duration; and only there.
    pub fn from_rows(
        sessions: Vec<Session>,
        breaks: Vec<BreakPeriod>,
        activities: Vec<StoredActivity>,
        analyses: Vec<AnalysisResult>,
        micro_threshold_secs: u64,
    ) -> (r: Result<Database, PersistenceError>)
        ensures
            match r {
                Ok(db) => db@ == (Store {
                    sessions: sessions@,
                    breaks: breaks@,
                    activities: activities@,
                    analyses: analyses@,
                    micro_threshold_secs,
                }) && db@.well_formed(),
                Err(e) => e == PersistenceError::CorruptRows && !(Store {
                    sessions: sessions@,
                    breaks: breaks@,
                    activities: activities@,
                    analyses: analyses@,
                    micro_threshold_secs,
                }).well_formed(),
            },
    {
        if sessions_in_order(&sessions) && breaks_in_order(&breaks) && activities_in_order(
            &activities,
            micro_threshold_secs,
        ) && analyses_in_order(&analyses) {
            Ok(Database { sessions, breaks, activities, analyses, micro_threshold_secs })
        } else {
            Err(PersistenceError::CorruptRows)
        }
    }

    /// The sessions, in the order of their ids.
    pub fn session_rows(&self) -> (rows: &[Session])
        ensures
            rows@ == self@.sessions,
    {
        self.sessions.as_slice()
    }

    /// The breaks, in the order of their ids.
    pub fn break_rows(&self) -> (rows: &[BreakPeriod])
        ensures
            rows@ == self@.breaks,
    {
        self.breaks.as_slice()
    }

    /// The units, in the order of their ids.
    pub fn activity_rows(&self) -> (rows: &[StoredActivity])
        ensures
            rows@ == self@.activities,
    {
        self.activities.as_slice()
    }

    /// The classifier results, in the order of their ids.
    pub fn analysis_rows(&self) -> (rows: &[AnalysisResult])
        ensures
            rows@ == self@.analyses,
    {
        self.analyses.as_slice()
    }

    /// The seconds below which a unit is micro.
    pub fn micro_threshold_secs(&self) -> (secs: u64)
        ensures
            secs == self@.micro_threshold_secs,
    {
        self.micro_threshold_secs
    }

    /// Ends every open session and every open break at `now`.
    pub fn close_open_at(&mut self, now: Timestamp)
        ensures
            final(self)@ == old(self)@.closed_at(now),
            final(self)@.well_formed(),
    {
        proof {
            use_type_invariant(&*self);
        }
        let mut sessions: Vec<Session> = Vec::new();
        std::mem::swap(&mut self.sessions, &mut sessions);
        let ghost sessions_before = sessions@;
        let mut i: usize = 0;
        while i < sessions.len()
            invariant
                i <= sessions@.len(),
                sessions@.len() == sessions_before.len(),
                forall|k: int|
                    0 <= k < i ==> #[trigger] sessions@[k] == (if sessions_before[k].end_time
                        is None {
                        Session {
                            end_time: Some(now),
                            state: TrackingState::Stopped,
                            ..sessions_before[k]
                        }
                    } else {
                        sessions_before[k]
                    }),
                forall|k: int| i <= k < sessions@.len() ==> #[trigger] sessions@[k] == sessions_before[k],
            decreases sessions@.len() - i,
        {
            let s = sessions[i];
            if s.end_time.is_none() {
                sessions.set(
                    i,
                    Session {
                        id: s.id,
                        start_time: s.start_time,
                        end_time: Some(now),
                        state: TrackingState::Stopped,
                    },
                );
            }
            i = i + 1;
        }
        assert(sessions@ =~= old(self)@.closed_at(now).sessions);
        std::mem::swap(&mut self.sessions, &mut sessions);

        let mut breaks: Vec<BreakPeriod> = Vec::new();
        std::mem::swap(&mut self.breaks, &mut breaks);
        let ghost breaks_before = breaks@;
        let mut j: usize = 0;
        while j < breaks.len()
            invariant
                j <= breaks@.len(),
                breaks@.len() == breaks_before.len(),
                forall|k: int|
                    0 <= k < j ==> #[trigger] breaks@[k] == (if breaks_before[k].end_time is None {
                        BreakPeriod { end_time: Some(now), ..breaks_before[k] }
                    } else {
                        breaks_before[k]
                    }),
                forall|k: int| j <= k < breaks@.len() ==> #[trigger] breaks@[k] == breaks_before[k],
            decreases breaks@.len() - j,
        {
            let b = breaks[j];
            if b.end_time.is_none() {
                breaks.set(
                    j,
                    BreakPeriod {
                        id: b.id,
                        session_id: b.session_id,
                        start_time: b.start_time,
                        end_time: Some(now),
                    },
                );
            }
            j = j + 1;
        }
        assert(breaks@ =~= old(self)@.closed_at(now).breaks);
        std::mem::swap(&mut self.breaks, &mut breaks);
    }
}

/// After `closed_at` no session and no break is open; rows that were closed
/// before are as they were, and units and results are untouched.
pub proof fn lemma_closed_store(store: Store, now: Timestamp)
    ensures
        store.well_formed() ==> store.closed_at(now).well_formed(),
        forall|i: int|
            0 <= i < store.sessions.len() ==> (#[trigger] store.closed_at(now).sessions[i]).end_time
                is Some,
        forall|i: int|
            0 <= i < store.breaks.len() ==> (#[trigger] store.closed_at(now).breaks[i]).end_time
                is Some,
        forall|i: int|
            0 <= i < store.sessions.len() && store.sessions[i].end_time is Some ==> (
            #[trigger] store.closed_at(now).sessions[i]) == store.sessions[i],
        forall|i: int|
            0 <= i < store.breaks.len() && store.breaks[i].end_time is Some ==> (
            #[trigger] store.closed_at(now).breaks[i]) == store.breaks[i],
        store.closed_at(now).activities == store.activities,
        store.closed_at(now).analyses == store.analyses,
{
}

/// Marking keeps the store well formed, and after it a unit is exported
/// exactly where it was exported before or its id is listed; nothing else of
/// any unit changes.
pub proof fn lemma_marked_units(store: Store, ids: Seq<i64>)
    requires
        store.well_formed(),
    ensures
        store.marked(ids).well_formed(),
        store.marked(ids).activities.len() == store.activities.len(),
        forall|i: int|
            0 <= i < store.activities.len() ==> (#[trigger] store.marked(ids).activities[i])
                == (StoredActivity {
                logged_to_jira: store.activities[i].logged_to_jira || ids.contains(
                    store.activities[i].id,
                ),
                ..store.activities[i]
            }),
{
}

/// Marking is idempotent: to mark the same ids a second time changes
/// nothing.
pub proof fn lemma_marking_is_idempotent(store: Store, ids: Seq<i64>)
    ensures
        store.marked(ids).marked(ids) == store.marked(ids),
{
    assert(store.marked(ids).marked(ids).activities =~= store.marked(ids).activities);
}

/// Ids that no unit has are no-ops: with them mixed in, marking gives the
/// same store as without them.
pub proof fn lemma_unknown_ids_change_nothing(store: Store, ids: Seq<i64>, unknown: Seq<i64>)
    requires
        forall|i: int, k: int|
            0 <= i < store.activities.len() && 0 <= k < unknown.len() ==> (
            #[trigger] store.activities[i]).id != #[trigger] unknown[k],
    ensures
        store.marked(ids + unknown) == store.marked(ids),
        store.marked(unknown + ids) == store.marked(ids),
        store.marked(unknown) == store,
{
    assert forall|i: int| 0 <= i < store.activities.len() implies (ids + unknown).contains(
        #[trigger] store.activities[i].id,
    ) == ids.contains(store.activities[i].id) && (unknown + ids).contains(
        store.activities[i].id,
    ) == ids.contains(store.activities[i].id) && !unknown.contains(store.activities[i].id) by {
        let id = store.activities[i].id;
        if ids.contains(id) {
            let k = choose|k: int| 0 <= k < ids.len() && ids[k] == id;
            assert((ids + unknown)[k] == id);
            assert((unknown + ids)[unknown.len() + k] == id);
        }
        if (ids + unknown).contains(id) {
            let k = choose|k: int| 0 <= k < (ids + unknown).len() && (ids + unknown)[k] == id;
            if k >= ids.len() {
                assert(unknown[k - ids.len()] == id);
            } else {
                assert(ids[k] == id);
            }
        }
        if (unknown + ids).contains(id) {
            let k = choose|k: int| 0 <= k < (unknown + ids).len() && (unknown + ids)[k] == id;
            if k < unknown.len() {
                assert(unknown[k] == id);
            } else {
                assert(ids[k - unknown.len()] == id);
            }
        }
    }
    assert(store.marked(ids + unknown).activities =~= store.marked(ids).activities);
    assert(store.marked(unknown + ids).activities =~= store.marked(ids).activities);
    assert(store.marked(unknown).activities =~= store.activities);
}

/// To mark one list and then another is to mark both at once.
pub proof fn lemma_marking_composes(store: Store, first: Seq<i64>, second: Seq<i64>)
    ensures
        store.marked(first).marked(second) == store.marked(first + second),
{
    assert forall|i: int| 0 <= i < store.activities.len() implies (first + second).contains(
        #[trigger] store.activities[i].id,
    ) == (first.contains(store.activities[i].id) || second.contains(store.activities[i].id)) by {
        let id = store.activities[i].id;
        if first.contains(id) {
            let k = choose|k: int| 0 <= k < first.len() && first[k] == id;
            assert((first + second)[k] == id);
        }
        if second.contains(id) {
            let k = choose|k: int| 0 <= k < second.len() && second[k] == id;
            assert((first + second)[first.len() + k] == id);
        }
        if (first + second).contains(id) {
            let k = choose|k: int| 0 <= k < (first + second).len() && (first + second)[k] == id;
            if k < first.len() {
                assert(first[k] == id);
            } else {
                assert(second[k - first.len()] == id);
            }
        }
    }
    assert(store.marked(first).marked(second).activities =~= store.marked(
        first + second,
    ).activities);
}

/// Every unit of a session is in exactly one tier: the billable and the
/// micro units together are all its units.
pub proof fn lemma_tiers_partition(rows: Seq<StoredActivity>, session_id: i64)
    ensures
        tier_count(rows, session_id, None) == tier_count(
            rows,
            session_id,
            Some(ActivityTier::Billable),
        ) + tier_count(rows, session_id, Some(ActivityTier::Micro)),
    decreases rows.len(),
{
    if rows.len() > 0 {
        lemma_tiers_partition(rows.drop_last(), session_id);
    }
}

/// The statistics count every unit of the session once: the billable and
/// the micro units add up to the total.
pub proof fn lemma_stats_count_every_unit(store: Store, session_id: i64, now: Timestamp)
    requires
        store.well_formed(),
        store.stats(session_id, now) is Some,
    ensures
        store.stats(session_id, now).unwrap().total_activities == store.stats(
            session_id,
            now,
        ).unwrap().billable_activities + store.stats(session_id, now).unwrap().micro_activities,
{
    lemma_tiers_partition(store.activities, session_id);
    lemma_count_bounded(store.activities, session_id, None);
    lemma_count_bounded(store.activities, session_id, Some(ActivityTier::Billable));
    lemma_count_bounded(store.activities, session_id, Some(ActivityTier::Micro));
}

/// The time of a session's breaks never shrinks as `now` moves later.
pub proof fn lemma_break_time_grows(
    breaks: Seq<BreakPeriod>,
    session_id: i64,
    earlier: Timestamp,
    later: Timestamp,
)
    requires
        earlier.millis <= later.millis,
    ensures
        break_secs(breaks, session_id, earlier) <= break_secs(breaks, session_id, later),
    decreases breaks.len(),
{
    if breaks.len() > 0 {
        lemma_break_time_grows(breaks.drop_last(), session_id, earlier, later);
    }
}

/// A session's statistics seen at two times, the second not before the
/// first: the session's length and the time of its breaks never shrink, and
/// nothing else differs. For a session that is still open this is the growth
/// of its provisional length with the clock.
pub proof fn lemma_stats_grow_with_time(
    store: Store,
    session_id: i64,
    earlier: Timestamp,
    later: Timestamp,
)
    requires
        earlier.millis <= later.millis,
        store.stats(session_id, earlier) is Some,
    ensures
        store.stats(session_id, later) is Some,
        store.stats(session_id, earlier).unwrap().total_duration_secs <= store.stats(
            session_id,
            later,
        ).unwrap().total_duration_secs,
        store.stats(session_id, earlier).unwrap().break_duration_secs <= store.stats(
            session_id,
            later,
        ).unwrap().break_duration_secs,
        store.stats(session_id, later).unwrap() == (SessionStats {
            total_duration_secs: store.stats(session_id, later).unwrap().total_duration_secs,
            break_duration_secs: store.stats(session_id, later).unwrap().break_duration_secs,
            ..store.stats(session_id, earlier).unwrap()
        }),
{
    lemma_break_time_grows(store.breaks, session_id, earlier, later);
}

/// The length of an open session is the whole seconds from its start to
/// `now`.
pub proof fn lemma_open_session_length(store: Store, session_id: i64, now: Timestamp)
    requires
        store.stats(session_id, now) is Some,
        store.stats(session_id, now).unwrap().end_time is None,
    ensures
        store.stats(session_id, now).unwrap().total_duration_secs == crate::time::elapsed_secs(
            store.stats(session_id, now).unwrap().start_time,
            now,
        ),
{
}

/// Two selections of the same units are the same sequence: the contract of
/// `get_activities` leaves no choice.
pub proof fn lemma_selection_is_unique(
    store: Store,
    a: Seq<StoredActivity>,
    b: Seq<StoredActivity>,
    session_id: i64,
    tier: Option<ActivityTier>,
    unexported_only: bool,
)
    requires
        store.is_selection(a, session_id, tier, unexported_only),
        store.is_selection(b, session_id, tier, unexported_only),
    ensures
        a == b,
{
    lemma_ordered_same_members(a, b);
}

/// Two sequences in time order with the same members are equal.
proof fn lemma_ordered_same_members(a: Seq<StoredActivity>, b: Seq<StoredActivity>)
    requires
        in_time_order(a),
        in_time_order(b),
        forall|k: int| 0 <= k < a.len() ==> b.contains(#[trigger] a[k]),
        forall|k: int| 0 <= k < b.len() ==> a.contains(#[trigger] b[k]),
    ensures
        a == b,
    decreases a.len(),
{
    if a.len() == 0 {
        if b.len() > 0 {
            assert(a.contains(b[0]));
        }
        assert(a =~= b);
    } else if b.len() == 0 {
        assert(b.contains(a[0]));
    } else {
        // The first of each is the one that precedes all others.
        let i = choose|i: int| 0 <= i < b.len() && b[i] == a[0];
        let j = choose|j: int| 0 <= j < a.len() && a[j] == b[0];
        if i > 0 {
            assert(b[0].precedes(b[i]));
            if j > 0 {
                assert(a[0].precedes(a[j]));
            }
        }
        assert(a[0] == b[0]);
        let ta = a.drop_first();
        let tb = b.drop_first();
        assert forall|k: int| 0 <= k < ta.len() implies tb.contains(#[trigger] ta[k]) by {
            assert(ta[k] == a[k + 1]);
            assert(a[0].precedes(a[k + 1]));
            let m = choose|m: int| 0 <= m < b.len() && b[m] == a[k + 1];
            assert(m > 0);
            assert(tb[m - 1] == b[m]);
        }
        assert forall|k: int| 0 <= k < tb.len() implies ta.contains(#[trigger] tb[k]) by {
            assert(tb[k] == b[k + 1]);
            assert(b[0].precedes(b[k + 1]));
            let m = choose|m: int| 0 <= m < a.len() && a[m] == b[k + 1];
            assert(m > 0);
            assert(ta[m - 1] == a[m]);
        }
        assert(in_time_order(ta)) by {
            assert forall|x: int, y: int| 0 <= x < y < ta.len() implies (#[trigger] ta[x]).precedes(
                #[trigger] ta[y],
            ) by {
                assert(ta[x] == a[x + 1] && ta[y] == a[y + 1]);
            }
        }
        assert(in_time_order(tb)) by {
            assert forall|x: int, y: int| 0 <= x < y < tb.len() implies (#[trigger] tb[x]).precedes(
                #[trigger] tb[y],
            ) by {
                assert(tb[x] == b[x + 1] && tb[y] == b[y + 1]);
            }
        }
        lemma_ordered_same_members(ta, tb);
        assert(a =~= seq![a[0]] + ta);
        assert(b =~= seq![b[0]] + tb);
    }
}

} // verus!
