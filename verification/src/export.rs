//! The export of a session's units to the issue tracker: a run is a state
//! machine that says what to ask of the collaborators next and takes what
//! came back.

use crate::confidence::Confidence;
use crate::database::{max_rows, ActivityTier, PersistenceError, Store, StoredActivity};
use crate::jira::{find_issue_key, issue_key_in, searched_text, target_of};
use crate::llm::{
    batch_request, AssignedIssue, IssueMatch, LLMAnalysisRequest, LLMAnalysisResponse,
    SessionContext,
};
use crate::screenpipe::Activity;
use crate::text::{join2, join3};
use crate::time::Timestamp;
use crate::tracker::{text_view, Control, TrackerError, TrackerView, WorkTracker};
use vstd::prelude::*;

verus! {

/// How a run ended.
#[derive(Debug, Clone, Copy, PartialEq, Eq, Structural)]
pub enum ExportOutcome {
    /// The session has no unit that is not exported.
    NothingToExport,
    /// No issue is assigned to the user, so nothing can be matched.
    NoAssignedIssues,
    /// The issue tracker did not give the assigned issues.
    IssuesUnavailable,
    /// The classifier did not give a result.
    ClassifierFailed,
    /// The store refused the classifier's result.
    StoreFailed,
    /// An event came that did not answer what the run had asked for.
    Aborted,
    /// Every match or unit was dealt with.
    Completed,
}

/// Where a run stands.
#[derive(Debug, Clone, Copy, PartialEq, Eq, Structural)]
pub enum ExportPhase {
    /// The assigned issues were asked for.
    AwaitingIssues,
    /// The batch was handed to the classifier.
    AwaitingClassification,
    /// Work on match `index` was handed to the issue tracker.
    LoggingMatch { index: usize },
    /// The issue tracker was asked whether the key of unit `index` is
    /// assigned to the user.
    CheckingUnit { index: usize },
    /// Work on unit `index` was handed to the issue tracker.
    LoggingUnit { index: usize },
    /// The run is over.
    Finished(ExportOutcome),
}

/// What the run asks to be done next.
#[derive(Debug)]
pub enum ExportAction {
    /// Get the issues assigned to the user, through the cache.
    FetchAssignedIssues,
    /// Submit the batch to the classifier.
    Classify(LLMAnalysisRequest),
    /// Ask the issue tracker whether the issue is assigned to the user.
    CheckAssignment { issue_key: String },
    /// Log the activity's time on the issue.
    LogWork { issue_key: String, activity: Activity },
    /// Nothing: the run is over.
    Finished(ExportOutcome),
}

/// The classifier's answer, parsed and as it was received.
#[derive(Debug)]
pub struct Classification {
    pub response: LLMAnalysisResponse,
    pub raw: String,
}

/// What came back from a collaborator. `None` and `false` stand for a call
/// that failed.
#[derive(Debug)]
pub enum ExportEvent {
    AssignedIssues(Option<Vec<AssignedIssue>>),
    Classified(Option<Classification>),
    Assignment(Option<bool>),
    WorkLogged(bool),
}

/// What an `ExportRun` holds, as a plain value.
pub struct RunView {
    pub session_id: i64,
    pub phase: ExportPhase,
    /// The session's span and time as the classifier is told.
    pub session: SessionContext,
    /// The unexported billable units, in time order.
    pub billable: Seq<StoredActivity>,
    /// The unexported micro units, in time order.
    pub micro: Seq<StoredActivity>,
    /// The classifier's matches, once it has answered.
    pub matches: Seq<IssueMatch>,
    /// The pinned issue key, if one was pinned when the run began.
    pub pinned: Option<Seq<char>>,
    /// Matches below this confidence are not exported.
    pub threshold: Confidence,
    pub company: Seq<char>,
    pub email: Seq<char>,
}

/// The result of an event at the level of the model.
pub struct Handled {
    pub run: RunView,
    pub store: Store,
}

impl RunView {
    /// True where match `index` is exported: its confidence is not below the
    /// threshold.
    pub open spec fn accepts(self, index: int) -> bool {
        !(self.matches[index].confidence.millionths < self.threshold.millionths)
    }

    /// The phase that deals with the first accepted match from `from` on;
    /// the run is complete where there is none.
    pub open spec fn next_match(self, from: int) -> ExportPhase
        decreases self.matches.len() - from,
    {
        if from < 0 || from >= self.matches.len() {
            ExportPhase::Finished(ExportOutcome::Completed)
        } else if self.accepts(from) {
            ExportPhase::LoggingMatch { index: from as usize }
        } else {
            self.next_match(from + 1)
        }
    }

    /// The key that unit `index` is logged under: the pinned key where one
    /// is pinned, else the first issue key in its window title or
    /// application.
    pub open spec fn target(self, index: int) -> Option<Seq<char>> {
        target_of(self.pinned, issue_key_in(searched_text(self.billable[index].observation())))
    }

    /// The phase that deals with the first unit from `from` on that has a
    /// target key; the run is complete where there is none.
    pub open spec fn next_unit(self, from: int) -> ExportPhase
        decreases self.billable.len() - from,
    {
        if from < 0 || from >= self.billable.len() {
            ExportPhase::Finished(ExportOutcome::Completed)
        } else if self.target(from) is Some {
            ExportPhase::CheckingUnit { index: from as usize }
        } else {
            self.next_unit(from + 1)
        }
    }

    /// A phase points at a match that is accepted, or at a unit that has a
    /// target key.
    pub open spec fn well_formed(self) -> bool {
        &&& self.matches.len() <= usize::MAX
        &&& self.billable.len() <= usize::MAX
        &&& match self.phase {
            ExportPhase::LoggingMatch { index } => index < self.matches.len() && self.accepts(
                index as int,
            ),
            ExportPhase::CheckingUnit { index } => index < self.billable.len() && self.target(
                index as int,
            ) is Some,
            ExportPhase::LoggingUnit { index } => index < self.billable.len() && self.target(
                index as int,
            ) is Some,
            _ => true,
        }
    }

    /// The run in another phase.
    pub open spec fn at(self, phase: ExportPhase) -> RunView {
        RunView { phase, ..self }
    }

    /// The run ended with `outcome`, the store untouched.
    pub open spec fn ended(self, store: Store, outcome: ExportOutcome) -> Handled {
        Handled { run: self.at(ExportPhase::Finished(outcome)), store }
    }

    /// What an event does to run and store.
    ///
    /// - Awaiting the issues: with at least one issue the batch goes to the
    ///   classifier; with none, or without an answer, the run ends.
    /// - Awaiting the classification: the result is stored, and the run
    ///   turns to the first accepted match; without a result, or where the
    ///   store is full, the run ends.
    /// - Logging a match: where the work was logged, exactly the units that
    ///   the match lists are marked exported; in either case the run turns to
    ///   the next accepted match.
    /// - Checking a unit: where its key is assigned to the user, the unit's
    ///   work is logged next; else the run turns to the next unit with a key.
    /// - Logging a unit: where the work was logged, the unit is marked
    ///   exported; in either case the run turns to the next unit with a key.
    /// - A run that is over stays as it is, and an event that does not answer
    ///   what was asked ends the run.
    pub open spec fn handle(self, store: Store, event: ExportEvent, now: Timestamp) -> Handled {
        match self.phase {
            ExportPhase::AwaitingIssues => match event {
                ExportEvent::AssignedIssues(Some(issues)) => if issues@.len() == 0 {
                    self.ended(store, ExportOutcome::NoAssignedIssues)
                } else {
                    Handled { run: self.at(ExportPhase::AwaitingClassification), store }
                },
                ExportEvent::AssignedIssues(None) => self.ended(
                    store,
                    ExportOutcome::IssuesUnavailable,
                ),
                _ => self.ended(store, ExportOutcome::Aborted),
            },
            ExportPhase::AwaitingClassification => match event {
                ExportEvent::Classified(Some(c)) => if store.analyses.len() < max_rows() {
                    let run = RunView { matches: c.response.analysis.issues@, ..self };
                    Handled {
                        run: run.at(run.next_match(0)),
                        store: store.with_analysis(
                            self.session_id,
                            c.raw,
                            c.response.analysis.confidence,
                            now,
                        ),
                    }
                } else {
                    self.ended(store, ExportOutcome::StoreFailed)
                },
                ExportEvent::Classified(None) => self.ended(store, ExportOutcome::ClassifierFailed),
                _ => self.ended(store, ExportOutcome::Aborted),
            },
            ExportPhase::LoggingMatch { index } => match event {
                ExportEvent::WorkLogged(logged) => Handled {
                    run: self.at(self.next_match(index + 1)),
                    store: if logged {
                        store.marked(self.matches[index as int].activities_included@)
                    } else {
                        store
                    },
                },
                _ => self.ended(store, ExportOutcome::Aborted),
            },
            ExportPhase::CheckingUnit { index } => match event {
                ExportEvent::Assignment(Some(true)) => Handled {
                    run: self.at(ExportPhase::LoggingUnit { index }),
                    store,
                },
                ExportEvent::Assignment(_) => Handled {
                    run: self.at(self.next_unit(index + 1)),
                    store,
                },
                _ => self.ended(store, ExportOutcome::Aborted),
            },
            ExportPhase::LoggingUnit { index } => match event {
                ExportEvent::WorkLogged(logged) => Handled {
                    run: self.at(self.next_unit(index + 1)),
                    store: if logged {
                        store.marked(seq![self.billable[index as int].id])
                    } else {
                        store
                    },
                },
                _ => self.ended(store, ExportOutcome::Aborted),
            },
            ExportPhase::Finished(_) => Handled { run: self, store },
        }
    }

    /// True where `activity` is what is logged for match `index`: the
    /// match's seconds from the session's start, its summary as the title,
    /// the company as the application, and its kind of work as the text.
    pub open spec fn is_match_activity(self, index: int, activity: Activity) -> bool {
        &&& activity.timestamp == self.session.start
        &&& activity.duration_secs == self.matches[index].total_time_secs
        &&& activity.window_title@ == self.matches[index].summary@
        &&& activity.app_name@ == self.company
        &&& activity.description@ == "Work type: "@ + self.matches[index].work_type@
    }

    /// True where `action` is what the run asks for in its phase. The batch
    /// request is made of the issues that `event` brought.
    pub open spec fn asks(self, event: Option<ExportEvent>, action: ExportAction) -> bool {
        match self.phase {
            ExportPhase::AwaitingIssues => action is FetchAssignedIssues,
            ExportPhase::AwaitingClassification => {
                &&& action matches ExportAction::Classify(request)
                &&& event matches Some(ExportEvent::AssignedIssues(Some(issues)))
                &&& request.carries(
                    self.email,
                    self.company,
                    issues@,
                    self.session,
                    self.billable,
                    self.micro,
                )
            },
            ExportPhase::LoggingMatch { index } => {
                &&& action matches ExportAction::LogWork { issue_key, activity }
                &&& issue_key@ == self.matches[index as int].key@
                &&& self.is_match_activity(index as int, activity)
            },
            ExportPhase::CheckingUnit { index } => {
                &&& action matches ExportAction::CheckAssignment { issue_key }
                &&& self.target(index as int) == Some(issue_key@)
            },
            ExportPhase::LoggingUnit { index } => {
                &&& action matches ExportAction::LogWork { issue_key, activity }
                &&& self.target(index as int) == Some(issue_key@)
                &&& activity == self.billable[index as int].observation()
            },
            ExportPhase::Finished(outcome) => action matches ExportAction::Finished(o) && o
                == outcome,
        }
    }
}

/// The phase in which a run begins: over at once where there is nothing to
/// export; awaiting the issues where classifier and issue tracker are both
/// enabled; else, with the issue tracker enabled, at the first billable unit
/// that has a target key; else complete.
pub open spec fn first_phase(run: RunView, ai_enabled: bool, tracker_enabled: bool) -> ExportPhase {
    if run.billable.len() == 0 && run.micro.len() == 0 {
        ExportPhase::Finished(ExportOutcome::NothingToExport)
    } else if ai_enabled && tracker_enabled {
        ExportPhase::AwaitingIssues
    } else if tracker_enabled {
        run.next_unit(0)
    } else {
        ExportPhase::Finished(ExportOutcome::Completed)
    }
}

/// The tracker after an event at `now`: the store as the run left it, and
/// the time of the last export set to `now` where the run has just been
/// completed.
pub open spec fn tracker_after(
    before: TrackerView,
    was: ExportPhase,
    handled: Handled,
    now: Timestamp,
) -> TrackerView {
    TrackerView {
        control: Control { machine: before.control.machine, store: handled.store },
        last_llm_analysis: if handled.run.phase == ExportPhase::Finished(ExportOutcome::Completed)
            && was != handled.run.phase {
            now
        } else {
            before.last_llm_analysis
        },
        ..before
    }
}

/// What the beginning of a run at `now` owes. Where no session has the id,
/// it fails and changes nothing. Else the run holds the session's span and
/// time as seen at `now`, its unexported units by tier in time order, the
/// key pinned in the tracker and the tracker's settings; it stands in its
/// first phase and asks for what that phase needs; and a run that is complete
/// at once sets the time of the last export.
pub open spec fn begun(
    before: TrackerView,
    session_id: i64,
    now: Timestamp,
    after: TrackerView,
    r: Result<(ExportRun, ExportAction), TrackerError>,
) -> bool {
    match before.control.store.stats(session_id, now) {
        None => r matches Err(e) && e matches TrackerError::Persistence(
            PersistenceError::SessionNotFound,
        ) && after == before,
        Some(stats) => {
            &&& r matches Ok(pair)
            &&& pair.0@.well_formed()
            &&& pair.0@.session_id == session_id
            &&& pair.0@.session == (SessionContext {
                start: stats.start_time,
                end: match stats.end_time {
                    Some(end) => end,
                    None => now,
                },
                tracking_duration_secs: stats.total_duration_secs,
                break_duration_secs: stats.break_duration_secs,
            })
            &&& before.control.store.is_selection(
                pair.0@.billable,
                session_id,
                Some(ActivityTier::Billable),
                true,
            )
            &&& before.control.store.is_selection(
                pair.0@.micro,
                session_id,
                Some(ActivityTier::Micro),
                true,
            )
            &&& pair.0@.matches.len() == 0
            &&& pair.0@.pinned == before.issue_override
            &&& pair.0@.threshold == before.config.llm.confidence_threshold
            &&& pair.0@.company == before.config.company.name@
            &&& pair.0@.email == before.config.jira.email@
            &&& pair.0@.phase == first_phase(
                pair.0@,
                before.config.llm.enabled,
                before.config.jira.enabled,
            )
            &&& pair.0@.asks(None, pair.1)
            &&& after == tracker_after(
                before,
                ExportPhase::AwaitingIssues,
                Handled { run: pair.0@, store: before.control.store },
                now,
            )
        },
    }
}

/// One export of a session's units.
#[derive(Debug)]
pub struct ExportRun {
    session_id: i64,
    phase: ExportPhase,
    session: SessionContext,
    billable: Vec<StoredActivity>,
    micro: Vec<StoredActivity>,
    matches: Vec<IssueMatch>,
    pinned: Option<String>,
    threshold: Confidence,
    company: String,
    email: String,
}

impl View for ExportRun {
    type V = RunView;

    closed spec fn view(&self) -> RunView {
        RunView {
            session_id: self.session_id,
            phase: self.phase,
            session: self.session,
            billable: self.billable@,
            micro: self.micro@,
            matches: self.matches@,
            pinned: text_view(self.pinned),
            threshold: self.threshold,
            company: self.company@,
            email: self.email@,
        }
    }
}

impl ExportRun {
    #[verifier::type_invariant]
    closed spec fn inv(self) -> bool {
        self@.well_formed()
    }

    /// Where the run stands. A run is well formed at all times.
    pub fn phase(&self) -> (p: ExportPhase)
        ensures
            p == self@.phase,
            self@.well_formed(),
    {
        proof {
            use_type_invariant(self);
        }
        self.phase
    }

    /// True once the run is over.
    pub fn is_finished(&self) -> (b: bool)
        ensures
            b == (self@.phase is Finished),
    {
        match self.phase {
            ExportPhase::Finished(_) => true,
            _ => false,
        }
    }

    /// The session that is exported.
    pub fn session_id(&self) -> (id: i64)
        ensures
            id == self@.session_id,
    {
        self.session_id
    }

    /// The first accepted match from `from` on.
    fn find_match(&self, from: usize) -> (phase: ExportPhase)
        requires
            from <= self@.matches.len(),
        ensures
            phase == self@.next_match(from as int),
    {
        let mut i: usize = from;
        while i < self.matches.len()
            invariant
                from <= i <= self@.matches.len(),
                self@.next_match(from as int) == self@.next_match(i as int),
            decreases self@.matches.len() - i,
        {
            if !self.matches[i].confidence.is_below(self.threshold) {
                return ExportPhase::LoggingMatch { index: i };
            }
            i = i + 1;
        }
        ExportPhase::Finished(ExportOutcome::Completed)
    }

    /// The key that unit `index` is logged under.
    fn target_key(&self, index: usize) -> (key: Option<String>)
        requires
            index < self@.billable.len(),
        ensures
            match key {
                Some(k) => self@.target(index as int) == Some(k@),
                None => self@.target(index as int) is None,
            },
    {
        match &self.pinned {
            Some(key) => Some(key.clone()),
            None => {
                let unit = &self.billable[index];
                let text = join3(unit.window_title.as_str(), " ", unit.app_name.as_str());
                match find_issue_key(text.as_str()) {
                    Ok(found) => found,
                    Err(_) => None,
                }
            },
        }
    }

    /// The first unit from `from` on that has a target key.
    fn find_unit(&self, from: usize) -> (phase: ExportPhase)
        requires
            from <= self@.billable.len(),
        ensures
            phase == self@.next_unit(from as int),
    {
        let mut i: usize = from;
        while i < self.billable.len()
            invariant
                from <= i <= self@.billable.len(),
                self@.next_unit(from as int) == self@.next_unit(i as int),
            decreases self@.billable.len() - i,
        {
            if self.target_key(i).is_some() {
                return ExportPhase::CheckingUnit { index: i };
            }
            i = i + 1;
        }
        ExportPhase::Finished(ExportOutcome::Completed)
    }

    /// What the run asks for in its phase, where that needs no event.
    fn pending(&self) -> (action: ExportAction)
        requires
            self@.phase != ExportPhase::AwaitingClassification,
        ensures
            self@.asks(None, action),
    {
        proof {
            use_type_invariant(self);
        }
        match self.phase {
            ExportPhase::AwaitingIssues => ExportAction::FetchAssignedIssues,
            ExportPhase::AwaitingClassification => ExportAction::Finished(ExportOutcome::Aborted),
            ExportPhase::LoggingMatch { index } => {
                let m = &self.matches[index];
                ExportAction::LogWork {
                    issue_key: m.key.clone(),
                    activity: Activity {
                        timestamp: self.session.start,
                        duration_secs: m.total_time_secs,
                        window_title: m.summary.clone(),
                        app_name: self.company.clone(),
                        description: join2("Work type: ", m.work_type.as_str()),
                    },
                }
            },
            ExportPhase::CheckingUnit { index } => match self.target_key(index) {
                Some(issue_key) => ExportAction::CheckAssignment { issue_key },
                None => ExportAction::Finished(ExportOutcome::Aborted),
            },
            ExportPhase::LoggingUnit { index } => match self.target_key(index) {
                Some(issue_key) => ExportAction::LogWork {
                    issue_key,
                    activity: self.billable[index].to_activity(),
                },
                None => ExportAction::Finished(ExportOutcome::Aborted),
            },
            ExportPhase::Finished(outcome) => ExportAction::Finished(outcome),
        }
    }

    /// Begins the export of session `session_id` at `now`: takes the
    /// session's statistics and its unexported units by tier, and says what
    /// to do first. Fails where no session has the id, and only there.
    pub fn begin_at(tracker: &mut WorkTracker, session_id: i64, now: Timestamp) -> (r: Result<
        (ExportRun, ExportAction),
        TrackerError,
    >)
        ensures
            begun(old(tracker)@, session_id, now, final(tracker)@, r),
    {
        let stats = match tracker.database().get_session_stats_at(session_id, now) {
            Ok(stats) => stats,
            Err(e) => {
                return Err(TrackerError::Persistence(e));
            },
        };
        let billable = match tracker.database().get_activities(
            session_id,
            Some(ActivityTier::Billable),
            true,
        ) {
            Ok(rows) => rows,
            Err(e) => {
                return Err(TrackerError::Persistence(e));
            },
        };
        let micro = match tracker.database().get_activities(
            session_id,
            Some(ActivityTier::Micro),
            true,
        ) {
            Ok(rows) => rows,
            Err(e) => {
                return Err(TrackerError::Persistence(e));
            },
        };
        let pinned = match tracker.issue_override() {
            Some(key) => Some(key.clone()),
            None => None,
        };
        proof {
            assert(billable.len() == billable@.len());
        }
        let mut run = ExportRun {
            session_id,
            phase: ExportPhase::AwaitingIssues,
            session: SessionContext {
                start: stats.start_time,
                end: match stats.end_time {
                    Some(end) => end,
                    None => now,
                },
                tracking_duration_secs: stats.total_duration_secs,
                break_duration_secs: stats.break_duration_secs,
            },
            billable,
            micro,
            matches: Vec::new(),
            pinned,
            threshold: tracker.config().llm.confidence_threshold,
            company: tracker.config().company.name.clone(),
            email: tracker.config().jira.email.clone(),
        };
        let phase = if run.billable.len() == 0 && run.micro.len() == 0 {
            ExportPhase::Finished(ExportOutcome::NothingToExport)
        } else if tracker.config().llm.enabled && tracker.config().jira.enabled {
            ExportPhase::AwaitingIssues
        } else if tracker.config().jira.enabled {
            run.find_unit(0)
        } else {
            ExportPhase::Finished(ExportOutcome::Completed)
        };
        let ghost begun = run@;
        proof {
            assert(run.billable.len() == run.billable@.len());
            lemma_next_unit_is_sound(begun, 0);
            assert(begun.at(phase).next_unit(0) == begun.next_unit(0));
            assert(begun.at(phase).target(0) == begun.target(0));
        }
        run.phase = phase;
        assert(run@ == begun.at(phase));
        match phase {
            ExportPhase::Finished(ExportOutcome::Completed) => {
                tracker.export_finished_at(now);
            },
            _ => {},
        }
        let action = run.pending();
        Ok((run, action))
    }

    /// Begins the export of session `session_id` at the current time of the
    /// system clock.
    pub fn begin(tracker: &mut WorkTracker, session_id: i64) -> (r: Result<
        (ExportRun, ExportAction),
        TrackerError,
    >)
        ensures
            exists|now: Timestamp| #[trigger]
                begun(old(tracker)@, session_id, now, final(tracker)@, r),
            final(tracker)@.control == old(tracker)@.control,
    {
        let now = Timestamp::now();
        let r = ExportRun::begin_at(tracker, session_id, now);
        assert(begun(old(tracker)@, session_id, now, tracker@, r));
        r
    }

    /// Takes what came back from a collaborator at `now`, and says what to
    /// do next.
    #[verifier::rlimit(40)]
    pub fn advance_at(&mut self, tracker: &mut WorkTracker, event: ExportEvent, now: Timestamp) -> (action:
        ExportAction)
        ensures
            old(self)@.well_formed(),
            final(self)@.well_formed(),
            final(self)@ == old(self)@.handle(old(tracker)@.control.store, event, now).run,
            final(tracker)@ == tracker_after(
                old(tracker)@,
                old(self)@.phase,
                old(self)@.handle(old(tracker)@.control.store, event, now),
                now,
            ),
            final(self)@.asks(Some(event), action),
    {
        proof {
            use_type_invariant(&*self);
        }
        let was = self.phase;
        let action = match self.phase {
            ExportPhase::AwaitingIssues => match event {
                ExportEvent::AssignedIssues(Some(issues)) => {
                    if issues.len() == 0 {
                        self.phase = ExportPhase::Finished(ExportOutcome::NoAssignedIssues);
                        ExportAction::Finished(ExportOutcome::NoAssignedIssues)
                    } else {
                        self.phase = ExportPhase::AwaitingClassification;
                        ExportAction::Classify(
                            batch_request(
                                self.email.clone(),
                                self.company.clone(),
                                issues,
                                self.session,
                                &self.billable,
                                &self.micro,
                            ),
                        )
                    }
                },
                ExportEvent::AssignedIssues(None) => {
                    self.phase = ExportPhase::Finished(ExportOutcome::IssuesUnavailable);
                    ExportAction::Finished(ExportOutcome::IssuesUnavailable)
                },
                _ => {
                    self.phase = ExportPhase::Finished(ExportOutcome::Aborted);
                    ExportAction::Finished(ExportOutcome::Aborted)
                },
            },
            ExportPhase::AwaitingClassification => match event {
                ExportEvent::Classified(Some(c)) => {
                    let Classification { response, raw } = c;
                    match tracker.store_analysis_at(
                        self.session_id,
                        raw,
                        response.analysis.confidence,
                        now,
                    ) {
                        Ok(_) => {
                            let matches = response.analysis.issues;
                            proof {
                                assert(matches.len() == matches@.len());
                            }
                            self.matches = matches;
                            let phase = self.find_match(0);
                            proof {
                                lemma_next_match_is_sound(self@, 0);
                            }
                            self.phase = phase;
                            self.pending()
                        },
                        Err(_) => {
                            self.phase = ExportPhase::Finished(ExportOutcome::StoreFailed);
                            ExportAction::Finished(ExportOutcome::StoreFailed)
                        },
                    }
                },
                ExportEvent::Classified(None) => {
                    self.phase = ExportPhase::Finished(ExportOutcome::ClassifierFailed);
                    ExportAction::Finished(ExportOutcome::ClassifierFailed)
                },
                _ => {
                    self.phase = ExportPhase::Finished(ExportOutcome::Aborted);
                    ExportAction::Finished(ExportOutcome::Aborted)
                },
            },
            ExportPhase::LoggingMatch { index } => match event {
                ExportEvent::WorkLogged(logged) => {
                    if logged {
                        tracker.mark_activities_logged(
                            self.matches[index].activities_included.as_slice(),
                        );
                    }
                    let phase = self.find_match(index + 1);
                    proof {
                        lemma_next_match_is_sound(self@, index + 1);
                    }
                    self.phase = phase;
                    self.pending()
                },
                _ => {
                    self.phase = ExportPhase::Finished(ExportOutcome::Aborted);
                    ExportAction::Finished(ExportOutcome::Aborted)
                },
            },
            ExportPhase::CheckingUnit { index } => match event {
                ExportEvent::Assignment(Some(true)) => {
                    self.phase = ExportPhase::LoggingUnit { index };
                    self.pending()
                },
                ExportEvent::Assignment(_) => {
                    let phase = self.find_unit(index + 1);
                    proof {
                        lemma_next_unit_is_sound(self@, index + 1);
                    }
                    self.phase = phase;
                    self.pending()
                },
                _ => {
                    self.phase = ExportPhase::Finished(ExportOutcome::Aborted);
                    ExportAction::Finished(ExportOutcome::Aborted)
                },
            },
            ExportPhase::LoggingUnit { index } => match event {
                ExportEvent::WorkLogged(logged) => {
                    if logged {
                        let mut ids: Vec<i64> = Vec::new();
                        ids.push(self.billable[index].id);
                        assert(ids@ =~= seq![self@.billable[index as int].id]);
                        tracker.mark_activities_logged(ids.as_slice());
                    }
                    let phase = self.find_unit(index + 1);
                    proof {
                        lemma_next_unit_is_sound(self@, index + 1);
                    }
                    self.phase = phase;
                    self.pending()
                },
                _ => {
                    self.phase = ExportPhase::Finished(ExportOutcome::Aborted);
                    ExportAction::Finished(ExportOutcome::Aborted)
                },
            },
            ExportPhase::Finished(outcome) => ExportAction::Finished(outcome),
        };
        let completed = match self.phase {
            ExportPhase::Finished(ExportOutcome::Completed) => true,
            _ => false,
        };
        let was_completed = match was {
            ExportPhase::Finished(ExportOutcome::Completed) => true,
            _ => false,
        };
        if completed && !was_completed {
            tracker.export_finished_at(now);
        }
        action
    }

    /// Takes what came back from a collaborator, at the current time of the
    /// system clock, and says what to do next.
    pub fn advance(&mut self, tracker: &mut WorkTracker, event: ExportEvent) -> (action:
        ExportAction)
        ensures
            final(self)@.well_formed(),
            final(self)@.asks(Some(event), action),
            exists|now: Timestamp|
                final(self)@ == (#[trigger] old(self)@.handle(
                    old(tracker)@.control.store,
                    event,
                    now,
                )).run && final(tracker)@ == tracker_after(
                    old(tracker)@,
                    old(self)@.phase,
                    old(self)@.handle(old(tracker)@.control.store, event, now),
                    now,
                ),
    {
        let now = Timestamp::now();
        let action = self.advance_at(tracker, event, now);
        assert(self@ == old(self)@.handle(old(tracker)@.control.store, event, now).run && tracker@
            == tracker_after(
            old(tracker)@,
            old(self)@.phase,
            old(self)@.handle(old(tracker)@.control.store, event, now),
            now,
        ));
        action
    }
}

impl WorkTracker {
    /// Begins the export of session `session_id` at the current time of the
    /// system clock, and says what to do first; `ExportRun::advance` takes
    /// what came back.
    pub fn analyze_and_log_batch(&mut self, session_id: i64) -> (r: Result<
        (ExportRun, ExportAction),
        TrackerError,
    >)
        ensures
            exists|now: Timestamp| #[trigger] begun(old(self)@, session_id, now, final(self)@, r),
            final(self)@.control == old(self)@.control,
    {
        ExportRun::begin(self, session_id)
    }
}

/// The phase that `next_match` gives points at an accepted match, or says
/// the run is complete; and it does not depend on the phase the run is in.
pub proof fn lemma_next_match_is_sound(run: RunView, from: int)
    requires
        0 <= from,
        run.matches.len() <= usize::MAX,
    ensures
        match run.next_match(from) {
            ExportPhase::LoggingMatch { index } => from <= index < run.matches.len()
                && run.accepts(index as int) && forall|k: int|
                from <= k < index ==> !run.accepts(k),
            ExportPhase::Finished(outcome) => outcome == ExportOutcome::Completed && forall|k: int|
                from <= k < run.matches.len() ==> !run.accepts(k),
            _ => false,
        },
        forall|phase: ExportPhase| #[trigger] run.at(phase).next_match(from) == run.next_match(from),
    decreases run.matches.len() - from,
{
    if from < run.matches.len() {
        lemma_next_match_is_sound(run, from + 1);
        assert forall|phase: ExportPhase| #[trigger]
            run.at(phase).next_match(from) == run.next_match(from) by {
            assert(run.at(phase).accepts(from) == run.accepts(from));
            assert(run.at(phase).next_match(from + 1) == run.next_match(from + 1));
        }
    }
}

/// The phase that `next_unit` gives points at a unit with a target key, or
/// says the run is complete; and it does not depend on the phase the run is
/// in.
pub proof fn lemma_next_unit_is_sound(run: RunView, from: int)
    requires
        0 <= from,
        run.billable.len() <= usize::MAX,
    ensures
        match run.next_unit(from) {
            ExportPhase::CheckingUnit { index } => from <= index < run.billable.len()
                && run.target(index as int) is Some && forall|k: int|
                from <= k < index ==> run.target(k) is None,
            ExportPhase::Finished(outcome) => outcome == ExportOutcome::Completed && forall|k: int|
                from <= k < run.billable.len() ==> run.target(k) is None,
            _ => false,
        },
        forall|phase: ExportPhase| #[trigger] run.at(phase).next_unit(from) == run.next_unit(from),
    decreases run.billable.len() - from,
{
    if from < run.billable.len() {
        lemma_next_unit_is_sound(run, from + 1);
        assert forall|phase: ExportPhase| #[trigger]
            run.at(phase).next_unit(from) == run.next_unit(from) by {
            assert(run.at(phase).target(from) == run.target(from));
            assert(run.at(phase).next_unit(from + 1) == run.next_unit(from + 1));
        }
    }
}

/// No event takes a unit's export back: a unit that was exported before an
/// event is exported after it, and no unit is added or removed.
pub proof fn lemma_export_is_monotonic(run: RunView, store: Store, event: ExportEvent, now: Timestamp)
    ensures
        run.handle(store, event, now).store.activities.len() == store.activities.len(),
        forall|i: int|
            0 <= i < store.activities.len() && (#[trigger] store.activities[i]).logged_to_jira
                ==> run.handle(store, event, now).store.activities[i].logged_to_jira,
{
}

/// Only logged work marks units: an event changes the units of the store
/// exactly where it reports work as logged, and then it marks exactly the
/// units that the match lists, or the one unit that was logged.
pub proof fn lemma_only_logged_work_marks(
    run: RunView,
    store: Store,
    event: ExportEvent,
    now: Timestamp,
)
    ensures
        run.handle(store, event, now).store.activities == (match (run.phase, event) {
            (ExportPhase::LoggingMatch { index }, ExportEvent::WorkLogged(true)) => store.marked(
                run.matches[index as int].activities_included@,
            ).activities,
            (ExportPhase::LoggingUnit { index }, ExportEvent::WorkLogged(true)) => store.marked(
                seq![run.billable[index as int].id],
            ).activities,
            _ => store.activities,
        }),
{
}

/// A match below the threshold is never handed to the issue tracker: a run
/// that logs a match logs an accepted one.
pub proof fn lemma_rejected_matches_are_skipped(run: RunView, index: usize)
    requires
        run.well_formed(),
        run.phase == (ExportPhase::LoggingMatch { index }),
    ensures
        run.matches[index as int].confidence.millionths >= run.threshold.millionths,
{
}

} // verus!
