//! The tracker: the control transitions over state machine and store, the
//! recording of what a fetch brought, and the clock of the export.

use crate::config::Config;
use crate::consolidate::{consolidate_activities, consolidated};
use crate::database::{max_rows, Database, PersistenceError, Store};
use crate::screenpipe::Activity;
use crate::state::{Machine, StateError, StateManager, TrackingState};
use crate::time::{age_secs, Timestamp};
use vstd::prelude::*;

verus! {

/// The cursor of a new tracker lies this many milliseconds before its start:
/// five minutes.
pub const INITIAL_LOOKBACK_MILLIS: u32 = 300_000;

/// Why the tracker refused a command.
#[derive(Debug, Clone, Copy, PartialEq, Eq, Structural)]
pub enum TrackerError {
    /// The transition is not allowed in the current state.
    State(StateError),
    /// The store refused.
    Persistence(PersistenceError),
}

impl TrackerError {
    /// The message shown for the error.
    pub fn message(&self) -> (s: &'static str)
        ensures
            s@ == match *self {
                TrackerError::State(e) => e.text(),
                TrackerError::Persistence(e) => e.text(),
            },
    {
        match self {
            TrackerError::State(e) => e.message(),
            TrackerError::Persistence(e) => e.message(),
        }
    }
}

/// The four commands of the control surface.
#[derive(Debug, Clone, Copy, PartialEq, Eq, Structural)]
pub enum Command {
    Start,
    Pause,
    Resume,
    Stop,
}

/// State machine and store together.
pub struct Control {
    pub machine: Machine,
    pub store: Store,
}

/// A command's result at the level of the model: the control after it, and
/// what the caller is told.
pub struct Outcome {
    pub control: Control,
    pub result: Result<(), TrackerError>,
}

impl Control {
    /// A stopped machine over an empty store.
    pub open spec fn initial(micro_threshold_secs: u64) -> Control {
        Control { machine: Machine::initial(), store: Store::empty(micro_threshold_secs) }
    }

    /// True where no session of the store is open.
    pub open spec fn no_open_session(self) -> bool {
        forall|i: int|
            0 <= i < self.store.sessions.len() ==> (#[trigger] self.store.sessions[i]).end_time
                is Some
    }

    /// True where no break of the store is open.
    pub open spec fn no_open_break(self) -> bool {
        forall|i: int|
            0 <= i < self.store.breaks.len() ==> (#[trigger] self.store.breaks[i]).end_time
                is Some
    }

    /// True where the session with id `id` is open and no other is.
    pub open spec fn only_open_session(self, id: i64) -> bool {
        &&& 1 <= id <= self.store.sessions.len()
        &&& forall|i: int|
            0 <= i < self.store.sessions.len() ==> ((#[trigger] self.store.sessions[i]).end_time
                is None <==> i == id - 1)
    }

    /// True where the break with id `id` is open and no other is.
    pub open spec fn only_open_break(self, id: i64) -> bool {
        &&& 1 <= id <= self.store.breaks.len()
        &&& forall|i: int|
            0 <= i < self.store.breaks.len() ==> ((#[trigger] self.store.breaks[i]).end_time
                is None <==> i == id - 1)
    }

    /// Machine and store agree. Stopped: no session and no break is open.
    /// Tracking: the machine's session is the one open session of the store,
    /// and no break is open. Paused: in addition the machine's break is the
    /// one open break of the store, and it belongs to that session.
    pub open spec fn linked(self) -> bool {
        &&& self.store.well_formed()
        &&& self.machine.consistent()
        &&& match self.machine.state {
            TrackingState::Stopped => self.no_open_session() && self.no_open_break(),
            TrackingState::Tracking => {
                &&& self.machine.session matches Some(s)
                &&& self.only_open_session(s.id)
                &&& self.no_open_break()
            },
            TrackingState::Paused => {
                &&& self.machine.session matches Some(s)
                &&& self.only_open_session(s.id)
                &&& self.machine.current_break matches Some(b)
                &&& b.session_id == s.id
                &&& self.only_open_break(b.id)
                &&& self.store.breaks[b.id - 1].session_id == s.id
            },
        }
    }

    /// The control unchanged, and the refusal.
    pub open spec fn refused(self, e: TrackerError) -> Outcome {
        Outcome { control: self, result: Err(e) }
    }

    /// The store after the machine's break, if it holds an open one, ended at
    /// `now`.
    pub open spec fn store_without_break(self, now: Timestamp) -> Store {
        match self.machine.current_break {
            Some(b) => if b.end_time is None {
                self.store.break_ended(b.id, now)
            } else {
                self.store
            },
            None => self.store,
        }
    }

    /// `start`: from `Stopped` a session opens in store and machine; from
    /// `Paused` the open break ends and tracking goes on; refused while
    /// tracking, and where the store has no room for a session.
    pub open spec fn start(self, now: Timestamp) -> Outcome {
        match self.machine.state {
            TrackingState::Stopped => if self.store.sessions.len() < max_rows() {
                Outcome {
                    control: Control {
                        machine: self.machine.start(
                            (self.store.sessions.len() + 1) as i64,
                            now,
                        ).unwrap(),
                        store: self.store.with_session(now),
                    },
                    result: Ok(()),
                }
            } else {
                self.refused(TrackerError::Persistence(PersistenceError::StoreFull))
            },
            TrackingState::Tracking => self.refused(
                TrackerError::State(StateError::AlreadyTracking),
            ),
            TrackingState::Paused => Outcome {
                control: Control {
                    machine: self.machine.resume().unwrap(),
                    store: self.store_without_break(now),
                },
                result: Ok(()),
            },
        }
    }

    /// `pause`: while tracking a session, a break of it opens in store and
    /// machine; refused in the other states, without a session, and where the
    /// store has no room for a break.
    pub open spec fn pause(self, now: Timestamp) -> Outcome {
        match self.machine.state {
            TrackingState::Tracking => match self.machine.session {
                Some(s) => if self.store.breaks.len() < max_rows() {
                    Outcome {
                        control: Control {
                            machine: self.machine.pause(
                                (self.store.breaks.len() + 1) as i64,
                                now,
                            ).unwrap(),
                            store: self.store.with_break(s.id, now),
                        },
                        result: Ok(()),
                    }
                } else {
                    self.refused(TrackerError::Persistence(PersistenceError::StoreFull))
                },
                None => self.refused(TrackerError::State(StateError::NoActiveSession)),
            },
            TrackingState::Paused => self.refused(TrackerError::State(StateError::AlreadyPaused)),
            TrackingState::Stopped => self.refused(TrackerError::State(StateError::NotTracking)),
        }
    }

    /// `resume`: while paused, the open break ends and tracking goes on.
    pub open spec fn resume(self, now: Timestamp) -> Outcome {
        match self.machine.state {
            TrackingState::Paused => Outcome {
                control: Control {
                    machine: self.machine.resume().unwrap(),
                    store: self.store_without_break(now),
                },
                result: Ok(()),
            },
            TrackingState::Tracking => self.refused(
                TrackerError::State(StateError::AlreadyTracking),
            ),
            TrackingState::Stopped => self.refused(TrackerError::State(StateError::NotInSession)),
        }
    }

    /// `stop`: while tracking or paused, the session ends at `now` in store
    /// and machine, and so does the open break if there is one.
    pub open spec fn stop(self, now: Timestamp) -> Outcome {
        match self.machine.state {
            TrackingState::Stopped => self.refused(TrackerError::State(StateError::NotTracking)),
            _ => Outcome {
                control: Control {
                    machine: self.machine.stop(now).unwrap(),
                    store: match self.machine.session {
                        Some(s) => (Control {
                            machine: self.machine,
                            store: self.store.session_ended(s.id, now),
                        }).store_without_break(now),
                        None => self.store_without_break(now),
                    },
                },
                result: Ok(()),
            },
        }
    }

    /// The outcome of one command.
    pub open spec fn step(self, command: Command, now: Timestamp) -> Outcome {
        match command {
            Command::Start => self.start(now),
            Command::Pause => self.pause(now),
            Command::Resume => self.resume(now),
            Command::Stop => self.stop(now),
        }
    }

    /// The control after a sequence of commands, each with the time at which
    /// it was given; refused commands change nothing.
    pub open spec fn after(self, commands: Seq<(Command, Timestamp)>) -> Control
        decreases commands.len(),
    {
        if commands.len() == 0 {
            self
        } else {
            self.after(commands.drop_last()).step(commands.last().0, commands.last().1).control
        }
    }
}

/// The store after the units were stored for session `session_id`, one after
/// the other.
pub open spec fn with_activities(store: Store, session_id: i64, units: Seq<Activity>) -> Store
    decreases units.len(),
{
    if units.len() == 0 {
        store
    } else {
        with_activities(store, session_id, units.drop_last()).with_activity(
            session_id,
            units.last(),
        )
    }
}

/// How many of `wanted` units a store takes before it is full.
pub open spec fn room_for(store: Store, wanted: nat) -> nat {
    if store.activities.len() + wanted <= max_rows() {
        wanted
    } else {
        (max_rows() - store.activities.len()) as nat
    }
}

/// What a `WorkTracker` holds, as a plain value.
pub struct TrackerView {
    pub control: Control,
    /// The cursor: observations are fetched from here on.
    pub last_sync: Timestamp,
    /// When the last export ended.
    pub last_llm_analysis: Timestamp,
    /// The pinned issue key, if one is pinned.
    pub issue_override: Option<Seq<char>>,
    pub config: Config,
}

impl TrackerView {
    /// The session to export at `now`, if an export is due: the interval has
    /// passed since the last export ended, and the machine holds a session.
    pub open spec fn export_due(self, now: Timestamp) -> Option<i64> {
        if age_secs(self.last_llm_analysis, now) >= self.config.tracking.llm_batch_interval_secs {
            match self.control.machine.session {
                Some(s) => Some(s.id),
                None => None,
            }
        } else {
            None
        }
    }

    /// What to fetch on a tick: while tracking, the session to store for and
    /// the cursor to fetch from; nothing in the other states.
    pub open spec fn sync_window(self) -> Option<(i64, Timestamp)> {
        if self.control.machine.state == TrackingState::Tracking {
            match self.control.machine.session {
                Some(s) => Some((s.id, self.last_sync)),
                None => None,
            }
        } else {
            None
        }
    }
}

/// Store and state machine as the tracker holds them: one value, so that
/// the two always change together.
struct Parts {
    database: Database,
    state_manager: StateManager,
}

impl Parts {
    /// Store and machine as a plain value.
    spec fn control(&self) -> Control {
        Control { machine: self.state_manager@, store: self.database@ }
    }

    /// A stopped machine over an empty store.
    fn fresh() -> (p: Parts)
        ensures
            p.control().linked(),
    {
        Parts { database: Database::new(), state_manager: StateManager::new() }
    }

    /// Ends the machine's break in the store, if it holds an open one.
    fn end_open_break(&mut self, now: Timestamp)
        ensures
            final(self).control() == (Control {
                machine: old(self).control().machine,
                store: old(self).control().store_without_break(now),
            }),
    {
        let open_break: Option<i64> = match self.state_manager.current_break() {
            Some(b) => if b.is_active() {
                Some(b.id)
            } else {
                None
            },
            None => None,
        };
        match open_break {
            Some(id) => {
                let _ = self.database.end_break_at(id, now);
            },
            None => {},
        }
    }

    /// Ends the open break in the store and goes on tracking.
    fn leave_break(&mut self, now: Timestamp) -> (r: Result<(), TrackerError>)
        requires
            old(self).control().machine.state == TrackingState::Paused,
        ensures
            final(self).control() == (Control {
                machine: old(self).control().machine.resume().unwrap(),
                store: old(self).control().store_without_break(now),
            }),
            r == Ok::<(), TrackerError>(()),
    {
        self.end_open_break(now);
        match self.state_manager.resume_tracking() {
            Ok(()) => Ok(()),
            Err(e) => Err(TrackerError::State(e)),
        }
    }

    /// `start` on store and machine.
    fn start(&mut self, now: Timestamp) -> (r: Result<(), TrackerError>)
        requires
            old(self).control().linked(),
        ensures
            final(self).control() == old(self).control().start(now).control,
            r == old(self).control().start(now).result,
    {
        match self.state_manager.current_state() {
            TrackingState::Stopped => {
                let id = match self.database.create_session_at(now) {
                    Ok(id) => id,
                    Err(e) => {
                        return Err(TrackerError::Persistence(e));
                    },
                };
                match self.state_manager.start_tracking_at(id, now) {
                    Ok(()) => Ok(()),
                    Err(e) => Err(TrackerError::State(e)),
                }
            },
            TrackingState::Tracking => Err(TrackerError::State(StateError::AlreadyTracking)),
            TrackingState::Paused => self.leave_break(now),
        }
    }

    /// `pause` on store and machine.
    fn pause(&mut self, now: Timestamp) -> (r: Result<(), TrackerError>)
        requires
            old(self).control().linked(),
        ensures
            final(self).control() == old(self).control().pause(now).control,
            r == old(self).control().pause(now).result,
    {
        match self.state_manager.current_state() {
            TrackingState::Tracking => {
                let session_id = match self.state_manager.current_session() {
                    Some(s) => s.id,
                    None => {
                        return Err(TrackerError::State(StateError::NoActiveSession));
                    },
                };
                let id = match self.database.create_break_at(session_id, now) {
                    Ok(id) => id,
                    Err(e) => {
                        return Err(TrackerError::Persistence(e));
                    },
                };
                match self.state_manager.pause_tracking_at(id, now) {
                    Ok(()) => Ok(()),
                    Err(e) => Err(TrackerError::State(e)),
                }
            },
            TrackingState::Paused => Err(TrackerError::State(StateError::AlreadyPaused)),
            TrackingState::Stopped => Err(TrackerError::State(StateError::NotTracking)),
        }
    }

    /// `resume` on store and machine.
    fn resume(&mut self, now: Timestamp) -> (r: Result<(), TrackerError>)
        requires
            old(self).control().linked(),
        ensures
            final(self).control() == old(self).control().resume(now).control,
            r == old(self).control().resume(now).result,
    {
        match self.state_manager.current_state() {
            TrackingState::Paused => self.leave_break(now),
            TrackingState::Tracking => Err(TrackerError::State(StateError::AlreadyTracking)),
            TrackingState::Stopped => Err(TrackerError::State(StateError::NotInSession)),
        }
    }

    /// `stop` on store and machine; the result is the session that ended.
    fn stop(&mut self, now: Timestamp) -> (r: Result<i64, TrackerError>)
        requires
            old(self).control().linked(),
        ensures
            final(self).control() == old(self).control().stop(now).control,
            match old(self).control().stop(now).result {
                Ok(_) => r == Ok::<i64, TrackerError>(
                    old(self).control().machine.session.unwrap().id,
                ),
                Err(e) => r == Err::<i64, TrackerError>(e),
            },
    {
        match self.state_manager.current_state() {
            TrackingState::Stopped => Err(TrackerError::State(StateError::NotTracking)),
            _ => {
                let session_id = match self.state_manager.current_session() {
                    Some(s) => s.id,
                    None => {
                        return Err(TrackerError::State(StateError::NoActiveSession));
                    },
                };
                let _ = self.database.end_session_at(session_id, now);
                self.end_open_break(now);
                match self.state_manager.stop_tracking_at(now) {
                    Ok(()) => Ok(session_id),
                    Err(e) => Err(TrackerError::State(e)),
                }
            },
        }
    }

    /// Stores the units for session `session_id`, in order, until the store
    /// is full.
    fn store_units(&mut self, session_id: i64, units: &Vec<Activity>) -> (r: Result<
        usize,
        TrackerError,
    >)
        requires
            old(self).control().linked(),
        ensures
            final(self).control().linked(),
            final(self).control() == (Control {
                machine: old(self).control().machine,
                store: with_activities(
                    old(self).control().store,
                    session_id,
                    units@.take(room_for(old(self).control().store, units@.len()) as int),
                ),
            }),
            if room_for(old(self).control().store, units@.len()) == units@.len() {
                r == Ok::<usize, TrackerError>(units@.len() as usize)
            } else {
                r == Err::<usize, TrackerError>(
                    TrackerError::Persistence(PersistenceError::StoreFull),
                )
            },
    {
        let ghost before = old(self).control().store;
        let mut k: usize = 0;
        while k < units.len()
            invariant
                k <= units@.len(),
                old(self).control().linked(),
                before == old(self).control().store,
                before.activities.len() + k <= max_rows(),
                self.control() == (Control {
                    machine: old(self).control().machine,
                    store: with_activities(before, session_id, units@.take(k as int)),
                }),
                self.control().store.activities.len() == before.activities.len() + k,
                self.control().store.sessions == before.sessions,
                self.control().store.breaks == before.breaks,
                self.control().store.well_formed(),
            decreases units@.len() - k,
        {
            proof {
                assert(units@.take(k + 1).drop_last() == units@.take(k as int));
                assert(units@.take(k + 1).last() == units@[k as int]);
            }
            match self.database.store_activity(session_id, &units[k]) {
                Ok(_) => {},
                Err(e) => {
                    return Err(TrackerError::Persistence(e));
                },
            }
            k = k + 1;
        }
        assert(units@.take(units@.len() as int) == units@);
        Ok(k)
    }
}

/// The tracker: settings, store, state machine, the cursor of the fetches,
/// the time of the last export, and the pinned issue key.
pub struct WorkTracker {
    config: Config,
    parts: Parts,
    last_sync: Timestamp,
    last_llm_analysis: Timestamp,
    issue_override: Option<String>,
}

impl View for WorkTracker {
    type V = TrackerView;

    closed spec fn view(&self) -> TrackerView {
        TrackerView {
            control: self.parts.control(),
            last_sync: self.last_sync,
            last_llm_analysis: self.last_llm_analysis,
            issue_override: text_view(self.issue_override),
            config: self.config,
        }
    }
}

/// The view of an optional text.
pub open spec fn text_view(text: Option<String>) -> Option<Seq<char>> {
    match text {
        Some(t) => Some(t@),
        None => None,
    }
}

/// What a stop at `now` returns: the refusal where it is refused; else the
/// session to export now, where the settings ask for an export on stop.
pub open spec fn stop_result(before: TrackerView, now: Timestamp) -> Result<
    Option<i64>,
    TrackerError,
> {
    match before.control.stop(now).result {
        Ok(_) => Ok(
            if before.config.tracking.analyze_on_stop {
                Some(before.control.machine.session.unwrap().id)
            } else {
                None
            },
        ),
        Err(e) => Err(e),
    }
}

/// What `sync_at` owes: the units of the fetch are stored as far as the
/// store has room, the cursor stands at `now`, and nothing else changed.
pub open spec fn synced(
    before: TrackerView,
    session_id: i64,
    observations: Seq<Activity>,
    now: Timestamp,
    after: TrackerView,
    result: Result<usize, TrackerError>,
) -> bool {
    let units = consolidated(observations);
    let stored = room_for(before.control.store, units.len());
    &&& after == (TrackerView {
        control: Control {
            machine: before.control.machine,
            store: with_activities(before.control.store, session_id, units.take(stored as int)),
        },
        last_sync: now,
        ..before
    })
    &&& if stored == units.len() {
        result == Ok::<usize, TrackerError>(stored as usize)
    } else {
        result == Err::<usize, TrackerError>(
            TrackerError::Persistence(PersistenceError::StoreFull),
        )
    }
}

impl WorkTracker {
    #[verifier::type_invariant]
    closed spec fn inv(self) -> bool {
        self.parts.control().linked()
    }

    /// A stopped tracker over an empty store, made at `now`: its cursor
    /// stands five minutes earlier, and its last export counts as ended at
    /// `now`. Units shorter than the configured threshold are micro.
    pub fn new_at(config: Config, issue_override: Option<String>, now: Timestamp) -> (t:
        WorkTracker)
        ensures
            t@ == (TrackerView {
                control: Control::initial(config.tracking.micro_activity_threshold_secs),
                last_sync: now.earlier_by(INITIAL_LOOKBACK_MILLIS),
                last_llm_analysis: now,
                issue_override: text_view(issue_override),
                config,
            }),
            t@.control.linked(),
    {
        let database = Database::with_micro_threshold(
            config.tracking.micro_activity_threshold_secs,
        );
        WorkTracker {
            config,
            parts: Parts { database, state_manager: StateManager::new() },
            last_sync: now.minus_millis(INITIAL_LOOKBACK_MILLIS),
            last_llm_analysis: now,
            issue_override,
        }
    }

    /// A stopped tracker over the rows of an earlier run, made at `now`.
    /// Sessions and breaks that the earlier run left open end at `now`.
    pub fn restore_at(
        config: Config,
        issue_override: Option<String>,
        database: Database,
        now: Timestamp,
    ) -> (t: WorkTracker)
        ensures
            t@ == (TrackerView {
                control: Control {
                    machine: Machine::initial(),
                    store: database@.closed_at(now),
                },
                last_sync: now.earlier_by(INITIAL_LOOKBACK_MILLIS),
                last_llm_analysis: now,
                issue_override: text_view(issue_override),
                config,
            }),
            t@.control.linked(),
    {
        let mut database = database;
        let ghost rows = database@;
        database.close_open_at(now);
        proof {
            crate::database::lemma_closed_store(rows, now);
        }
        WorkTracker {
            config,
            parts: Parts { database, state_manager: StateManager::new() },
            last_sync: now.minus_millis(INITIAL_LOOKBACK_MILLIS),
            last_llm_analysis: now,
            issue_override,
        }
    }

    /// A stopped tracker over an empty store, made at the current time of
    /// the system clock.
    pub fn new(config: Config, issue_override: Option<String>) -> (t: WorkTracker)
        ensures
            t@.control == Control::initial(config.tracking.micro_activity_threshold_secs),
            t@.control.linked(),
            t@.issue_override == text_view(issue_override),
            t@.config == config,
            t@.last_sync == t@.last_llm_analysis.earlier_by(INITIAL_LOOKBACK_MILLIS),
    {
        let now = Timestamp::now();
        WorkTracker::new_at(config, issue_override, now)
    }

    /// The settings.
    pub fn config(&self) -> (c: &Config)
        ensures
            *c == self@.config,
    {
        &self.config
    }

    /// The store. Store and state machine are linked at all times.
    pub fn database(&self) -> (db: &Database)
        ensures
            db@ == self@.control.store,
            self@.control.linked(),
    {
        proof {
            use_type_invariant(self);
        }
        &self.parts.database
    }

    /// The state machine. Store and state machine are linked at all times.
    pub fn state_manager(&self) -> (m: &StateManager)
        ensures
            m@ == self@.control.machine,
            self@.control.linked(),
    {
        proof {
            use_type_invariant(self);
        }
        &self.parts.state_manager
    }

    /// The cursor: observations are fetched from here on.
    pub fn last_sync(&self) -> (t: Timestamp)
        ensures
            t == self@.last_sync,
    {
        self.last_sync
    }

    /// When the last export ended.
    pub fn last_llm_analysis(&self) -> (t: Timestamp)
        ensures
            t == self@.last_llm_analysis,
    {
        self.last_llm_analysis
    }

    /// The pinned issue key, if one is pinned.
    pub fn issue_override(&self) -> (key: Option<&String>)
        ensures
            match key {
                Some(k) => self@.issue_override == Some(k@),
                None => self@.issue_override is None,
            },
    {
        self.issue_override.as_ref()
    }

    /// Pins an issue key, or unpins with `None`.
    pub fn set_issue_override(&mut self, key: Option<String>)
        ensures
            final(self)@ == (TrackerView { issue_override: text_view(key), ..old(self)@ }),
            final(self)@.control.linked(),
    {
        proof {
            use_type_invariant(&*self);
        }
        self.issue_override = key;
    }

    /// Starts or resumes tracking at `now`.
    pub fn start_tracking_at(&mut self, now: Timestamp) -> (r: Result<(), TrackerError>)
        ensures
            final(self)@.control.linked(),
            final(self)@ == (TrackerView {
                control: old(self)@.control.start(now).control,
                ..old(self)@
            }),
            r == old(self)@.control.start(now).result,
    {
        proof {
            use_type_invariant(&*self);
            lemma_step_keeps_link(old(self)@.control, Command::Start, now);
        }
        let mut parts = Parts::fresh();
        std::mem::swap(&mut self.parts, &mut parts);
        let r = parts.start(now);
        std::mem::swap(&mut self.parts, &mut parts);
        r
    }

    /// Starts or resumes tracking at the current time of the system clock.
    pub fn start_tracking(&mut self) -> (r: Result<(), TrackerError>)
        ensures
            final(self)@.control.linked(),
            exists|now: Timestamp|
                final(self)@ == (TrackerView {
                    control: (#[trigger] old(self)@.control.start(now)).control,
                    ..old(self)@
                }) && r == old(self)@.control.start(now).result,
    {
        let now = Timestamp::now();
        let r = self.start_tracking_at(now);
        assert(self@ == (TrackerView {
            control: old(self)@.control.start(now).control,
            ..old(self)@
        }) && r == old(self)@.control.start(now).result);
        r
    }

    /// Opens a break at `now`.
    pub fn pause_tracking_at(&mut self, now: Timestamp) -> (r: Result<(), TrackerError>)
        ensures
            final(self)@.control.linked(),
            final(self)@ == (TrackerView {
                control: old(self)@.control.pause(now).control,
                ..old(self)@
            }),
            r == old(self)@.control.pause(now).result,
    {
        proof {
            use_type_invariant(&*self);
            lemma_step_keeps_link(old(self)@.control, Command::Pause, now);
        }
        let mut parts = Parts::fresh();
        std::mem::swap(&mut self.parts, &mut parts);
        let r = parts.pause(now);
        std::mem::swap(&mut self.parts, &mut parts);
        r
    }

    /// Opens a break at the current time of the system clock.
    pub fn pause_tracking(&mut self) -> (r: Result<(), TrackerError>)
        ensures
            final(self)@.control.linked(),
            exists|now: Timestamp|
                final(self)@ == (TrackerView {
                    control: (#[trigger] old(self)@.control.pause(now)).control,
                    ..old(self)@
                }) && r == old(self)@.control.pause(now).result,
    {
        let now = Timestamp::now();
        let r = self.pause_tracking_at(now);
        assert(self@ == (TrackerView {
            control: old(self)@.control.pause(now).control,
            ..old(self)@
        }) && r == old(self)@.control.pause(now).result);
        r
    }

    /// Ends the break at `now` and goes on tracking.
    pub fn resume_tracking_at(&mut self, now: Timestamp) -> (r: Result<(), TrackerError>)
        ensures
            final(self)@.control.linked(),
            final(self)@ == (TrackerView {
                control: old(self)@.control.resume(now).control,
                ..old(self)@
            }),
            r == old(self)@.control.resume(now).result,
    {
        proof {
            use_type_invariant(&*self);
            lemma_step_keeps_link(old(self)@.control, Command::Resume, now);
        }
        let mut parts = Parts::fresh();
        std::mem::swap(&mut self.parts, &mut parts);
        let r = parts.resume(now);
        std::mem::swap(&mut self.parts, &mut parts);
        r
    }

    /// Ends the break at the current time of the system clock and goes on
    /// tracking.
    pub fn resume_tracking(&mut self) -> (r: Result<(), TrackerError>)
        ensures
            final(self)@.control.linked(),
            exists|now: Timestamp|
                final(self)@ == (TrackerView {
                    control: (#[trigger] old(self)@.control.resume(now)).control,
                    ..old(self)@
                }) && r == old(self)@.control.resume(now).result,
    {
        let now = Timestamp::now();
        let r = self.resume_tracking_at(now);
        assert(self@ == (TrackerView {
            control: old(self)@.control.resume(now).control,
            ..old(self)@
        }) && r == old(self)@.control.resume(now).result);
        r
    }

    /// Stops tracking at `now`. On success the result names the session to
    /// export now, where the settings ask for an export on stop.
    pub fn stop_tracking_at(&mut self, now: Timestamp) -> (r: Result<Option<i64>, TrackerError>)
        ensures
            final(self)@.control.linked(),
            final(self)@ == (TrackerView {
                control: old(self)@.control.stop(now).control,
                ..old(self)@
            }),
            r == stop_result(old(self)@, now),
    {
        proof {
            use_type_invariant(&*self);
            lemma_step_keeps_link(old(self)@.control, Command::Stop, now);
        }
        let mut parts = Parts::fresh();
        std::mem::swap(&mut self.parts, &mut parts);
        let stopped = parts.stop(now);
        std::mem::swap(&mut self.parts, &mut parts);
        match stopped {
            Ok(session_id) => if self.config.tracking.analyze_on_stop {
                Ok(Some(session_id))
            } else {
                Ok(None)
            },
            Err(e) => Err(e),
        }
    }

    /// Stops tracking at the current time of the system clock.
    pub fn stop_tracking(&mut self) -> (r: Result<Option<i64>, TrackerError>)
        ensures
            final(self)@.control.linked(),
            exists|now: Timestamp|
                final(self)@ == (TrackerView {
                    control: (#[trigger] old(self)@.control.stop(now)).control,
                    ..old(self)@
                }) && r == stop_result(old(self)@, now),
    {
        let now = Timestamp::now();
        let r = self.stop_tracking_at(now);
        assert(self@ == (TrackerView {
            control: old(self)@.control.stop(now).control,
            ..old(self)@
        }) && r == stop_result(old(self)@, now));
        r
    }

    /// What to fetch on a tick: while tracking, the session to store for and
    /// the cursor to fetch from; nothing in the other states.
    pub fn sync_window(&self) -> (r: Option<(i64, Timestamp)>)
        ensures
            r == self@.sync_window(),
    {
        if self.parts.state_manager.current_state().is_tracking() {
            match self.parts.state_manager.current_session() {
                Some(s) => Some((s.id, self.last_sync)),
                None => None,
            }
        } else {
            None
        }
    }

    /// Records what a fetch at `now` brought: the cursor moves to `now`,
    /// whether or not all is stored; the observations are consolidated and
    /// the units stored for session `session_id`, in order, until the store
    /// is full. The result is the number of units stored, or the store's
    /// refusal.
    pub fn sync_at(&mut self, session_id: i64, observations: &[Activity], now: Timestamp) -> (r:
        Result<usize, TrackerError>)
        ensures
            final(self)@.control.linked(),
            synced(old(self)@, session_id, observations@, now, final(self)@, r),
    {
        proof {
            use_type_invariant(&*self);
        }
        self.last_sync = now;
        let units = consolidate_activities(observations);
        let mut parts = Parts::fresh();
        std::mem::swap(&mut self.parts, &mut parts);
        let r = parts.store_units(session_id, &units);
        std::mem::swap(&mut self.parts, &mut parts);
        r
    }

    /// Records what a fetch brought, with the cursor moved to the current
    /// time of the system clock.
    pub fn sync(&mut self, session_id: i64, observations: &[Activity]) -> (r: Result<
        usize,
        TrackerError,
    >)
        ensures
            final(self)@.control.linked(),
            exists|now: Timestamp|
                synced(old(self)@, session_id, observations@, now, final(self)@, r),
    {
        let now = Timestamp::now();
        let r = self.sync_at(session_id, observations, now);
        assert(synced(old(self)@, session_id, observations@, now, self@, r));
        r
    }

    /// The session to export at `now`, if an export is due.
    pub fn export_due_at(&self, now: Timestamp) -> (r: Option<i64>)
        ensures
            r == self@.export_due(now),
    {
        let age: i64 = self.last_llm_analysis.age_at(now);
        if age >= 0 && age as u64 >= self.config.tracking.llm_batch_interval_secs {
            match self.parts.state_manager.current_session() {
                Some(s) => Some(s.id),
                None => None,
            }
        } else {
            None
        }
    }

    /// The session to export now, if an export is due by the system clock.
    pub fn export_due(&self) -> (r: Option<i64>)
        ensures
            exists|now: Timestamp| r == #[trigger] self@.export_due(now),
    {
        let now = Timestamp::now();
        let r = self.export_due_at(now);
        assert(r == self@.export_due(now));
        r
    }

    /// Notes that an export ended at `now`.
    pub fn export_finished_at(&mut self, now: Timestamp)
        ensures
            final(self)@ == (TrackerView { last_llm_analysis: now, ..old(self)@ }),
            final(self)@.control.linked(),
    {
        proof {
            use_type_invariant(&*self);
        }
        self.last_llm_analysis = now;
    }

    /// Marks the units with an id in `activity_ids` as exported.
    pub fn mark_activities_logged(&mut self, activity_ids: &[i64])
        ensures
            final(self)@.control.linked(),
            final(self)@ == (TrackerView {
                control: Control {
                    machine: old(self)@.control.machine,
                    store: old(self)@.control.store.marked(activity_ids@),
                },
                ..old(self)@
            }),
    {
        proof {
            use_type_invariant(&*self);
        }
        let mut parts = Parts::fresh();
        std::mem::swap(&mut self.parts, &mut parts);
        let _ = parts.database.mark_activities_logged(activity_ids);
        std::mem::swap(&mut self.parts, &mut parts);
    }

    /// Stores a classifier result for session `session_id` at `now`.
    pub fn store_analysis_at(
        &mut self,
        session_id: i64,
        llm_response: String,
        confidence: crate::confidence::Confidence,
        now: Timestamp,
    ) -> (r: Result<i64, PersistenceError>)
        ensures
            final(self)@.control.linked(),
            match r {
                Ok(id) => old(self)@.control.store.analyses.len() < max_rows() && final(self)@ == (
                TrackerView {
                    control: Control {
                        machine: old(self)@.control.machine,
                        store: old(self)@.control.store.with_analysis(
                            session_id,
                            llm_response,
                            confidence,
                            now,
                        ),
                    },
                    ..old(self)@
                }) && id == old(self)@.control.store.analyses.len() + 1,
                Err(e) => old(self)@.control.store.analyses.len() >= max_rows() && e
                    == PersistenceError::StoreFull && final(self)@ == old(self)@,
            },
    {
        proof {
            use_type_invariant(&*self);
        }
        let mut parts = Parts::fresh();
        std::mem::swap(&mut self.parts, &mut parts);
        let r = parts.database.store_analysis_at(session_id, llm_response, confidence, now);
        std::mem::swap(&mut self.parts, &mut parts);
        r
    }
}

/// A refused command changes nothing, and a command keeps machine and store
/// linked.
pub proof fn lemma_step_keeps_link(control: Control, command: Command, now: Timestamp)
    requires
        control.linked(),
    ensures
        control.step(command, now).control.linked(),
        control.step(command, now).result is Err ==> control.step(command, now).control
            == control,
{
    let next = control.step(command, now).control;
    match command {
        Command::Start => {
            if control.machine.state == TrackingState::Stopped && control.store.sessions.len()
                < max_rows() {
                let id = (control.store.sessions.len() + 1) as i64;
                assert(next.store.sessions[id - 1].end_time is None);
                assert forall|i: int| 0 <= i < next.store.sessions.len() implies ((
                #[trigger] next.store.sessions[i]).end_time is None <==> i == id - 1) by {
                    if i < control.store.sessions.len() {
                        assert(next.store.sessions[i] == control.store.sessions[i]);
                    }
                }
            } else if control.machine.state == TrackingState::Paused {
                lemma_break_closed(control, now);
            }
        },
        Command::Pause => {
            if control.machine.state == TrackingState::Tracking && control.store.breaks.len()
                < max_rows() {
                let id = (control.store.breaks.len() + 1) as i64;
                assert(next.store.breaks[id - 1].end_time is None);
                assert forall|i: int| 0 <= i < next.store.breaks.len() implies ((
                #[trigger] next.store.breaks[i]).end_time is None <==> i == id - 1) by {
                    if i < control.store.breaks.len() {
                        assert(next.store.breaks[i] == control.store.breaks[i]);
                    }
                }
            }
        },
        Command::Resume => {
            if control.machine.state == TrackingState::Paused {
                lemma_break_closed(control, now);
            }
        },
        Command::Stop => {
            if control.machine.state != TrackingState::Stopped {
                let s = control.machine.session.unwrap();
                let mid = Control {
                    machine: control.machine,
                    store: control.store.session_ended(s.id, now),
                };
                assert forall|i: int| 0 <= i < mid.store.sessions.len() implies (
                #[trigger] mid.store.sessions[i]).end_time is Some by {
                    if i != s.id - 1 {
                        assert(mid.store.sessions[i] == control.store.sessions[i]);
                    }
                }
                if control.machine.state == TrackingState::Paused {
                    let b = control.machine.current_break.unwrap();
                    assert(mid.only_open_break(b.id));
                    lemma_break_closed(mid, now);
                } else {
                    assert(mid.no_open_break());
                    if control.machine.current_break is Some {
                        assert(control.machine.current_break.unwrap().end_time is Some);
                    }
                }
            }
        },
    }
}

/// Where the machine's break is the one open break of the store, the store
/// without it has no open break and is otherwise the same.
proof fn lemma_break_closed(control: Control, now: Timestamp)
    requires
        control.store.well_formed(),
        control.machine.current_break matches Some(b) && b.end_time is None
            && control.only_open_break(b.id),
    ensures
        (Control { machine: control.machine, store: control.store_without_break(now) }).no_open_break(),
        control.store_without_break(now).well_formed(),
        control.store_without_break(now).sessions == control.store.sessions,
        control.store_without_break(now).activities == control.store.activities,
        control.store_without_break(now).analyses == control.store.analyses,
        control.store_without_break(now).micro_threshold_secs
            == control.store.micro_threshold_secs,
        control.store_without_break(now).breaks.len() == control.store.breaks.len(),
{
    let b = control.machine.current_break.unwrap();
    let after = control.store_without_break(now);
    assert forall|i: int| 0 <= i < after.breaks.len() implies (#[trigger] after.breaks[i]).end_time
        is Some by {
        if i != b.id - 1 {
            assert(after.breaks[i] == control.store.breaks[i]);
        }
    }
}

/// No command touches a unit or a classifier result: whatever is exported
/// stays exported.
pub proof fn lemma_commands_leave_units_alone(control: Control, command: Command, now: Timestamp)
    ensures
        control.step(command, now).control.store.activities == control.store.activities,
        control.step(command, now).control.store.analyses == control.store.analyses,
        control.step(command, now).control.store.micro_threshold_secs
            == control.store.micro_threshold_secs,
{
}

/// Storing units adds them behind the units that are there, and changes
/// none of those: what is exported stays exported.
pub proof fn lemma_stored_units_are_appended(store: Store, session_id: i64, units: Seq<Activity>)
    ensures
        with_activities(store, session_id, units).activities.len() == store.activities.len()
            + units.len(),
        forall|i: int|
            0 <= i < store.activities.len() ==> (#[trigger] with_activities(
                store,
                session_id,
                units,
            ).activities[i]) == store.activities[i],
        forall|k: int|
            0 <= k < units.len() ==> (#[trigger] with_activities(
                store,
                session_id,
                units,
            ).activities[store.activities.len() + k]).observation() == units[k] && !with_activities(
                store,
                session_id,
                units,
            ).activities[store.activities.len() + k].logged_to_jira && with_activities(
                store,
                session_id,
                units,
            ).activities[store.activities.len() + k].session_id == session_id,
        with_activities(store, session_id, units).sessions == store.sessions,
        with_activities(store, session_id, units).breaks == store.breaks,
    decreases units.len(),
{
    if units.len() > 0 {
        lemma_stored_units_are_appended(store, session_id, units.drop_last());
        let before = with_activities(store, session_id, units.drop_last());
        let after = with_activities(store, session_id, units);
        assert forall|k: int| 0 <= k < units.len() implies (#[trigger] after.activities[
            store.activities.len() + k]).observation() == units[k]
            && !after.activities[store.activities.len() + k].logged_to_jira
            && after.activities[store.activities.len() + k].session_id == session_id by {
            if k < units.len() - 1 {
                assert(after.activities[store.activities.len() + k]
                    == before.activities[store.activities.len() + k]);
                assert(units.drop_last()[k] == units[k]);
            }
        }
    }
}

/// Whatever commands are given, in whatever order and at whatever times,
/// machine and store stay linked.
pub proof fn lemma_always_linked(micro_threshold_secs: u64, commands: Seq<(Command, Timestamp)>)
    ensures
        Control::initial(micro_threshold_secs).after(commands).linked(),
    decreases commands.len(),
{
    if commands.len() > 0 {
        lemma_always_linked(micro_threshold_secs, commands.drop_last());
        lemma_step_keeps_link(
            Control::initial(micro_threshold_secs).after(commands.drop_last()),
            commands.last().0,
            commands.last().1,
        );
    }
}

/// While machine and store are linked, no two sessions are open at once, and
/// no two breaks: so no session has two open breaks.
pub proof fn lemma_one_open_at_most(control: Control)
    requires
        control.linked(),
    ensures
        forall|i: int, j: int|
            0 <= i < control.store.sessions.len() && 0 <= j < control.store.sessions.len() && (
            #[trigger] control.store.sessions[i]).end_time is None && (
            #[trigger] control.store.sessions[j]).end_time is None ==> i == j,
        forall|i: int, j: int|
            0 <= i < control.store.breaks.len() && 0 <= j < control.store.breaks.len() && (
            #[trigger] control.store.breaks[i]).end_time is None && (
            #[trigger] control.store.breaks[j]).end_time is None ==> i == j,
{
}

/// After no sequence of commands are two sessions open at once, or two
/// breaks.
pub proof fn lemma_never_two_open(micro_threshold_secs: u64, commands: Seq<(Command, Timestamp)>)
    ensures
        forall|i: int, j: int|
            #![trigger
                Control::initial(micro_threshold_secs).after(commands).store.sessions[i],
                Control::initial(micro_threshold_secs).after(commands).store.sessions[j]
            ]
            0 <= i < Control::initial(micro_threshold_secs).after(commands).store.sessions.len()
                && 0 <= j < Control::initial(micro_threshold_secs).after(
                commands,
            ).store.sessions.len() && Control::initial(micro_threshold_secs).after(
                commands,
            ).store.sessions[i].end_time is None && Control::initial(micro_threshold_secs).after(
                commands,
            ).store.sessions[j].end_time is None ==> i == j,
        forall|i: int, j: int|
            #![trigger
                Control::initial(micro_threshold_secs).after(commands).store.breaks[i],
                Control::initial(micro_threshold_secs).after(commands).store.breaks[j]
            ]
            0 <= i < Control::initial(micro_threshold_secs).after(commands).store.breaks.len()
                && 0 <= j < Control::initial(micro_threshold_secs).after(
                commands,
            ).store.breaks.len() && Control::initial(micro_threshold_secs).after(
                commands,
            ).store.breaks[i].end_time is None && Control::initial(micro_threshold_secs).after(
                commands,
            ).store.breaks[j].end_time is None ==> i == j,
{
    lemma_always_linked(micro_threshold_secs, commands);
    lemma_one_open_at_most(Control::initial(micro_threshold_secs).after(commands));
}

/// A start that is accepted while stopped adds exactly one session, which is
/// open and starts at `now`, and changes no other; and it is accepted
/// wherever the store has room.
pub proof fn lemma_start_opens_one_session(control: Control, now: Timestamp)
    requires
        control.linked(),
        control.machine.state == TrackingState::Stopped,
    ensures
        control.start(now).result is Ok <==> control.store.sessions.len() < max_rows(),
        control.start(now).result is Ok ==> {
            let next = control.start(now).control;
            &&& next.store.sessions.len() == control.store.sessions.len() + 1
            &&& next.store.sessions.last().end_time is None
            &&& next.store.sessions.last().start_time == now
            &&& next.store.sessions.drop_last() == control.store.sessions
            &&& next.machine.state == TrackingState::Tracking
            &&& next.machine.session == Some(next.store.sessions.last())
        },
{
    if control.store.sessions.len() < max_rows() {
        let next = control.start(now).control;
        assert(next.store.sessions.drop_last() =~= control.store.sessions);
    }
}

/// A stop is accepted in every state but `Stopped`; it sets the end of the
/// open session to `now`, and after it no session and no break is open.
pub proof fn lemma_stop_closes_everything(control: Control, now: Timestamp)
    requires
        control.linked(),
        control.machine.state != TrackingState::Stopped,
    ensures
        control.stop(now).result is Ok,
        control.stop(now).control.machine.state == TrackingState::Stopped,
        control.stop(now).control.no_open_session(),
        control.stop(now).control.no_open_break(),
        control.stop(now).control.store.sessions[control.machine.session.unwrap().id - 1].end_time
            == Some(now),
        control.stop(now).control.machine.session.unwrap().end_time == Some(now),
{
    lemma_step_keeps_link(control, Command::Stop, now);
    let s = control.machine.session.unwrap();
    let mid = Control { machine: control.machine, store: control.store.session_ended(s.id, now) };
    if control.machine.state == TrackingState::Paused {
        let b = control.machine.current_break.unwrap();
        assert(mid.only_open_break(b.id));
        lemma_break_closed(mid, now);
    }
}

} // verus!
