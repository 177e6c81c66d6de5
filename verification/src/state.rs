//! Session state machine: the tracking state, the current session and break,
//! and the transitions between them.

use crate::time::{elapsed_secs, Timestamp};
use vstd::prelude::*;

verus! {

/// The three states of the tracker.
#[derive(Debug, Clone, Copy, PartialEq, Eq, Structural)]
pub enum TrackingState {
    /// Not tracking.
    Stopped,
    /// Actively tracking.
    Tracking,
    /// On a break inside a session.
    Paused,
}

impl TrackingState {
    /// The lower-case name under which the state is stored and reported.
    pub open spec fn name(self) -> Seq<char> {
        match self {
            TrackingState::Stopped => "stopped"@,
            TrackingState::Tracking => "tracking"@,
            TrackingState::Paused => "paused"@,
        }
    }

    /// The lower-case name of the state.
    pub fn as_str(&self) -> (s: &'static str)
        ensures
            s@ == self.name(),
    {
        match self {
            TrackingState::Stopped => "stopped",
            TrackingState::Tracking => "tracking",
            TrackingState::Paused => "paused",
        }
    }

    /// True exactly for `Tracking`.
    pub fn is_tracking(&self) -> (b: bool)
        ensures
            b == (*self == TrackingState::Tracking),
    {
        matches!(self, TrackingState::Tracking)
    }

    /// True exactly for `Paused`.
    pub fn is_paused(&self) -> (b: bool)
        ensures
            b == (*self == TrackingState::Paused),
    {
        matches!(self, TrackingState::Paused)
    }

    /// True exactly for `Stopped`.
    pub fn is_stopped(&self) -> (b: bool)
        ensures
            b == (*self == TrackingState::Stopped),
    {
        matches!(self, TrackingState::Stopped)
    }
}

/// Why a transition was refused.
#[derive(Debug, Clone, Copy, PartialEq, Eq, Structural)]
pub enum StateError {
    /// `start` or `resume` while tracking.
    AlreadyTracking,
    /// `pause` while tracking without a session.
    NoActiveSession,
    /// `pause` while paused.
    AlreadyPaused,
    /// `pause` or `stop` while stopped.
    NotTracking,
    /// `resume` while stopped.
    NotInSession,
}

impl StateError {
    /// The message shown to the caller of a refused transition.
    pub open spec fn text(self) -> Seq<char> {
        match self {
            StateError::AlreadyTracking => "Already tracking"@,
            StateError::NoActiveSession => "No active session"@,
            StateError::AlreadyPaused => "Already paused"@,
            StateError::NotTracking => "Not tracking"@,
            StateError::NotInSession => "Not in a session"@,
        }
    }

    /// The message shown to the caller of a refused transition.
    pub fn message(&self) -> (s: &'static str)
        ensures
            s@ == self.text(),
    {
        match self {
            StateError::AlreadyTracking => "Already tracking",
            StateError::NoActiveSession => "No active session",
            StateError::AlreadyPaused => "Already paused",
            StateError::NotTracking => "Not tracking",
            StateError::NotInSession => "Not in a session",
        }
    }
}

/// One tracking engagement from start to stop.
#[derive(Debug, Clone, Copy)]
pub struct Session {
    pub id: i64,
    pub start_time: Timestamp,
    pub end_time: Option<Timestamp>,
    pub state: TrackingState,
}

impl Session {
    /// The session that opens at `now`.
    pub open spec fn opened(id: i64, now: Timestamp) -> Session {
        Session { id, start_time: now, end_time: None, state: TrackingState::Tracking }
    }

    /// The length of the session in whole seconds, with `now` standing for
    /// the end while the session is open.
    pub open spec fn duration_at(self, now: Timestamp) -> nat {
        match self.end_time {
            Some(end) => elapsed_secs(self.start_time, end),
            None => elapsed_secs(self.start_time, now),
        }
    }

    /// A session that opens at the current time of the system clock.
    pub fn new(id: i64) -> (s: Session)
        ensures
            exists|now: Timestamp| s == Session::opened(id, now),
    {
        let now = Timestamp::now();
        let s = Session::new_at(id, now);
        assert(s == Session::opened(id, now));
        s
    }

    /// A session that opens at `now`.
    pub fn new_at(id: i64, now: Timestamp) -> (s: Session)
        ensures
            s == Session::opened(id, now),
    {
        Session { id, start_time: now, end_time: None, state: TrackingState::Tracking }
    }

    /// The length of the session in whole seconds, measured up to the current
    /// time of the system clock while the session is open.
    pub fn duration_secs(&self) -> (d: u64)
        ensures
            exists|now: Timestamp| d == self.duration_at(now),
            self.end_time is Some ==> d == elapsed_secs(self.start_time, self.end_time.unwrap()),
    {
        let now = Timestamp::now();
        let d = self.duration_secs_at(now);
        assert(d == self.duration_at(now));
        d
    }

    /// The length of the session in whole seconds, with `now` standing for
    /// the end while the session is open.
    pub fn duration_secs_at(&self, now: Timestamp) -> (d: u64)
        ensures
            d == self.duration_at(now),
    {
        match self.end_time {
            Some(end) => self.start_time.seconds_until(end),
            None => self.start_time.seconds_until(now),
        }
    }

    /// True while the session has no end.
    pub fn is_active(&self) -> (b: bool)
        ensures
            b == (self.end_time is None),
    {
        self.end_time.is_none()
    }
}

/// A paused interval within a session.
#[derive(Debug, Clone, Copy)]
pub struct BreakPeriod {
    pub id: i64,
    pub session_id: i64,
    pub start_time: Timestamp,
    pub end_time: Option<Timestamp>,
}

impl BreakPeriod {
    /// The break of session `session_id` that opens at `now`.
    pub open spec fn opened(id: i64, session_id: i64, now: Timestamp) -> BreakPeriod {
        BreakPeriod { id, session_id, start_time: now, end_time: None }
    }

    /// The length of the break in whole seconds, with `now` standing for the
    /// end while the break is open.
    pub open spec fn duration_at(self, now: Timestamp) -> nat {
        match self.end_time {
            Some(end) => elapsed_secs(self.start_time, end),
            None => elapsed_secs(self.start_time, now),
        }
    }

    /// A break that opens at the current time of the system clock.
    pub fn new(id: i64, session_id: i64) -> (b: BreakPeriod)
        ensures
            exists|now: Timestamp| b == BreakPeriod::opened(id, session_id, now),
    {
        let now = Timestamp::now();
        let b = BreakPeriod::new_at(id, session_id, now);
        assert(b == BreakPeriod::opened(id, session_id, now));
        b
    }

    /// A break that opens at `now`.
    pub fn new_at(id: i64, session_id: i64, now: Timestamp) -> (b: BreakPeriod)
        ensures
            b == BreakPeriod::opened(id, session_id, now),
    {
        BreakPeriod { id, session_id, start_time: now, end_time: None }
    }

    /// The length of the break in whole seconds, measured up to the current
    /// time of the system clock while the break is open.
    pub fn duration_secs(&self) -> (d: u64)
        ensures
            exists|now: Timestamp| d == self.duration_at(now),
            self.end_time is Some ==> d == elapsed_secs(self.start_time, self.end_time.unwrap()),
    {
        let now = Timestamp::now();
        let d = self.duration_secs_at(now);
        assert(d == self.duration_at(now));
        d
    }

    /// The length of the break in whole seconds, with `now` standing for the
    /// end while the break is open.
    pub fn duration_secs_at(&self, now: Timestamp) -> (d: u64)
        ensures
            d == self.duration_at(now),
    {
        match self.end_time {
            Some(end) => self.start_time.seconds_until(end),
            None => self.start_time.seconds_until(now),
        }
    }

    /// True while the break has no end.
    pub fn is_active(&self) -> (b: bool)
        ensures
            b == (self.end_time is None),
    {
        self.end_time.is_none()
    }
}

/// What a `StateManager` holds, as a plain value.
pub struct Machine {
    pub state: TrackingState,
    pub session: Option<Session>,
    pub current_break: Option<BreakPeriod>,
}

impl Machine {
    /// The machine before the first transition.
    pub open spec fn initial() -> Machine {
        Machine { state: TrackingState::Stopped, session: None, current_break: None }
    }

    /// The session it holds is open exactly while the machine is not stopped,
    /// and the break it holds is open exactly while the machine is paused.
    pub open spec fn consistent(self) -> bool {
        &&& self.session matches Some(s) ==> (s.end_time is None <==> self.state
            != TrackingState::Stopped)
        &&& self.current_break matches Some(b) ==> (b.end_time is None <==> self.state
            == TrackingState::Paused)
    }

    /// `start`: from `Stopped` a new session opens; from `Paused` the break
    /// is dropped and tracking goes on; refused while tracking.
    pub open spec fn start(self, session_id: i64, now: Timestamp) -> Result<Machine, StateError> {
        match self.state {
            TrackingState::Stopped => Ok(
                Machine {
                    state: TrackingState::Tracking,
                    session: Some(Session::opened(session_id, now)),
                    current_break: self.current_break,
                },
            ),
            TrackingState::Tracking => Err(StateError::AlreadyTracking),
            TrackingState::Paused => Ok(
                Machine {
                    state: TrackingState::Tracking,
                    session: self.session,
                    current_break: None,
                },
            ),
        }
    }

    /// `pause`: while tracking a session, a break in it opens.
    pub open spec fn pause(self, break_id: i64, now: Timestamp) -> Result<Machine, StateError> {
        match self.state {
            TrackingState::Tracking => match self.session {
                Some(s) => Ok(
                    Machine {
                        state: TrackingState::Paused,
                        session: self.session,
                        current_break: Some(BreakPeriod::opened(break_id, s.id, now)),
                    },
                ),
                None => Err(StateError::NoActiveSession),
            },
            TrackingState::Paused => Err(StateError::AlreadyPaused),
            TrackingState::Stopped => Err(StateError::NotTracking),
        }
    }

    /// `resume`: while paused, the break is dropped and tracking goes on.
    pub open spec fn resume(self) -> Result<Machine, StateError> {
        match self.state {
            TrackingState::Paused => Ok(
                Machine {
                    state: TrackingState::Tracking,
                    session: self.session,
                    current_break: None,
                },
            ),
            TrackingState::Tracking => Err(StateError::AlreadyTracking),
            TrackingState::Stopped => Err(StateError::NotInSession),
        }
    }

    /// `stop`: while tracking or paused, the session ends at `now`, and so
    /// does the break if it is open.
    pub open spec fn stop(self, now: Timestamp) -> Result<Machine, StateError> {
        match self.state {
            TrackingState::Stopped => Err(StateError::NotTracking),
            _ => Ok(
                Machine {
                    state: TrackingState::Stopped,
                    session: match self.session {
                        Some(s) => Some(Session { end_time: Some(now), ..s }),
                        None => None,
                    },
                    current_break: match self.current_break {
                        Some(b) => if b.end_time is None {
                            Some(BreakPeriod { end_time: Some(now), ..b })
                        } else {
                            Some(b)
                        },
                        None => None,
                    },
                },
            ),
        }
    }

    /// The machine with session and break forgotten.
    pub open spec fn cleared(self) -> Machine {
        Machine { state: self.state, session: None, current_break: None }
    }
}

/// What a transition owes: on success the manager holds the new machine, on
/// refusal it is unchanged and the error is returned.
pub open spec fn transition_done(
    before: Machine,
    expected: Result<Machine, StateError>,
    after: Machine,
    outcome: Result<(), StateError>,
) -> bool {
    match expected {
        Ok(m) => outcome is Ok && after == m,
        Err(e) => outcome == Err::<(), StateError>(e) && after == before,
    }
}

/// The tracker's in-memory state: where it stands, and the session and break
/// it is in.
pub struct StateManager {
    current_state: TrackingState,
    current_session: Option<Session>,
    current_break: Option<BreakPeriod>,
}

impl View for StateManager {
    type V = Machine;

    closed spec fn view(&self) -> Machine {
        Machine {
            state: self.current_state,
            session: self.current_session,
            current_break: self.current_break,
        }
    }
}

impl StateManager {
    #[verifier::type_invariant]
    closed spec fn inv(self) -> bool {
        self@.consistent()
    }

    /// A stopped manager without session or break.
    pub fn new() -> (m: StateManager)
        ensures
            m@ == Machine::initial(),
            m@.consistent(),
    {
        StateManager {
            current_state: TrackingState::Stopped,
            current_session: None,
            current_break: None,
        }
    }

    /// The state the tracker is in.
    pub fn current_state(&self) -> (s: TrackingState)
        ensures
            s == self@.state,
            self@.consistent(),
    {
        proof {
            use_type_invariant(self);
        }
        self.current_state
    }

    /// The session the tracker is in, or was in until it stopped.
    pub fn current_session(&self) -> (s: Option<&Session>)
        ensures
            match s {
                Some(r) => self@.session == Some(*r),
                None => self@.session is None,
            },
    {
        self.current_session.as_ref()
    }

    /// The break the tracker is in, or was in until it stopped.
    pub fn current_break(&self) -> (b: Option<&BreakPeriod>)
        ensures
            match b {
                Some(r) => self@.current_break == Some(*r),
                None => self@.current_break is None,
            },
    {
        self.current_break.as_ref()
    }

    /// Starts or resumes tracking at the current time of the system clock.
    pub fn start_tracking(&mut self, session_id: i64) -> (r: Result<(), StateError>)
        ensures
            exists|now: Timestamp|
                transition_done(
                    old(self)@,
                    #[trigger] old(self)@.start(session_id, now),
                    final(self)@,
                    r,
                ),
            final(self)@.consistent(),
    {
        let now = Timestamp::now();
        let r = self.start_tracking_at(session_id, now);
        assert(transition_done(old(self)@, old(self)@.start(session_id, now), self@, r));
        r
    }

    /// Starts or resumes tracking at `now`.
    pub fn start_tracking_at(&mut self, session_id: i64, now: Timestamp) -> (r: Result<
        (),
        StateError,
    >)
        ensures
            transition_done(old(self)@, old(self)@.start(session_id, now), final(self)@, r),
            final(self)@.consistent(),
    {
        proof {
            use_type_invariant(&*self);
        }
        match self.current_state {
            TrackingState::Stopped => {
                *self = StateManager {
                    current_state: TrackingState::Tracking,
                    current_session: Some(Session::new_at(session_id, now)),
                    current_break: self.current_break,
                };
                Ok(())
            },
            TrackingState::Tracking => Err(StateError::AlreadyTracking),
            TrackingState::Paused => {
                *self = StateManager {
                    current_state: TrackingState::Tracking,
                    current_session: self.current_session,
                    current_break: None,
                };
                Ok(())
            },
        }
    }

    /// Opens a break at the current time of the system clock.
    pub fn pause_tracking(&mut self, break_id: i64) -> (r: Result<(), StateError>)
        ensures
            exists|now: Timestamp|
                transition_done(
                    old(self)@,
                    #[trigger] old(self)@.pause(break_id, now),
                    final(self)@,
                    r,
                ),
            final(self)@.consistent(),
    {
        let now = Timestamp::now();
        let r = self.pause_tracking_at(break_id, now);
        assert(transition_done(old(self)@, old(self)@.pause(break_id, now), self@, r));
        r
    }

    /// Opens a break at `now`.
    pub fn pause_tracking_at(&mut self, break_id: i64, now: Timestamp) -> (r: Result<
        (),
        StateError,
    >)
        ensures
            transition_done(old(self)@, old(self)@.pause(break_id, now), final(self)@, r),
            final(self)@.consistent(),
    {
        proof {
            use_type_invariant(&*self);
        }
        match self.current_state {
            TrackingState::Tracking => match self.current_session {
                Some(session) => {
                    *self = StateManager {
                        current_state: TrackingState::Paused,
                        current_session: self.current_session,
                        current_break: Some(BreakPeriod::new_at(break_id, session.id, now)),
                    };
                    Ok(())
                },
                None => Err(StateError::NoActiveSession),
            },
            TrackingState::Paused => Err(StateError::AlreadyPaused),
            TrackingState::Stopped => Err(StateError::NotTracking),
        }
    }

    /// Ends the break and goes on tracking.
    pub fn resume_tracking(&mut self) -> (r: Result<(), StateError>)
        ensures
            transition_done(old(self)@, old(self)@.resume(), final(self)@, r),
            final(self)@.consistent(),
    {
        proof {
            use_type_invariant(&*self);
        }
        match self.current_state {
            TrackingState::Paused => {
                *self = StateManager {
                    current_state: TrackingState::Tracking,
                    current_session: self.current_session,
                    current_break: None,
                };
                Ok(())
            },
            TrackingState::Tracking => Err(StateError::AlreadyTracking),
            TrackingState::Stopped => Err(StateError::NotInSession),
        }
    }

    /// Stops tracking at the current time of the system clock.
    pub fn stop_tracking(&mut self) -> (r: Result<(), StateError>)
        ensures
            exists|now: Timestamp|
                transition_done(old(self)@, #[trigger] old(self)@.stop(now), final(self)@, r),
            final(self)@.consistent(),
    {
        let now = Timestamp::now();
        let r = self.stop_tracking_at(now);
        assert(transition_done(old(self)@, old(self)@.stop(now), self@, r));
        r
    }

    /// Stops tracking at `now`.
    pub fn stop_tracking_at(&mut self, now: Timestamp) -> (r: Result<(), StateError>)
        ensures
            transition_done(old(self)@, old(self)@.stop(now), final(self)@, r),
            final(self)@.consistent(),
    {
        proof {
            use_type_invariant(&*self);
        }
        match self.current_state {
            TrackingState::Stopped => Err(StateError::NotTracking),
            _ => {
                let session = match self.current_session {
                    Some(s) => Some(
                        Session {
                            id: s.id,
                            start_time: s.start_time,
                            end_time: Some(now),
                            state: s.state,
                        },
                    ),
                    None => None,
                };
                let brk = match self.current_break {
                    Some(b) => if b.end_time.is_none() {
                        Some(
                            BreakPeriod {
                                id: b.id,
                                session_id: b.session_id,
                                start_time: b.start_time,
                                end_time: Some(now),
                            },
                        )
                    } else {
                        Some(b)
                    },
                    None => None,
                };
                *self = StateManager {
                    current_state: TrackingState::Stopped,
                    current_session: session,
                    current_break: brk,
                };
                Ok(())
            },
        }
    }

    /// Forgets the session and the break; the state stays.
    pub fn clear_session(&mut self)
        ensures
            final(self)@ == old(self)@.cleared(),
            final(self)@.consistent(),
    {
        *self = StateManager {
            current_state: self.current_state,
            current_session: None,
            current_break: None,
        };
    }
}

impl Default for StateManager {
    fn default() -> (m: StateManager)
        ensures
            m@ == Machine::initial(),
    {
        StateManager::new()
    }
}

} // verus!
