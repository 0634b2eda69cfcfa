use crate::misc::types::MoveTime;
use std::time::Instant;
use vstd::prelude::*;

verus! {

/// A moment of the clock of std. Nothing is read from it but by the calls below.
#[verifier::external_type_specification]
#[verifier::external_body]
pub struct ExInstant(Instant);

/// The time that a search may take, counted from the moment the timer was started.
pub struct Timer {
    started: Instant,
    limit: Option<MoveTime>,
}

/// Calls `Instant::now` of std, which reads the clock. Nothing is promised of the moment.
#[verifier::external_body]
fn now() -> Instant {
    Instant::now()
}

/// Calls `Instant::elapsed` of std, which reads the clock, and hands out the time since
/// the given moment in milliseconds. Nothing is promised of the number.
#[verifier::external_body]
fn millis_since(moment: &Instant) -> u128 {
    moment.elapsed().as_millis()
}

/// Whether a limit in milliseconds, if there is one, lets a search go on that has taken
/// `elapsed` milliseconds.
pub open spec fn within_limit(limit: Option<MoveTime>, elapsed: u128) -> bool {
    match limit {
        Some(move_time) => elapsed < move_time,
        None => true,
    }
}

impl Timer {
    /// The time in milliseconds after which the timer says stop, or `None` where it never
    /// does.
    pub closed spec fn limit(&self) -> Option<MoveTime> {
        self.limit
    }

    /// A timer that says stop once `move_time` milliseconds have passed from now.
    pub fn start(move_time: MoveTime) -> (r: Timer)
        ensures
            r.limit() == Some(move_time),
    {
        Timer { started: now(), limit: Some(move_time) }
    }

    /// A timer that never says stop.
    pub fn unlimited() -> (r: Timer)
        ensures
            r.limit() is None,
    {
        Timer { started: now(), limit: None }
    }

    /// Whether a timer with this limit lets the search go on once `elapsed` milliseconds
    /// have passed since it was started.
    pub fn allows(&self, elapsed: u128) -> (r: bool)
        ensures
            r == within_limit(self.limit(), elapsed),
    {
        match self.limit {
            Some(move_time) => elapsed < move_time as u128,
            None => true,
        }
    }

    /// Whether the search may go on. A timer without a limit always says yes; one with a
    /// limit says what it allows for the time that the clock gives, so that a limit of 0
    /// never lets a search go on.
    pub fn playing(&self) -> (r: bool)
        ensures
            self.limit() is None ==> r,
            exists|elapsed: u128| r == #[trigger] within_limit(self.limit(), elapsed),
    {
        match self.limit {
            Some(_) => {
                let elapsed = millis_since(&self.started);
                let r = self.allows(elapsed);
                assert(r == within_limit(self.limit(), elapsed));
                r
            },
            None => {
                assert(within_limit(self.limit(), 0));
                true
            },
        }
    }
}

} // verus!
