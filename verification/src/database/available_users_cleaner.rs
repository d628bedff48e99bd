//! The expiry sweeper.
//!
//! A timer ticks; at each tick the records that have expired are removed.
//! The sweeper is the part that decides: it is idle or it has a sweep in
//! flight, a tick while idle starts a sweep with the time of the tick as
//! cutoff, a tick during a sweep passes, and the reply to a sweep, good or
//! bad, makes the sweeper idle again. The caller owns the timer and the
//! store.

use crate::database::database_interface::{expiry_filter, DataBaseInterface, DatabaseError};
use crate::models::scalar::Timestamp;
use crate::store_values::document_model;
use bson::Document;
use vstd::prelude::*;

verus! {

/// The seconds between two ticks.
pub const SWEEP_INTERVAL_SECONDS: u64 = 300;

/// Whether a sweep is in flight.
#[derive(Clone, Copy, Debug, PartialEq, Eq, Structural)]
pub enum SweepPhase {
    Idle,
    Sweeping,
}

/// What happens to a sweeper.
pub enum SweepEvent {
    /// The timer ticked.
    Tick,
    /// The store replied to a sweep.
    Reply,
}

/// How a sweep ended, for the caller to report.
#[derive(Debug)]
pub enum SweepReport {
    /// The sweep removed this many records.
    Removed(u64),
    /// The sweep failed; the next tick tries again.
    Failed(DatabaseError),
}

/// The phase after an event: a tick leaves a sweep in flight, a reply none.
pub open spec fn phase_after(phase: SweepPhase, event: SweepEvent) -> SweepPhase {
    match event {
        SweepEvent::Tick => SweepPhase::Sweeping,
        SweepEvent::Reply => SweepPhase::Idle,
    }
}

/// Whether the event starts a sweep: a tick does, while none is in flight.
pub open spec fn starts_sweep(phase: SweepPhase, event: SweepEvent) -> bool {
    phase == SweepPhase::Idle && event is Tick
}

/// Whether the event ends a sweep: a reply does, while one is in flight.
pub open spec fn ends_sweep(phase: SweepPhase, event: SweepEvent) -> bool {
    phase == SweepPhase::Sweeping && event is Reply
}

/// The sweeper of one collection.
#[derive(Debug)]
pub struct AvailableUserCleaner {
    database_interface: DataBaseInterface,
    phase: SweepPhase,
}

impl AvailableUserCleaner {
    /// An idle sweeper of the collection of `database_interface`.
    pub fn new(database_interface: DataBaseInterface) -> (cleaner: AvailableUserCleaner)
        ensures
            cleaner.phase() == SweepPhase::Idle,
            cleaner.interface() == database_interface,
    {
        AvailableUserCleaner { database_interface, phase: SweepPhase::Idle }
    }

    /// Whether a sweep is in flight.
    pub closed spec fn phase(&self) -> SweepPhase {
        self.phase
    }

    /// The client of the collection that is swept.
    pub closed spec fn interface(&self) -> DataBaseInterface {
        self.database_interface
    }

    /// Whether a sweep is in flight.
    pub fn is_sweeping(&self) -> (yes: bool)
        ensures
            yes == (self.phase() == SweepPhase::Sweeping),
    {
        match self.phase {
            SweepPhase::Sweeping => true,
            SweepPhase::Idle => false,
        }
    }

    /// The client of the collection that is swept.
    pub fn database_interface(&self) -> (interface: &DataBaseInterface)
        ensures
            *interface == self.interface(),
    {
        &self.database_interface
    }

    /// Takes a tick of the timer at the instant `now`. While idle, the
    /// sweeper starts a sweep: it hands out the filter of the records that
    /// expired before `now`, to be removed. While a sweep is in flight the
    /// tick passes and nothing is handed out, so that sweeps never overlap.
    pub fn clear_no_longuer_available_users(&mut self, now: Timestamp) -> (request: Option<
        Document,
    >)
        ensures
            final(self).phase() == phase_after(old(self).phase(), SweepEvent::Tick),
            final(self).interface() == old(self).interface(),
            request is Some <==> starts_sweep(old(self).phase(), SweepEvent::Tick),
            request matches Some(filter) ==> document_model(filter) == expiry_filter(now@),
    {
        match self.phase {
            SweepPhase::Idle => {
                self.phase = SweepPhase::Sweeping;
                Some(self.database_interface.remove_available_until(now))
            },
            SweepPhase::Sweeping => None,
        }
    }

    /// Takes the reply to a sweep, as `DataBaseInterface::read_removal` read
    /// it. The sweeper is idle again whatever the reply: a failure is
    /// reported and does not stop the timer.
    pub fn sweep_finished(&mut self, reply: Result<u64, DatabaseError>) -> (report: SweepReport)
        ensures
            final(self).phase() == phase_after(old(self).phase(), SweepEvent::Reply),
            final(self).interface() == old(self).interface(),
            reply matches Ok(count) ==> report matches SweepReport::Removed(removed) && removed
                == count,
            reply matches Err(error) ==> report matches SweepReport::Failed(failure) && failure
                == error,
    {
        self.phase = SweepPhase::Idle;
        match reply {
            Ok(count) => SweepReport::Removed(count),
            Err(error) => SweepReport::Failed(error),
        }
    }
}

/// The phase of a sweeper that began in `phase` and took `events` in turn.
pub open spec fn phase_after_all(phase: SweepPhase, events: Seq<SweepEvent>) -> SweepPhase
    decreases events.len(),
{
    if events.len() == 0 {
        phase
    } else {
        phase_after(phase_after_all(phase, events.drop_last()), events.last())
    }
}

/// How many sweeps the events started.
pub open spec fn sweeps_started(phase: SweepPhase, events: Seq<SweepEvent>) -> nat
    decreases events.len(),
{
    if events.len() == 0 {
        0
    } else {
        let before = sweeps_started(phase, events.drop_last());
        if starts_sweep(phase_after_all(phase, events.drop_last()), events.last()) {
            before + 1
        } else {
            before
        }
    }
}

/// How many sweeps the events ended.
pub open spec fn sweeps_ended(phase: SweepPhase, events: Seq<SweepEvent>) -> nat
    decreases events.len(),
{
    if events.len() == 0 {
        0
    } else {
        let before = sweeps_ended(phase, events.drop_last());
        if ends_sweep(phase_after_all(phase, events.drop_last()), events.last()) {
            before + 1
        } else {
            before
        }
    }
}

/// Sweeps never overlap. Whatever the events, an idle sweeper has ended
/// every sweep it started, and a sweeping one all but the one in flight.
pub proof fn law_sweeps_never_overlap(events: Seq<SweepEvent>)
    ensures
        phase_after_all(SweepPhase::Idle, events) == SweepPhase::Idle ==> sweeps_started(
            SweepPhase::Idle,
            events,
        ) == sweeps_ended(SweepPhase::Idle, events),
        phase_after_all(SweepPhase::Idle, events) == SweepPhase::Sweeping ==> sweeps_started(
            SweepPhase::Idle,
            events,
        ) == sweeps_ended(SweepPhase::Idle, events) + 1,
    decreases events.len(),
{
    if events.len() > 0 {
        law_sweeps_never_overlap(events.drop_last());
    }
}

/// The sweeper has no last state: after the reply to a sweep, whatever came
/// before, the next tick starts a sweep.
pub proof fn law_sweeper_goes_on(phase: SweepPhase)
    ensures
        starts_sweep(phase_after(phase, SweepEvent::Reply), SweepEvent::Tick),
{
}

} // verus!
