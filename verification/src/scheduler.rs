//! The scheduler's decisions: when a tick launches a sweep, and when the
//! process may leave after it was asked to stop.

use vstd::prelude::*;

verus! {

/// What the scheduler is told.
#[derive(Clone, Copy, Debug, PartialEq, Eq, Structural)]
pub enum SchedulerEvent {
    /// The timer fired.
    Tick,
    /// A sweep that was launched has run to its end.
    SweepFinished,
    /// The process was asked to stop.
    Shutdown,
}

/// What the scheduler asks for.
#[derive(Clone, Copy, Debug, PartialEq, Eq, Structural)]
pub enum SchedulerAction {
    /// Launch one sweep, without waiting for it.
    LaunchSweep,
    /// Nothing to do but wait for the next event.
    Wait,
    /// Stop: no sweep is in flight and none will be launched.
    Exit,
}

/// The scheduler: whether it was asked to stop, and how many sweeps are in
/// flight.
#[derive(Clone, Copy, Debug, PartialEq, Eq, Structural)]
pub struct Scheduler {
    pub stopping: bool,
    pub in_flight: u64,
}

/// The scheduler's transition. A tick launches a sweep until a shutdown was
/// asked for, however many sweeps are in flight; after that no tick launches
/// one, and the scheduler leaves once the sweeps in flight have ended.
pub open spec fn scheduler_step(s: Scheduler, e: SchedulerEvent) -> (Scheduler, SchedulerAction) {
    match e {
        SchedulerEvent::Tick => if !s.stopping && s.in_flight < u64::MAX {
            (
                Scheduler { stopping: false, in_flight: (s.in_flight + 1) as u64 },
                SchedulerAction::LaunchSweep,
            )
        } else {
            (s, SchedulerAction::Wait)
        },
        SchedulerEvent::SweepFinished => {
            let left: u64 = if s.in_flight > 0 {
                (s.in_flight - 1) as u64
            } else {
                0
            };
            (
                Scheduler { stopping: s.stopping, in_flight: left },
                if s.stopping && left == 0 {
                    SchedulerAction::Exit
                } else {
                    SchedulerAction::Wait
                },
            )
        },
        SchedulerEvent::Shutdown => (
            Scheduler { stopping: true, in_flight: s.in_flight },
            if s.in_flight == 0 {
                SchedulerAction::Exit
            } else {
                SchedulerAction::Wait
            },
        ),
    }
}

impl Scheduler {
    /// A scheduler that runs, with no sweep in flight.
    pub fn new() -> (scheduler: Scheduler)
        ensures
            scheduler == (Scheduler { stopping: false, in_flight: 0 }),
    {
        Scheduler { stopping: false, in_flight: 0 }
    }

    /// Takes an event and names what to do.
    pub fn step(&mut self, event: SchedulerEvent) -> (action: SchedulerAction)
        ensures
            (*final(self), action) == scheduler_step(*old(self), event),
    {
        match event {
            SchedulerEvent::Tick => {
                if !self.stopping && self.in_flight < u64::MAX {
                    self.in_flight = self.in_flight + 1;
                    SchedulerAction::LaunchSweep
                } else {
                    SchedulerAction::Wait
                }
            },
            SchedulerEvent::SweepFinished => {
                if self.in_flight > 0 {
                    self.in_flight = self.in_flight - 1;
                }
                if self.stopping && self.in_flight == 0 {
                    SchedulerAction::Exit
                } else {
                    SchedulerAction::Wait
                }
            },
            SchedulerEvent::Shutdown => {
                self.stopping = true;
                if self.in_flight == 0 {
                    SchedulerAction::Exit
                } else {
                    SchedulerAction::Wait
                }
            },
        }
    }
}

/// Once a shutdown was asked for, the scheduler stays stopping and launches
/// no sweep, whatever happens.
pub proof fn lemma_no_launch_after_shutdown(s: Scheduler, e: SchedulerEvent)
    requires
        s.stopping,
    ensures
        scheduler_step(s, e).0.stopping,
        scheduler_step(s, e).1 != SchedulerAction::LaunchSweep,
{
}

/// The scheduler leaves only after a shutdown was asked for and when no
/// sweep is in flight: sweeps in flight run to their end.
pub proof fn lemma_exit_waits_for_sweeps(s: Scheduler, e: SchedulerEvent)
    ensures
        scheduler_step(s, e).1 == SchedulerAction::Exit ==> scheduler_step(s, e).0.stopping
            && scheduler_step(s, e).0.in_flight == 0,
{
}

/// Sweeps in flight do not hold back the timer: while no shutdown was asked
/// for, every tick launches a sweep.
pub proof fn lemma_tick_launches_while_running(s: Scheduler)
    requires
        !s.stopping,
        s.in_flight < u64::MAX,
    ensures
        scheduler_step(s, SchedulerEvent::Tick).1 == SchedulerAction::LaunchSweep,
        scheduler_step(s, SchedulerEvent::Tick).0.in_flight == s.in_flight + 1,
{
}

} // verus!
