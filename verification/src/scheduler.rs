//! The scheduler's decisions.
//!
//! Cycles are started by the timer and by manual requests, and run one at a
//! time. The scheduler is told what happens, an [`Event`] at a time, and says
//! what to do next. It does not stop because a cycle failed: only a shutdown
//! stops it, and a cycle in flight at that moment is left to finish.

use crate::error::SyncError;
use vstd::prelude::*;

verus! {

/// The interval between two ticks of the timer where none is configured.
pub const DEFAULT_INTERVAL_SECONDS: u64 = 3600;

/// What started a cycle.
#[derive(Clone, Copy, Debug, PartialEq, Eq, Structural)]
pub enum Trigger {
    Timer,
    Manual,
}

/// Whether a cycle is in flight.
#[derive(Clone, Copy, Debug, PartialEq, Eq, Structural)]
pub enum Phase {
    /// No cycle is in flight.
    Idle,
    /// A cycle is in flight.
    Running(Trigger),
    /// The scheduler has stopped for good.
    Stopped,
}

/// What the scheduler is told.
#[derive(Clone, Copy, Debug, PartialEq, Eq, Structural)]
pub enum Event {
    /// The timer fired.
    Tick,
    /// A caller asks for a cycle now.
    ManualRequest,
    /// The cycle in flight ended well.
    CycleSucceeded,
    /// The cycle in flight failed.
    CycleFailed(SyncError),
    /// The host asks the scheduler to stop.
    Shutdown,
}

/// What to do after an event.
#[derive(Clone, Copy, Debug, PartialEq, Eq, Structural)]
pub enum Next {
    /// Wait for the next event.
    Wait,
    /// Start a cycle, and report its end as an event.
    Run(Trigger),
    /// Stop waiting for events.
    Halt,
}

/// What the callers of manual requests are told.
#[derive(Clone, Copy, Debug, PartialEq, Eq, Structural)]
pub enum Reply {
    /// Nobody is told anything.
    Silent,
    /// The callers whose cycle ended are told that it succeeded.
    Succeeded,
    /// The callers whose cycle ended are told why it failed.
    Failed(SyncError),
    /// The callers who are waiting for a cycle are told that none will run.
    Refused,
}

/// The scheduler's answer to an event.
#[derive(Clone, Copy, Debug, PartialEq, Eq, Structural)]
pub struct Decision {
    pub next: Next,
    pub reply: Reply,
    /// The failure to report to the operator, if the event was one.
    pub failure: Option<SyncError>,
}

/// The state between two events.
#[derive(Clone, Copy, Debug, PartialEq, Eq, Structural)]
pub struct Scheduler {
    /// The interval between two ticks of the timer, in seconds.
    pub interval_seconds: u64,
    pub phase: Phase,
    /// A manual request came while a cycle was in flight, and waits for one
    /// of its own.
    pub manual_waiting: bool,
    /// A shutdown came while a cycle was in flight.
    pub stopping: bool,
}

impl Scheduler {
    /// The scheduler before its first event.
    pub open spec fn initial(interval_seconds: u64) -> Scheduler {
        Scheduler { interval_seconds, phase: Phase::Idle, manual_waiting: false, stopping: false }
    }

    /// The state once the cycle in flight has ended.
    pub open spec fn settled(self) -> Scheduler {
        if self.stopping {
            Scheduler { phase: Phase::Stopped, manual_waiting: false, ..self }
        } else if self.manual_waiting {
            Scheduler { phase: Phase::Running(Trigger::Manual), manual_waiting: false, ..self }
        } else {
            Scheduler { phase: Phase::Idle, ..self }
        }
    }

    /// What to do once the cycle in flight has ended.
    pub open spec fn settled_next(self) -> Next {
        if self.stopping {
            Next::Halt
        } else if self.manual_waiting {
            Next::Run(Trigger::Manual)
        } else {
            Next::Wait
        }
    }

    /// The state after `event`.
    pub open spec fn after(self, event: Event) -> Scheduler {
        match (self.phase, event) {
            (Phase::Stopped, _) => self,
            (Phase::Idle, Event::Tick) => Scheduler {
                phase: Phase::Running(Trigger::Timer),
                ..self
            },
            (Phase::Idle, Event::ManualRequest) => Scheduler {
                phase: Phase::Running(Trigger::Manual),
                ..self
            },
            (Phase::Idle, Event::Shutdown) => Scheduler {
                phase: Phase::Stopped,
                manual_waiting: false,
                ..self
            },
            (Phase::Idle, _) => self,
            (Phase::Running(_), Event::Tick) => self,
            (Phase::Running(_), Event::ManualRequest) => if self.stopping {
                self
            } else {
                Scheduler { manual_waiting: true, ..self }
            },
            (Phase::Running(_), Event::Shutdown) => Scheduler {
                stopping: true,
                manual_waiting: false,
                ..self
            },
            (Phase::Running(_), _) => self.settled(),
        }
    }

    /// The answer to `event`.
    pub open spec fn decision(self, event: Event) -> Decision {
        match (self.phase, event) {
            (Phase::Stopped, Event::ManualRequest) => Decision {
                next: Next::Halt,
                reply: Reply::Refused,
                failure: None,
            },
            (Phase::Stopped, _) => Decision { next: Next::Halt, reply: Reply::Silent, failure: None },
            (Phase::Idle, Event::Tick) => Decision {
                next: Next::Run(Trigger::Timer),
                reply: Reply::Silent,
                failure: None,
            },
            (Phase::Idle, Event::ManualRequest) => Decision {
                next: Next::Run(Trigger::Manual),
                reply: Reply::Silent,
                failure: None,
            },
            (Phase::Idle, Event::Shutdown) => Decision {
                next: Next::Halt,
                reply: Reply::Silent,
                failure: None,
            },
            (Phase::Idle, _) => Decision { next: Next::Wait, reply: Reply::Silent, failure: None },
            (Phase::Running(_), Event::Tick) => Decision {
                next: Next::Wait,
                reply: Reply::Silent,
                failure: None,
            },
            (Phase::Running(_), Event::ManualRequest) => Decision {
                next: Next::Wait,
                reply: if self.stopping {
                    Reply::Refused
                } else {
                    Reply::Silent
                },
                failure: None,
            },
            (Phase::Running(_), Event::Shutdown) => Decision {
                next: Next::Wait,
                reply: if self.manual_waiting {
                    Reply::Refused
                } else {
                    Reply::Silent
                },
                failure: None,
            },
            (Phase::Running(trigger), Event::CycleSucceeded) => Decision {
                next: self.settled_next(),
                reply: if trigger == Trigger::Manual {
                    Reply::Succeeded
                } else {
                    Reply::Silent
                },
                failure: None,
            },
            (Phase::Running(trigger), Event::CycleFailed(e)) => Decision {
                next: self.settled_next(),
                reply: if trigger == Trigger::Manual {
                    Reply::Failed(e)
                } else {
                    Reply::Silent
                },
                failure: Some(e),
            },
        }
    }

    /// A scheduler that ticks every `interval_seconds` seconds.
    pub fn new(interval_seconds: u64) -> (r: Scheduler)
        ensures
            r == Scheduler::initial(interval_seconds),
    {
        Scheduler { interval_seconds, phase: Phase::Idle, manual_waiting: false, stopping: false }
    }

    /// Takes note of `event` and says what to do next.
    pub fn on_event(&mut self, event: Event) -> (r: Decision)
        ensures
            *final(self) == old(self).after(event),
            r == old(self).decision(event),
    {
        let quiet = Decision { next: Next::Wait, reply: Reply::Silent, failure: None };
        match self.phase {
            Phase::Stopped => {
                let reply = match event {
                    Event::ManualRequest => Reply::Refused,
                    _ => Reply::Silent,
                };
                Decision { next: Next::Halt, reply, failure: None }
            },
            Phase::Idle => match event {
                Event::Tick => {
                    self.phase = Phase::Running(Trigger::Timer);
                    Decision { next: Next::Run(Trigger::Timer), reply: Reply::Silent, failure: None }
                },
                Event::ManualRequest => {
                    self.phase = Phase::Running(Trigger::Manual);
                    Decision {
                        next: Next::Run(Trigger::Manual),
                        reply: Reply::Silent,
                        failure: None,
                    }
                },
                Event::Shutdown => {
                    self.phase = Phase::Stopped;
                    self.manual_waiting = false;
                    Decision { next: Next::Halt, reply: Reply::Silent, failure: None }
                },
                Event::CycleSucceeded => quiet,
                Event::CycleFailed(_) => quiet,
            },
            Phase::Running(trigger) => match event {
                Event::Tick => quiet,
                Event::ManualRequest => {
                    if self.stopping {
                        Decision { next: Next::Wait, reply: Reply::Refused, failure: None }
                    } else {
                        self.manual_waiting = true;
                        quiet
                    }
                },
                Event::Shutdown => {
                    let reply = if self.manual_waiting {
                        Reply::Refused
                    } else {
                        Reply::Silent
                    };
                    self.stopping = true;
                    self.manual_waiting = false;
                    Decision { next: Next::Wait, reply, failure: None }
                },
                Event::CycleSucceeded => {
                    let reply = match trigger {
                        Trigger::Manual => Reply::Succeeded,
                        Trigger::Timer => Reply::Silent,
                    };
                    let next = self.settle();
                    Decision { next, reply, failure: None }
                },
                Event::CycleFailed(e) => {
                    let reply = match trigger {
                        Trigger::Manual => Reply::Failed(e),
                        Trigger::Timer => Reply::Silent,
                    };
                    let next = self.settle();
                    Decision { next, reply, failure: Some(e) }
                },
            },
        }
    }

    /// Moves on from the cycle that has ended.
    fn settle(&mut self) -> (r: Next)
        ensures
            *final(self) == old(self).settled(),
            r == old(self).settled_next(),
    {
        if self.stopping {
            self.phase = Phase::Stopped;
            self.manual_waiting = false;
            Next::Halt
        } else if self.manual_waiting {
            self.phase = Phase::Running(Trigger::Manual);
            self.manual_waiting = false;
            Next::Run(Trigger::Manual)
        } else {
            self.phase = Phase::Idle;
            Next::Wait
        }
    }
}

/// A failed cycle does not stop the scheduler. Unless a shutdown was asked
/// for, it goes on after the failure: it is idle again, or runs the cycle of
/// a manual request that was waiting, and the failure is reported.
pub proof fn law_failure_is_isolated(scheduler: Scheduler, trigger: Trigger, e: SyncError)
    requires
        scheduler.phase == Phase::Running(trigger),
        !scheduler.stopping,
    ensures
        scheduler.after(Event::CycleFailed(e)).phase != Phase::Stopped,
        scheduler.decision(Event::CycleFailed(e)).next != Next::Halt,
        scheduler.decision(Event::CycleFailed(e)).failure == Some(e),
        scheduler.after(Event::CycleFailed(e)).phase == Phase::Idle ==> scheduler.after(
            Event::CycleFailed(e),
        ).decision(Event::Tick).next == Next::Run(Trigger::Timer),
{
}

/// The caller of a manual request is told how the cycle ended; a cycle of
/// the timer tells no caller.
pub proof fn law_manual_caller_is_told(scheduler: Scheduler, e: SyncError)
    ensures
        scheduler.phase == Phase::Running(Trigger::Manual) ==> {
            &&& scheduler.decision(Event::CycleFailed(e)).reply == Reply::Failed(e)
            &&& scheduler.decision(Event::CycleSucceeded).reply == Reply::Succeeded
        },
        scheduler.phase == Phase::Running(Trigger::Timer) ==> {
            &&& scheduler.decision(Event::CycleFailed(e)).reply == Reply::Silent
            &&& scheduler.decision(Event::CycleSucceeded).reply == Reply::Silent
        },
{
}

/// Cycles run one at a time: while one is in flight no event starts another,
/// and a shutdown lets it finish.
pub proof fn law_one_cycle_at_a_time(scheduler: Scheduler, trigger: Trigger, event: Event)
    requires
        scheduler.phase == Phase::Running(trigger),
        event != Event::CycleSucceeded,
        !(event is CycleFailed),
    ensures
        scheduler.decision(event).next == Next::Wait,
        scheduler.after(event).phase == Phase::Running(trigger),
{
}

} // verus!
