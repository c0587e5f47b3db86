//! The shutdown coordinator: from the termination signal to the exit. Once
//! signalled, collection is given a bounded time to wind down; when that
//! time has passed the process exits whether or not polls are still in
//! flight.

use vstd::prelude::*;

verus! {

/// How the process came to exit.
#[derive(Clone, Copy, Debug, PartialEq, Eq, Structural)]
pub enum ExitKind {
    /// Collection wound down within the time it was given.
    Clean,
    /// The time was over before collection had wound down.
    DeadlinePassed,
}

/// Where shutdown stands.
#[derive(Clone, Copy, Debug, PartialEq, Eq, Structural)]
pub enum Phase {
    /// No termination was asked for.
    Running,
    /// Termination was asked for, and collection has been given
    /// `waited_ms` milliseconds so far.
    Draining { waited_ms: u64 },
    /// The process is to exit.
    Finished(ExitKind),
}

/// What the coordinator is told.
#[derive(Clone, Copy, Debug, PartialEq, Eq, Structural)]
pub enum ShutdownEvent {
    /// The process was asked to terminate.
    Signal,
    /// Collection has wound down.
    CollectionDone,
    /// This many milliseconds have passed since the last event.
    TimePassed(u64),
}

/// What the coordinator asks for.
#[derive(Clone, Copy, Debug, PartialEq, Eq, Structural)]
pub enum ShutdownAction {
    /// Go on serving.
    Continue,
    /// Cancel collection if that was not done yet, and wait for it to wind
    /// down, this many milliseconds at most.
    Wait(u64),
    /// Exit now.
    Exit(ExitKind),
}

/// Whether `phase` can occur under a deadline of `deadline_ms`: time is
/// counted only while it is less than the deadline.
pub open spec fn phase_valid(deadline_ms: u64, phase: Phase) -> bool {
    phase matches Phase::Draining { waited_ms } ==> waited_ms < deadline_ms
}

/// The phase that follows `phase` on `event`.
pub open spec fn next_phase(deadline_ms: u64, phase: Phase, event: ShutdownEvent) -> Phase {
    match phase {
        Phase::Running => match event {
            ShutdownEvent::Signal => if deadline_ms == 0 {
                Phase::Finished(ExitKind::DeadlinePassed)
            } else {
                Phase::Draining { waited_ms: 0 }
            },
            _ => Phase::Running,
        },
        Phase::Draining { waited_ms } => match event {
            ShutdownEvent::Signal => phase,
            ShutdownEvent::CollectionDone => Phase::Finished(ExitKind::Clean),
            ShutdownEvent::TimePassed(ms) => if waited_ms + ms >= deadline_ms {
                Phase::Finished(ExitKind::DeadlinePassed)
            } else {
                Phase::Draining { waited_ms: (waited_ms + ms) as u64 }
            },
        },
        Phase::Finished(_) => phase,
    }
}

/// What is to be done in `phase`.
pub open spec fn action_in(deadline_ms: u64, phase: Phase) -> ShutdownAction {
    match phase {
        Phase::Running => ShutdownAction::Continue,
        Phase::Draining { waited_ms } => ShutdownAction::Wait((deadline_ms - waited_ms) as u64),
        Phase::Finished(kind) => ShutdownAction::Exit(kind),
    }
}

/// The phase reached from `phase` by a run of events, taken in order.
pub open spec fn phase_after(deadline_ms: u64, phase: Phase, events: Seq<ShutdownEvent>) -> Phase
    decreases events.len(),
{
    if events.len() == 0 {
        phase
    } else {
        phase_after(deadline_ms, next_phase(deadline_ms, phase, events[0]), events.drop_first())
    }
}

/// The time that a run of events reports, in milliseconds.
pub open spec fn time_in(events: Seq<ShutdownEvent>) -> int
    decreases events.len(),
{
    if events.len() == 0 {
        0
    } else {
        let rest = time_in(events.drop_first());
        match events[0] {
            ShutdownEvent::TimePassed(ms) => ms + rest,
            _ => rest,
        }
    }
}

/// The coordinator.
#[derive(Debug)]
pub struct ShutdownCoordinator {
    deadline_ms: u64,
    phase: Phase,
}

impl ShutdownCoordinator {
    /// The time that collection is given to wind down, in milliseconds.
    pub closed spec fn deadline_ms(&self) -> u64 {
        self.deadline_ms
    }

    /// Where shutdown stands.
    pub closed spec fn phase(&self) -> Phase {
        self.phase
    }

    /// The phase can occur under the deadline.
    pub open spec fn wf(&self) -> bool {
        phase_valid(self.deadline_ms(), self.phase())
    }

    /// A coordinator of a running process.
    pub fn new(deadline_ms: u64) -> (c: ShutdownCoordinator)
        ensures
            c.wf(),
            c.deadline_ms() == deadline_ms,
            c.phase() == Phase::Running,
    {
        ShutdownCoordinator { deadline_ms, phase: Phase::Running }
    }

    /// Where shutdown stands.
    pub fn current(&self) -> (p: Phase)
        ensures
            p == self.phase(),
    {
        self.phase
    }

    /// Takes in one event and says what is to be done next.
    pub fn handle(&mut self, event: ShutdownEvent) -> (a: ShutdownAction)
        requires
            old(self).wf(),
        ensures
            final(self).wf(),
            final(self).deadline_ms() == old(self).deadline_ms(),
            final(self).phase() == next_phase(old(self).deadline_ms(), old(self).phase(), event),
            a == action_in(final(self).deadline_ms(), final(self).phase()),
    {
        match self.phase {
            Phase::Running => {
                if let ShutdownEvent::Signal = event {
                    if self.deadline_ms == 0 {
                        self.phase = Phase::Finished(ExitKind::DeadlinePassed);
                    } else {
                        self.phase = Phase::Draining { waited_ms: 0 };
                    }
                }
            },
            Phase::Draining { waited_ms } => {
                match event {
                    ShutdownEvent::Signal => {},
                    ShutdownEvent::CollectionDone => {
                        self.phase = Phase::Finished(ExitKind::Clean);
                    },
                    ShutdownEvent::TimePassed(ms) => {
                        if ms >= self.deadline_ms - waited_ms {
                            self.phase = Phase::Finished(ExitKind::DeadlinePassed);
                        } else {
                            self.phase = Phase::Draining { waited_ms: waited_ms + ms };
                        }
                    },
                }
            },
            Phase::Finished(_) => {},
        }
        match self.phase {
            Phase::Running => ShutdownAction::Continue,
            Phase::Draining { waited_ms } => ShutdownAction::Wait(self.deadline_ms - waited_ms),
            Phase::Finished(kind) => ShutdownAction::Exit(kind),
        }
    }
}

/// No event leads out of a valid phase into one that cannot occur.
pub proof fn law_phase_stays_valid(deadline_ms: u64, phase: Phase, event: ShutdownEvent)
    requires
        phase_valid(deadline_ms, phase),
    ensures
        phase_valid(deadline_ms, next_phase(deadline_ms, phase, event)),
{
}

/// Once the process is to exit, it stays so, and for the same reason.
pub proof fn law_finished_is_final(deadline_ms: u64, kind: ExitKind, events: Seq<ShutdownEvent>)
    ensures
        phase_after(deadline_ms, Phase::Finished(kind), events) == Phase::Finished(kind),
    decreases events.len(),
{
    if events.len() > 0 {
        law_finished_is_final(deadline_ms, kind, events.drop_first());
    }
}

/// While collection is winding down, the process is to exit as soon as the
/// time that has passed reaches the deadline.
pub proof fn lemma_draining_ends(deadline_ms: u64, phase: Phase, events: Seq<ShutdownEvent>)
    requires
        phase_valid(deadline_ms, phase),
        phase matches Phase::Draining { waited_ms } ==> waited_ms + time_in(events) >= deadline_ms,
        !(phase is Running),
    ensures
        phase_after(deadline_ms, phase, events) is Finished,
    decreases events.len(),
{
    match phase {
        Phase::Finished(kind) => {
            law_finished_is_final(deadline_ms, kind, events);
        },
        _ => {
            if events.len() > 0 {
                lemma_draining_ends(
                    deadline_ms,
                    next_phase(deadline_ms, phase, events[0]),
                    events.drop_first(),
                );
            }
        },
    }
}

/// After the termination signal the process is to exit once the deadline
/// has passed, whatever else happens and whether or not collection ever
/// winds down.
pub proof fn law_exit_by_deadline(deadline_ms: u64, events: Seq<ShutdownEvent>)
    requires
        time_in(events) >= deadline_ms,
    ensures
        phase_after(
            deadline_ms,
            next_phase(deadline_ms, Phase::Running, ShutdownEvent::Signal),
            events,
        ) is Finished,
{
    lemma_draining_ends(
        deadline_ms,
        next_phase(deadline_ms, Phase::Running, ShutdownEvent::Signal),
        events,
    );
}

/// Where collection winds down before the deadline, the exit is clean.
pub proof fn law_clean_exit(deadline_ms: u64, waited_ms: u64)
    requires
        waited_ms < deadline_ms,
    ensures
        next_phase(deadline_ms, Phase::Draining { waited_ms }, ShutdownEvent::CollectionDone)
            == Phase::Finished(ExitKind::Clean),
{
}

} // verus!
