//! The decisions of stopping a VLC process we started: ask VLC to stop the
//! stream, give it time, ask the system to terminate it (where that signal
//! exists), and kill it as a last resort, reaping it in every case.
//!
//! The caller performs each action and reports back: after `CheckExited`
//! whether the process has exited, after every other action that it is done.

use vstd::prelude::*;

verus! {

/// How many short pauses are taken, at most, while waiting for the process
/// to exit after it was asked to terminate.
pub const TERM_PAUSES: u8 = 10;

/// Where the shutdown stands.
#[derive(Clone, Copy, Debug, PartialEq, Eq, Structural)]
pub enum ShutdownPhase {
    /// Nothing done yet.
    Begin,
    /// Waiting for the first report of whether the process exited.
    FirstProbe,
    /// The stop command was sent and the pause after it taken.
    StopRequested,
    /// Waiting for the report that decides whether to terminate.
    TermProbe,
    /// The terminate signal was sent.
    Terminating,
    /// The given number of short pauses have been taken since terminating.
    Pausing(u8),
    /// Waiting for the report after the given number of pauses.
    PauseProbe(u8),
    /// Waiting for the report that decides whether to kill.
    KillProbe,
    /// The kill was sent.
    Killing,
    /// The process is being reaped.
    Reaping,
    /// Finished.
    Done,
}

/// The state of a shutdown: its phase, and whether the platform can ask a
/// process to terminate before killing it.
#[derive(Clone, Copy, Debug, PartialEq, Eq, Structural)]
pub struct ShutdownState {
    pub phase: ShutdownPhase,
    pub can_terminate: bool,
}

/// What the caller reports after performing an action.
#[derive(Clone, Copy, Debug, PartialEq, Eq, Structural)]
pub enum ShutdownEvent {
    /// The action was performed.
    Ready,
    /// The answer to `CheckExited`.
    Probed { exited: bool },
}

/// What the caller is asked to do next.
#[derive(Clone, Copy, Debug, PartialEq, Eq, Structural)]
pub enum ShutdownAction {
    /// Check, without blocking, whether the process has exited.
    CheckExited,
    /// Send VLC the stop command and pause for 300 ms.
    StopStream,
    /// Ask the process to terminate (SIGTERM).
    Terminate,
    /// Pause for 100 ms.
    PauseBriefly,
    /// Kill the process.
    ForceKill,
    /// Wait for the process and collect its exit status.
    Reap,
    /// Nothing more to do.
    Finish,
}

/// The phases that wait for the answer to `CheckExited`.
pub open spec fn awaits_probe(p: ShutdownPhase) -> bool {
    p is FirstProbe || p is TermProbe || p is PauseProbe || p is KillProbe
}

/// The event fits the phase: an answer where one was asked for, a plain
/// report elsewhere.
pub open spec fn event_fits(p: ShutdownPhase, e: ShutdownEvent) -> bool {
    awaits_probe(p) <==> e is Probed
}

/// One step of the shutdown: the next state and the action to perform. An
/// event that does not fit the phase is answered by asking again (where an
/// answer is awaited) or treated as a plain report (elsewhere).
pub open spec fn shutdown_next(s: ShutdownState, e: ShutdownEvent) -> (ShutdownState, ShutdownAction) {
    let go = |p: ShutdownPhase, a: ShutdownAction| (ShutdownState { phase: p, ..s }, a);
    match s.phase {
        ShutdownPhase::Begin => go(ShutdownPhase::FirstProbe, ShutdownAction::CheckExited),
        ShutdownPhase::FirstProbe => match e {
            ShutdownEvent::Probed { exited: true } => go(ShutdownPhase::Done, ShutdownAction::Finish),
            ShutdownEvent::Probed { exited: false } => go(
                ShutdownPhase::StopRequested,
                ShutdownAction::StopStream,
            ),
            ShutdownEvent::Ready => go(ShutdownPhase::FirstProbe, ShutdownAction::CheckExited),
        },
        ShutdownPhase::StopRequested => if s.can_terminate {
            go(ShutdownPhase::TermProbe, ShutdownAction::CheckExited)
        } else {
            go(ShutdownPhase::KillProbe, ShutdownAction::CheckExited)
        },
        ShutdownPhase::TermProbe => match e {
            ShutdownEvent::Probed { exited: true } => go(
                ShutdownPhase::KillProbe,
                ShutdownAction::CheckExited,
            ),
            ShutdownEvent::Probed { exited: false } => go(
                ShutdownPhase::Terminating,
                ShutdownAction::Terminate,
            ),
            ShutdownEvent::Ready => go(ShutdownPhase::TermProbe, ShutdownAction::CheckExited),
        },
        ShutdownPhase::Terminating => go(ShutdownPhase::Pausing(1), ShutdownAction::PauseBriefly),
        ShutdownPhase::Pausing(n) => go(ShutdownPhase::PauseProbe(n), ShutdownAction::CheckExited),
        ShutdownPhase::PauseProbe(n) => match e {
            ShutdownEvent::Probed { exited: false } => if n < TERM_PAUSES {
                go(ShutdownPhase::Pausing((n + 1) as u8), ShutdownAction::PauseBriefly)
            } else {
                go(ShutdownPhase::KillProbe, ShutdownAction::CheckExited)
            },
            ShutdownEvent::Probed { exited: true } => go(
                ShutdownPhase::KillProbe,
                ShutdownAction::CheckExited,
            ),
            ShutdownEvent::Ready => go(ShutdownPhase::PauseProbe(n), ShutdownAction::CheckExited),
        },
        ShutdownPhase::KillProbe => match e {
            ShutdownEvent::Probed { exited: true } => go(ShutdownPhase::Reaping, ShutdownAction::Reap),
            ShutdownEvent::Probed { exited: false } => go(
                ShutdownPhase::Killing,
                ShutdownAction::ForceKill,
            ),
            ShutdownEvent::Ready => go(ShutdownPhase::KillProbe, ShutdownAction::CheckExited),
        },
        ShutdownPhase::Killing => go(ShutdownPhase::Reaping, ShutdownAction::Reap),
        ShutdownPhase::Reaping => go(ShutdownPhase::Done, ShutdownAction::Finish),
        ShutdownPhase::Done => go(ShutdownPhase::Done, ShutdownAction::Finish),
    }
}

impl ShutdownState {
    /// A shutdown not yet begun.
    pub fn new(can_terminate: bool) -> (r: Self)
        ensures
            r.phase == ShutdownPhase::Begin,
            r.can_terminate == can_terminate,
    {
        ShutdownState { phase: ShutdownPhase::Begin, can_terminate }
    }

    /// Takes the report of the last action and returns the next one.
    pub fn step(&mut self, e: ShutdownEvent) -> (a: ShutdownAction)
        ensures
            (*final(self), a) == shutdown_next(*old(self), e),
    {
        let (p, a) = match self.phase {
            ShutdownPhase::Begin => (ShutdownPhase::FirstProbe, ShutdownAction::CheckExited),
            ShutdownPhase::FirstProbe => match e {
                ShutdownEvent::Probed { exited: true } => (ShutdownPhase::Done, ShutdownAction::Finish),
                ShutdownEvent::Probed { exited: false } => (
                    ShutdownPhase::StopRequested,
                    ShutdownAction::StopStream,
                ),
                ShutdownEvent::Ready => (ShutdownPhase::FirstProbe, ShutdownAction::CheckExited),
            },
            ShutdownPhase::StopRequested => if self.can_terminate {
                (ShutdownPhase::TermProbe, ShutdownAction::CheckExited)
            } else {
                (ShutdownPhase::KillProbe, ShutdownAction::CheckExited)
            },
            ShutdownPhase::TermProbe => match e {
                ShutdownEvent::Probed { exited: true } => (
                    ShutdownPhase::KillProbe,
                    ShutdownAction::CheckExited,
                ),
                ShutdownEvent::Probed { exited: false } => (
                    ShutdownPhase::Terminating,
                    ShutdownAction::Terminate,
                ),
                ShutdownEvent::Ready => (ShutdownPhase::TermProbe, ShutdownAction::CheckExited),
            },
            ShutdownPhase::Terminating => (ShutdownPhase::Pausing(1), ShutdownAction::PauseBriefly),
            ShutdownPhase::Pausing(n) => (ShutdownPhase::PauseProbe(n), ShutdownAction::CheckExited),
            ShutdownPhase::PauseProbe(n) => match e {
                ShutdownEvent::Probed { exited: false } => if n < TERM_PAUSES {
                    (ShutdownPhase::Pausing(n + 1), ShutdownAction::PauseBriefly)
                } else {
                    (ShutdownPhase::KillProbe, ShutdownAction::CheckExited)
                },
                ShutdownEvent::Probed { exited: true } => (
                    ShutdownPhase::KillProbe,
                    ShutdownAction::CheckExited,
                ),
                ShutdownEvent::Ready => (ShutdownPhase::PauseProbe(n), ShutdownAction::CheckExited),
            },
            ShutdownPhase::KillProbe => match e {
                ShutdownEvent::Probed { exited: true } => (ShutdownPhase::Reaping, ShutdownAction::Reap),
                ShutdownEvent::Probed { exited: false } => (
                    ShutdownPhase::Killing,
                    ShutdownAction::ForceKill,
                ),
                ShutdownEvent::Ready => (ShutdownPhase::KillProbe, ShutdownAction::CheckExited),
            },
            ShutdownPhase::Killing => (ShutdownPhase::Reaping, ShutdownAction::Reap),
            ShutdownPhase::Reaping => (ShutdownPhase::Done, ShutdownAction::Finish),
            ShutdownPhase::Done => (ShutdownPhase::Done, ShutdownAction::Finish),
        };
        self.phase = p;
        a
    }
}

/// The state is consistent: pause counts stay between one and the limit,
/// and the terminate phases are only entered where terminating is possible.
pub open spec fn shutdown_wf(s: ShutdownState) -> bool {
    match s.phase {
        ShutdownPhase::Pausing(n) => s.can_terminate && 1 <= n <= TERM_PAUSES,
        ShutdownPhase::PauseProbe(n) => s.can_terminate && 1 <= n <= TERM_PAUSES,
        ShutdownPhase::TermProbe => s.can_terminate,
        ShutdownPhase::Terminating => s.can_terminate,
        _ => true,
    }
}

/// Every step, fitting or not, keeps the state consistent.
pub proof fn lemma_shutdown_wf_preserved(s: ShutdownState, e: ShutdownEvent)
    requires
        shutdown_wf(s),
    ensures
        shutdown_wf(shutdown_next(s, e).0),
{
}

/// A shutdown not yet begun is consistent.
pub proof fn lemma_shutdown_start_wf(can_terminate: bool)
    ensures
        shutdown_wf(shutdown_start(can_terminate)),
{
}

/// A measure of the work left; it falls with every fitting event.
pub open spec fn shutdown_rank(s: ShutdownState) -> nat {
    match s.phase {
        ShutdownPhase::Begin => 40,
        ShutdownPhase::FirstProbe => 39,
        ShutdownPhase::StopRequested => 38,
        ShutdownPhase::TermProbe => 37,
        ShutdownPhase::Terminating => 36,
        ShutdownPhase::Pausing(n) => (37 - 2 * n) as nat,
        ShutdownPhase::PauseProbe(n) => (36 - 2 * n) as nat,
        ShutdownPhase::KillProbe => 4,
        ShutdownPhase::Killing => 3,
        ShutdownPhase::Reaping => 2,
        ShutdownPhase::Done => 0,
    }
}

/// The state after a sequence of reports, starting from `s`.
pub open spec fn shutdown_run(s: ShutdownState, events: Seq<ShutdownEvent>) -> ShutdownState
    decreases events.len(),
{
    if events.len() == 0 {
        s
    } else {
        shutdown_run(shutdown_next(s, events[0]).0, events.drop_first())
    }
}

/// Every report in the sequence fits the phase it is given in.
pub open spec fn shutdown_events_fit(s: ShutdownState, events: Seq<ShutdownEvent>) -> bool
    decreases events.len(),
{
    if events.len() == 0 {
        true
    } else {
        event_fits(s.phase, events[0]) && shutdown_events_fit(
            shutdown_next(s, events[0]).0,
            events.drop_first(),
        )
    }
}

/// Each fitting step keeps the state consistent and, until the shutdown is
/// done, leaves strictly less work.
pub proof fn lemma_shutdown_step_progress(s: ShutdownState, e: ShutdownEvent)
    requires
        shutdown_wf(s),
        event_fits(s.phase, e),
    ensures
        shutdown_wf(shutdown_next(s, e).0),
        s.phase != ShutdownPhase::Done ==> shutdown_rank(shutdown_next(s, e).0) < shutdown_rank(s),
        shutdown_next(s, e).0.can_terminate == s.can_terminate,
{
}

/// The shutdown always finishes: from a consistent state, once as many
/// fitting reports as its remaining work have been given, it is done.
pub proof fn lemma_shutdown_finishes(s: ShutdownState, events: Seq<ShutdownEvent>)
    requires
        shutdown_wf(s),
        shutdown_events_fit(s, events),
        events.len() >= shutdown_rank(s),
    ensures
        shutdown_run(s, events).phase == ShutdownPhase::Done,
    decreases events.len(),
{
    if events.len() == 0 {
        if s.phase != ShutdownPhase::Done {
            assert(shutdown_rank(s) > 0);
        }
    } else if s.phase == ShutdownPhase::Done {
        lemma_shutdown_done_stays(s, events);
    } else {
        lemma_shutdown_step_progress(s, events[0]);
        lemma_shutdown_finishes(shutdown_next(s, events[0]).0, events.drop_first());
    }
}

/// Once done, a shutdown stays done.
pub proof fn lemma_shutdown_done_stays(s: ShutdownState, events: Seq<ShutdownEvent>)
    requires
        s.phase == ShutdownPhase::Done,
    ensures
        shutdown_run(s, events).phase == ShutdownPhase::Done,
    decreases events.len(),
{
    if events.len() > 0 {
        lemma_shutdown_done_stays(shutdown_next(s, events[0]).0, events.drop_first());
    }
}

/// The report that the process is still running.
pub open spec fn seen_running() -> ShutdownEvent {
    ShutdownEvent::Probed { exited: false }
}

/// The report that the process has exited.
pub open spec fn seen_exited() -> ShutdownEvent {
    ShutdownEvent::Probed { exited: true }
}

/// A shutdown not yet begun.
pub open spec fn shutdown_start(can_terminate: bool) -> ShutdownState {
    ShutdownState { phase: ShutdownPhase::Begin, can_terminate }
}

/// A shutdown started from scratch finishes after at most 40 fitting
/// reports.
pub proof fn lemma_shutdown_from_begin_finishes(can_terminate: bool, events: Seq<ShutdownEvent>)
    requires
        shutdown_events_fit(shutdown_start(can_terminate), events),
        events.len() >= 40,
    ensures
        shutdown_run(shutdown_start(can_terminate), events).phase == ShutdownPhase::Done,
{
    lemma_shutdown_finishes(shutdown_start(can_terminate), events);
}

/// What each step may ask for: the process is asked to terminate only where
/// the platform allows it and only right after it was seen running; it is
/// killed only right after it was seen running; the stop command is sent
/// only once it was seen running at the first check; a process seen exited
/// at the first check is left alone; and a process seen running is always
/// reaped before the shutdown finishes.
pub proof fn lemma_shutdown_safety(s: ShutdownState, e: ShutdownEvent)
    requires
        shutdown_wf(s),
    ensures
        shutdown_next(s, e).1 == ShutdownAction::Terminate ==> s.can_terminate && e
            == seen_running(),
        shutdown_next(s, e).1 == ShutdownAction::ForceKill ==> e == seen_running(),
        shutdown_next(s, e).1 == ShutdownAction::StopStream ==> s.phase == ShutdownPhase::FirstProbe
            && e == seen_running(),
        s.phase == ShutdownPhase::FirstProbe && e == seen_exited() ==> shutdown_next(s, e).1
            == ShutdownAction::Finish && shutdown_next(s, e).0.phase == ShutdownPhase::Done,
        shutdown_next(s, e).1 == ShutdownAction::Finish && s.phase != ShutdownPhase::Done ==> (
        s.phase == ShutdownPhase::FirstProbe && e == seen_exited()) || s.phase
            == ShutdownPhase::Reaping,
{
}

} // verus!
