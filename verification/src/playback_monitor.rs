//! The decisions of the loop that polls VLC for its playback status once a
//! second: when to report that the video finished, when to look at VLC's
//! error output because playback never started, and when to give up because
//! VLC stopped answering.

use vstd::prelude::*;

verus! {

/// Failed polls in a row after which VLC is taken to be gone.
pub const FAILURE_LIMIT: u32 = 8;

/// Answered polls without playback after which VLC's error output is read.
pub const IDLE_LIMIT: u32 = 15;

/// Where the idle count is set back to when the error output held nothing,
/// so that it is read again five polls later.
pub const IDLE_RECHECK: u32 = 10;

/// What one answered poll says about the player.
#[derive(Clone, Copy, Debug, PartialEq, Eq, Structural)]
pub struct PlayerStatus {
    /// VLC reports the state `playing`.
    pub is_playing: bool,
    /// VLC reports the state `stopped`.
    pub finished: bool,
    /// VLC reports a length greater than zero.
    pub has_duration: bool,
}

/// The outcome of one poll.
#[derive(Clone, Copy, Debug, PartialEq, Eq, Structural)]
pub enum PollOutcome {
    /// VLC did not answer, or its answer could not be read.
    NoAnswer,
    /// VLC answered with this status.
    Answered(PlayerStatus),
}

/// The counters the loop keeps between polls.
#[derive(Clone, Copy, Debug, PartialEq, Eq, Structural)]
pub struct MonitorState {
    /// Polls in a row that got no answer.
    pub consecutive_failures: u32,
    /// Answered polls since the start without playback.
    pub idle_polls: u32,
    /// Playback was seen running at some poll.
    pub playback_started: bool,
}

/// What the loop does after a poll.
#[derive(Clone, Copy, Debug, PartialEq, Eq, Structural)]
pub enum PollAction {
    /// Publish the status, wait a second and poll again.
    PublishAndWait,
    /// Publish the status and stop: the video has finished.
    PublishAndStop,
    /// Publish the status, then look at VLC's error output: VLC answers but
    /// playback has not started.
    PublishAndInspectErrors,
    /// Wait a second and poll again.
    Wait,
    /// Report that VLC is not responding and stop.
    ReportUnresponsive,
}

/// The counters are in the range the loop keeps them in.
pub open spec fn monitor_wf(s: MonitorState) -> bool {
    &&& s.consecutive_failures < FAILURE_LIMIT
    &&& s.idle_polls < IDLE_LIMIT
    &&& s.playback_started ==> s.idle_polls == 0
}

/// The counters and the action after a poll.
pub open spec fn poll_next(s: MonitorState, o: PollOutcome) -> (MonitorState, PollAction) {
    match o {
        PollOutcome::Answered(ps) => {
            let finished_now = s.playback_started && ps.finished;
            let playing = ps.is_playing && ps.has_duration;
            let started = s.playback_started || playing;
            let idle = if playing {
                0
            } else if !s.playback_started {
                (s.idle_polls + 1) as u32
            } else {
                s.idle_polls
            };
            let next = MonitorState {
                consecutive_failures: 0,
                idle_polls: idle,
                playback_started: started,
            };
            if finished_now {
                (next, PollAction::PublishAndStop)
            } else if !started && idle >= IDLE_LIMIT {
                (next, PollAction::PublishAndInspectErrors)
            } else {
                (next, PollAction::PublishAndWait)
            }
        },
        PollOutcome::NoAnswer => {
            let failures = (s.consecutive_failures + 1) as u32;
            let next = MonitorState { consecutive_failures: failures, ..s };
            if failures >= FAILURE_LIMIT {
                (next, PollAction::ReportUnresponsive)
            } else {
                (next, PollAction::Wait)
            }
        },
    }
}

/// The counters after VLC's error output was read because playback had not
/// started, and whether the loop stops: it stops when the output held an
/// error message, and otherwise reads it again five polls later.
pub open spec fn inspection_next(s: MonitorState, found_error: bool) -> (MonitorState, bool) {
    if found_error {
        (s, true)
    } else {
        (MonitorState { idle_polls: IDLE_RECHECK, ..s }, false)
    }
}

/// The status VLC reports: playing, stopped, and whether the length is
/// positive.
pub open spec fn status_of(state: Option<Seq<char>>, has_duration: bool) -> PlayerStatus {
    PlayerStatus {
        is_playing: state == Some("playing"@),
        finished: state == Some("stopped"@),
        has_duration,
    }
}

/// Reads a poll's answer: `state` is the `state` member of VLC's status, if
/// it is a string, and `has_duration` says whether its `length` is positive.
pub fn player_status(state: Option<&str>, has_duration: bool) -> (r: PlayerStatus)
    ensures
        r == status_of(
            match state {
                Some(t) => Some(t@),
                None => None,
            },
            has_duration,
        ),
{
    match state {
        Some(t) => {
            let t = String::from_str(t);
            let playing = String::from_str("playing");
            let stopped = String::from_str("stopped");
            PlayerStatus { is_playing: t == playing, finished: t == stopped, has_duration }
        },
        None => PlayerStatus { is_playing: false, finished: false, has_duration },
    }
}

/// The message shown when VLC stopped answering: the error found in its
/// output, or a general one.
pub open spec fn unresponsive_text(stderr_error: Option<Seq<char>>) -> Seq<char> {
    match stderr_error {
        Some(m) => m,
        None => "VLC is not responding \u{2014} it may have crashed or failed to start"@,
    }
}

/// The message reported when VLC stopped answering.
pub fn unresponsive_message(stderr_error: Option<String>) -> (r: String)
    ensures
        r@ == unresponsive_text(
            match stderr_error {
                Some(m) => Some(m@),
                None => None,
            },
        ),
{
    match stderr_error {
        Some(m) => m,
        None => String::from_str(
            "VLC is not responding \u{2014} it may have crashed or failed to start",
        ),
    }
}

impl MonitorState {
    /// The counters before the first poll.
    pub fn new() -> (r: Self)
        ensures
            r == (MonitorState { consecutive_failures: 0, idle_polls: 0, playback_started: false }),
            monitor_wf(r),
    {
        MonitorState { consecutive_failures: 0, idle_polls: 0, playback_started: false }
    }

    /// Takes the outcome of a poll and returns what to do.
    pub fn on_poll(&mut self, o: PollOutcome) -> (a: PollAction)
        requires
            monitor_wf(*old(self)),
        ensures
            (*final(self), a) == poll_next(*old(self), o),
    {
        match o {
            PollOutcome::Answered(ps) => {
                let finished_now = self.playback_started && ps.finished;
                let playing = ps.is_playing && ps.has_duration;
                if playing {
                    self.idle_polls = 0;
                } else if !self.playback_started {
                    self.idle_polls = self.idle_polls + 1;
                }
                self.playback_started = self.playback_started || playing;
                self.consecutive_failures = 0;
                if finished_now {
                    PollAction::PublishAndStop
                } else if !self.playback_started && self.idle_polls >= IDLE_LIMIT {
                    PollAction::PublishAndInspectErrors
                } else {
                    PollAction::PublishAndWait
                }
            },
            PollOutcome::NoAnswer => {
                self.consecutive_failures = self.consecutive_failures + 1;
                if self.consecutive_failures >= FAILURE_LIMIT {
                    PollAction::ReportUnresponsive
                } else {
                    PollAction::Wait
                }
            },
        }
    }

    /// Takes whether VLC's error output held an error message, after
    /// `PublishAndInspectErrors`, and returns whether the loop stops.
    pub fn on_inspection(&mut self, found_error: bool) -> (stop: bool)
        ensures
            (*final(self), stop) == inspection_next(*old(self), found_error),
    {
        if found_error {
            true
        } else {
            self.idle_polls = IDLE_RECHECK;
            false
        }
    }
}

/// Counters stay in range across the loop: after a poll that goes on, and
/// after a reading of the error output that found nothing.
pub proof fn lemma_monitor_wf_preserved(s: MonitorState, o: PollOutcome)
    requires
        monitor_wf(s),
    ensures
        poll_next(s, o).1 is PublishAndWait || poll_next(s, o).1 is Wait ==> monitor_wf(
            poll_next(s, o).0,
        ),
        poll_next(s, o).1 is PublishAndInspectErrors ==> monitor_wf(
            inspection_next(poll_next(s, o).0, false).0,
        ),
{
}

/// What a poll decides: an answer clears the failure count; once playback
/// has started it stays started; the loop stops for a finished video only
/// when playback had started before this poll and VLC reports `stopped`;
/// the error output is read only while playback has not started, after the
/// fifteenth idle answer; and VLC is given up on exactly at the eighth
/// unanswered poll in a row.
pub proof fn lemma_monitor_poll(s: MonitorState, o: PollOutcome)
    requires
        monitor_wf(s),
    ensures
        o is Answered ==> poll_next(s, o).0.consecutive_failures == 0,
        s.playback_started ==> poll_next(s, o).0.playback_started,
        poll_next(s, o).1 is PublishAndStop <==> (s.playback_started && (o matches PollOutcome::Answered(
            ps,
        ) && ps.finished)),
        poll_next(s, o).1 is PublishAndInspectErrors ==> !poll_next(s, o).0.playback_started
            && poll_next(s, o).0.idle_polls == IDLE_LIMIT,
        poll_next(s, o).1 is ReportUnresponsive <==> (o is NoAnswer && s.consecutive_failures + 1
            == FAILURE_LIMIT),
        o is NoAnswer ==> poll_next(s, o).0.consecutive_failures == s.consecutive_failures + 1,
{
}

/// After an empty reading of the error output, it is read again after five
/// more idle answers; after a reading that found an error, the loop stops.
pub proof fn lemma_monitor_inspection(s: MonitorState, found_error: bool)
    ensures
        found_error ==> inspection_next(s, found_error).1,
        !found_error ==> !inspection_next(s, found_error).1 && IDLE_LIMIT - inspection_next(
            s,
            found_error,
        ).0.idle_polls == 5,
        inspection_next(s, found_error).0.playback_started == s.playback_started,
{
}

/// What the polling loop does to the shared playback state, step by step.
#[derive(Clone, Copy, Debug, PartialEq, Eq, Structural)]
pub enum MonitorEffect {
    /// A polled status is stored and a repaint requested.
    Publish,
    /// An error message is stored and a repaint requested; the loop ends.
    SetError,
}

/// The effects of the polling loop run from `s` over a sequence of inputs:
/// each input is the outcome of a poll, together with whether VLC's error
/// output held an error message, which the loop reads only when a poll asks
/// for it. The loop ends where an action stops it.
pub open spec fn monitor_run(s: MonitorState, inputs: Seq<(PollOutcome, bool)>) -> Seq<
    MonitorEffect,
>
    decreases inputs.len(),
{
    if inputs.len() == 0 {
        seq![]
    } else {
        let (o, found) = inputs[0];
        let (s1, a) = poll_next(s, o);
        let rest = inputs.drop_first();
        match a {
            PollAction::PublishAndWait => seq![MonitorEffect::Publish] + monitor_run(s1, rest),
            PollAction::PublishAndStop => seq![MonitorEffect::Publish],
            PollAction::PublishAndInspectErrors => {
                let (s2, stop) = inspection_next(s1, found);
                if stop {
                    seq![MonitorEffect::Publish, MonitorEffect::SetError]
                } else {
                    seq![MonitorEffect::Publish] + monitor_run(s2, rest)
                }
            },
            PollAction::Wait => monitor_run(s1, rest),
            PollAction::ReportUnresponsive => seq![MonitorEffect::SetError],
        }
    }
}

/// Once the loop sets an error it does nothing more: over any run from
/// counters in range, an error is only ever the last effect, so no status
/// is published after it; and every answered poll publishes its status.
pub proof fn lemma_monitor_error_is_final(s: MonitorState, inputs: Seq<(PollOutcome, bool)>)
    requires
        monitor_wf(s),
    ensures
        forall|i: int|
            0 <= i < monitor_run(s, inputs).len() && #[trigger] monitor_run(s, inputs)[i]
                == MonitorEffect::SetError ==> i == monitor_run(s, inputs).len() - 1,
        inputs.len() > 0 && inputs[0].0 is Answered ==> monitor_run(s, inputs).len() > 0
            && monitor_run(s, inputs)[0] == MonitorEffect::Publish,
    decreases inputs.len(),
{
    if inputs.len() > 0 {
        let (o, found) = inputs[0];
        let (s1, a) = poll_next(s, o);
        let rest = inputs.drop_first();
        lemma_monitor_wf_preserved(s, o);
        let r = monitor_run(s, inputs);
        match a {
            PollAction::PublishAndWait => {
                lemma_monitor_error_is_final(s1, rest);
                let tail = monitor_run(s1, rest);
                assert forall|i: int|
                    0 <= i < r.len() && #[trigger] r[i] == MonitorEffect::SetError implies i
                    == r.len() - 1 by {
                    if i > 0 {
                        assert(r[i] == tail[i - 1]);
                    }
                }
            },
            PollAction::PublishAndInspectErrors => {
                let (s2, stop) = inspection_next(s1, found);
                if !stop {
                    lemma_monitor_error_is_final(s2, rest);
                    let tail = monitor_run(s2, rest);
                    assert forall|i: int|
                        0 <= i < r.len() && #[trigger] r[i] == MonitorEffect::SetError implies i
                        == r.len() - 1 by {
                        if i > 0 {
                            assert(r[i] == tail[i - 1]);
                        }
                    }
                }
            },
            PollAction::Wait => {
                lemma_monitor_error_is_final(s1, rest);
            },
            _ => {},
        }
    }
}

/// Idle counting before playback starts: an answered poll that does not
/// show playback with a length adds exactly one to the idle count, whatever
/// VLC's state string says, and playback stays not started; one that does
/// show it starts playback and clears the count. VLC's error output is read
/// exactly when playback has not started and the idle count reaches 15.
pub proof fn lemma_idle_counting(s: MonitorState, ps: PlayerStatus)
    requires
        monitor_wf(s),
        !s.playback_started,
    ensures
        !(ps.is_playing && ps.has_duration) ==> poll_next(s, PollOutcome::Answered(ps)).0.idle_polls
            == s.idle_polls + 1 && !poll_next(s, PollOutcome::Answered(ps)).0.playback_started,
        ps.is_playing && ps.has_duration ==> poll_next(s, PollOutcome::Answered(ps)).0.idle_polls
            == 0 && poll_next(s, PollOutcome::Answered(ps)).0.playback_started && poll_next(
            s,
            PollOutcome::Answered(ps),
        ).1 == PollAction::PublishAndWait,
        poll_next(s, PollOutcome::Answered(ps)).1 == PollAction::PublishAndInspectErrors <==> (!(
        ps.is_playing && ps.has_duration) && s.idle_polls + 1 >= 15),
        poll_next(s, PollOutcome::Answered(ps)).1 == PollAction::PublishAndWait <==> (ps.is_playing
            && ps.has_duration || s.idle_polls + 1 < 15),
        poll_next(s, PollOutcome::Answered(ps)).0.consecutive_failures == 0,
{
}

/// The counters after `k` answered polls that all report `ps`, from `s`.
pub open spec fn repeated_answers(s: MonitorState, ps: PlayerStatus, k: nat) -> MonitorState
    decreases k,
{
    if k == 0 {
        s
    } else {
        poll_next(repeated_answers(s, ps, (k - 1) as nat), PollOutcome::Answered(ps)).0
    }
}

/// From fresh counters, answered polls that never show playback with a
/// length (for instance VLC sitting `stopped` after failing to open the
/// file) are published and waited on for the first 14, and the 15th asks
/// for VLC's error output to be read.
pub proof fn lemma_fifteen_idle_answers(ps: PlayerStatus, k: nat)
    requires
        !(ps.is_playing && ps.has_duration),
        k < 15,
    ensures
        repeated_answers(
            MonitorState { consecutive_failures: 0, idle_polls: 0, playback_started: false },
            ps,
            k,
        ).idle_polls == k,
        !repeated_answers(
            MonitorState { consecutive_failures: 0, idle_polls: 0, playback_started: false },
            ps,
            k,
        ).playback_started,
        k < 14 ==> poll_next(
            repeated_answers(
                MonitorState { consecutive_failures: 0, idle_polls: 0, playback_started: false },
                ps,
                k,
            ),
            PollOutcome::Answered(ps),
        ).1 == PollAction::PublishAndWait,
        k == 14 ==> poll_next(
            repeated_answers(
                MonitorState { consecutive_failures: 0, idle_polls: 0, playback_started: false },
                ps,
                k,
            ),
            PollOutcome::Answered(ps),
        ).1 == PollAction::PublishAndInspectErrors,
    decreases k,
{
    let fresh = MonitorState { consecutive_failures: 0, idle_polls: 0, playback_started: false };
    if k > 0 {
        lemma_fifteen_idle_answers(ps, (k - 1) as nat);
        let prev = repeated_answers(fresh, ps, (k - 1) as nat);
        assert(prev.consecutive_failures == 0) by {
            lemma_failures_cleared(fresh, ps, (k - 1) as nat);
        }
        lemma_idle_counting(prev, ps);
    }
    let cur = repeated_answers(fresh, ps, k);
    lemma_failures_cleared(fresh, ps, k);
    lemma_idle_counting(cur, ps);
}

/// Answered polls keep the failure count at zero.
proof fn lemma_failures_cleared(s: MonitorState, ps: PlayerStatus, k: nat)
    requires
        s.consecutive_failures == 0,
    ensures
        repeated_answers(s, ps, k).consecutive_failures == 0,
    decreases k,
{
    if k > 0 {
        lemma_failures_cleared(s, ps, (k - 1) as nat);
    }
}

/// Failure counting: an unanswered poll adds exactly one to the failure
/// count and leaves the rest alone; VLC is given up on exactly when that
/// count reaches 8, and the loop otherwise waits.
pub proof fn lemma_failure_counting(s: MonitorState)
    requires
        monitor_wf(s),
    ensures
        poll_next(s, PollOutcome::NoAnswer).0.consecutive_failures == s.consecutive_failures + 1,
        poll_next(s, PollOutcome::NoAnswer).0.idle_polls == s.idle_polls,
        poll_next(s, PollOutcome::NoAnswer).0.playback_started == s.playback_started,
        poll_next(s, PollOutcome::NoAnswer).1 == PollAction::ReportUnresponsive <==> s.consecutive_failures
            + 1 >= 8,
        poll_next(s, PollOutcome::NoAnswer).1 == PollAction::Wait <==> s.consecutive_failures + 1 < 8,
{
}

/// VLC's `state` text decides the status: playing exactly for `"playing"`,
/// finished exactly for `"stopped"`, neither when there is no state string.
pub proof fn lemma_status_from_state_text(state: Option<Seq<char>>, has_duration: bool)
    ensures
        status_of(state, has_duration).is_playing <==> (state is Some && state->0 == "playing"@),
        status_of(state, has_duration).finished <==> (state is Some && state->0 == "stopped"@),
        status_of(state, has_duration).has_duration == has_duration,
{
}

} // verus!
