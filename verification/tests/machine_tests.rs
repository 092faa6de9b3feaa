use vlc2chromecast::playback_monitor::{
    player_status, unresponsive_message, MonitorState, PlayerStatus, PollAction, PollOutcome,
};
use vlc2chromecast::screen::{screen_under_cursor, ScreenRect};
use vlc2chromecast::shutdown::{ShutdownAction, ShutdownEvent, ShutdownState};
use vlc2chromecast::shutdown::ShutdownAction::{
    CheckExited, Finish, ForceKill, PauseBriefly, Reap, StopStream, Terminate,
};

fn run_shutdown(can_terminate: bool, exits_after_probes: usize) -> Vec<ShutdownAction> {
    let mut st = ShutdownState::new(can_terminate);
    let mut ev = ShutdownEvent::Ready;
    let mut probes = 0;
    let mut actions = Vec::new();
    for _ in 0..100 {
        let a = st.step(ev);
        actions.push(a);
        ev = match a {
            ShutdownAction::CheckExited => {
                probes += 1;
                ShutdownEvent::Probed { exited: probes > exits_after_probes }
            }
            ShutdownAction::Finish => break,
            _ => ShutdownEvent::Ready,
        };
    }
    actions
}

#[test]
fn shutdown_of_exited_process_does_nothing() {
    assert_eq!(run_shutdown(true, 0), vec![CheckExited, Finish]);
}

#[test]
fn shutdown_stops_stream_then_terminates_then_kills() {
    let acts = run_shutdown(true, usize::MAX);
    let mut want = vec![CheckExited, StopStream, CheckExited, Terminate];
    for _ in 0..10 {
        want.push(PauseBriefly);
        want.push(CheckExited);
    }
    want.extend([CheckExited, ForceKill, Reap, Finish]);
    assert_eq!(acts, want);
}

#[test]
fn shutdown_after_stop_command_only_reaps() {
    assert_eq!(
        run_shutdown(true, 1),
        vec![CheckExited, StopStream, CheckExited, CheckExited, Reap, Finish]
    );
}

#[test]
fn shutdown_without_terminate_signal() {
    assert_eq!(
        run_shutdown(false, usize::MAX),
        vec![CheckExited, StopStream, CheckExited, ForceKill, Reap, Finish]
    );
}

#[test]
fn shutdown_exit_during_terminate_wait() {
    assert_eq!(
        run_shutdown(true, 3),
        vec![
            CheckExited, StopStream, CheckExited, Terminate, PauseBriefly, CheckExited,
            PauseBriefly, CheckExited, CheckExited, Reap, Finish
        ]
    );
}

fn answered(is_playing: bool, finished: bool, has_duration: bool) -> PollOutcome {
    PollOutcome::Answered(PlayerStatus { is_playing, finished, has_duration })
}

#[test]
fn monitor_gives_up_after_eight_failures() {
    let mut st = MonitorState::new();
    for _ in 0..7 {
        assert_eq!(st.on_poll(PollOutcome::NoAnswer), PollAction::Wait);
    }
    assert_eq!(st.on_poll(PollOutcome::NoAnswer), PollAction::ReportUnresponsive);
}

#[test]
fn monitor_answer_resets_failures() {
    let mut st = MonitorState::new();
    for _ in 0..7 {
        st.on_poll(PollOutcome::NoAnswer);
    }
    assert_eq!(st.on_poll(answered(true, false, true)), PollAction::PublishAndWait);
    assert_eq!(st.consecutive_failures, 0);
    for _ in 0..7 {
        assert_eq!(st.on_poll(PollOutcome::NoAnswer), PollAction::Wait);
    }
}

#[test]
fn monitor_stops_when_finished_after_start() {
    let mut st = MonitorState::new();
    assert_eq!(st.on_poll(answered(false, true, false)), PollAction::PublishAndWait);
    assert_eq!(st.on_poll(answered(true, false, true)), PollAction::PublishAndWait);
    assert!(st.playback_started);
    assert_eq!(st.on_poll(answered(false, true, true)), PollAction::PublishAndStop);
}

#[test]
fn monitor_inspects_errors_after_fifteen_idle_polls() {
    let mut st = MonitorState::new();
    for _ in 0..14 {
        assert_eq!(st.on_poll(answered(false, false, false)), PollAction::PublishAndWait);
    }
    assert_eq!(st.on_poll(answered(false, false, false)), PollAction::PublishAndInspectErrors);
    assert!(!st.on_inspection(false));
    assert_eq!(st.idle_polls, 10);
    for _ in 0..4 {
        assert_eq!(st.on_poll(answered(false, false, false)), PollAction::PublishAndWait);
    }
    assert_eq!(st.on_poll(answered(false, false, false)), PollAction::PublishAndInspectErrors);
    assert!(st.on_inspection(true));
}

#[test]
fn playing_without_duration_is_not_started() {
    let mut st = MonitorState::new();
    st.on_poll(answered(true, false, false));
    assert!(!st.playback_started);
    assert_eq!(st.idle_polls, 1);
}

#[test]
fn status_from_state_text() {
    let p = player_status(Some("playing"), true);
    assert!(p.is_playing && !p.finished && p.has_duration);
    let s = player_status(Some("stopped"), false);
    assert!(!s.is_playing && s.finished);
    let n = player_status(None, false);
    assert!(!n.is_playing && !n.finished);
    let o = player_status(Some("paused"), true);
    assert!(!o.is_playing && !o.finished);
}

#[test]
fn unresponsive_message_prefers_stderr() {
    assert_eq!(unresponsive_message(Some("VLC error: x".to_string())), "VLC error: x");
    assert_eq!(
        unresponsive_message(None),
        "VLC is not responding \u{2014} it may have crashed or failed to start"
    );
}

#[test]
fn cursor_screen_is_first_containing() {
    let screens = [
        ScreenRect { x_org: 0, y_org: 0, width: 1920, height: 1080 },
        ScreenRect { x_org: 1920, y_org: 0, width: 1280, height: 1024 },
    ];
    assert_eq!(screen_under_cursor(&screens, 2000, 10), Some(screens[1]));
    assert_eq!(screen_under_cursor(&screens, 0, 0), Some(screens[0]));
    assert_eq!(screen_under_cursor(&screens, 1920, 1023), Some(screens[1]));
    assert_eq!(screen_under_cursor(&screens, 1920, 1024), None);
    assert_eq!(screen_under_cursor(&screens, 1919, 1080), None);
    assert_eq!(screen_under_cursor(&screens, -1, 5), None);
    assert_eq!(screen_under_cursor(&[], 0, 0), None);
}
