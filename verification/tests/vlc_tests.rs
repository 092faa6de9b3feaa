use vlc2chromecast::status_json::status_from_response;
use vlc2chromecast::clock::{decimal_string, format_time};
use vlc2chromecast::launch::{check_launch_request, LaunchError};
use vlc2chromecast::vlc_http::{
    build_vlc_args, command_query_text, command_request, http_body, seek, status_request,
    toggle_pause, VlcCommand,
};

#[test]
fn build_args_contains_file_ip_and_http_interface() {
    let args = build_vlc_args("/home/user/video.mp4", "192.168.1.50");
    assert_eq!(args[0], "/home/user/video.mp4");
    assert_eq!(args[1], "--sout=#chromecast");
    assert_eq!(args[2], "--sout-chromecast-ip=192.168.1.50");
    assert!(args.contains(&"--intf".to_string()));
    assert!(args.contains(&"dummy".to_string()));
    assert!(args.contains(&"--extraintf".to_string()));
    assert!(args.contains(&"http".to_string()));
}

#[test]
fn build_args_full_list() {
    let args = build_vlc_args("a.mkv", "10.0.0.2");
    let want = vec![
        "a.mkv",
        "--sout=#chromecast",
        "--sout-chromecast-ip=10.0.0.2",
        "--demux-filter=cc_demux",
        "--intf",
        "dummy",
        "--extraintf",
        "http",
        "--http-host",
        "localhost",
        "--http-port",
        "54212",
        "--http-password",
        "vlc2cc",
    ];
    assert_eq!(args, want);
}

#[test]
fn launch_vlc_rejects_empty_path() {
    let result = check_launch_request("", "video.mp4", "192.168.1.1", true, false);
    assert!(result.is_err());
    assert!(result.unwrap_err().message().contains("VLC path"));
}

#[test]
fn launch_vlc_rejects_empty_file() {
    let result = check_launch_request("/usr/bin/vlc", "", "192.168.1.1", true, false);
    assert!(result.is_err());
    assert!(result.unwrap_err().message().contains("video file"));
}

#[test]
fn launch_vlc_rejects_empty_ip() {
    let result = check_launch_request("/usr/bin/vlc", "video.mp4", "", false, false);
    assert!(result.is_err());
    assert!(result.unwrap_err().message().contains("Chromecast IP"));
}

#[test]
fn launch_vlc_rejects_invalid_ip() {
    let result = check_launch_request("/usr/bin/vlc", "video.mp4", "not-an-ip", false, false);
    assert!(result.is_err());
    assert!(result.unwrap_err().message().contains("Invalid"));
}

#[test]
fn launch_rejects_missing_file_and_accepts_valid_request() {
    let missing = check_launch_request("vlc", "/no/such.mp4", "192.168.1.1", true, false);
    match missing {
        Err(e) => assert_eq!(e.message(), "Video file not found: /no/such.mp4"),
        Ok(_) => panic!("expected an error"),
    }
    let ok = check_launch_request("vlc", "/v.mp4", "192.168.1.1", true, true);
    match ok {
        Ok(args) => assert_eq!(args, build_vlc_args("/v.mp4", "192.168.1.1")),
        Err(_) => panic!("expected success"),
    }
}

#[test]
fn launch_error_messages() {
    assert_eq!(
        LaunchError::InvalidChromecastIp("x".to_string()).message(),
        "Invalid Chromecast IP address: x"
    );
    assert_eq!(
        LaunchError::PortInUse.message(),
        "Port 54212 is already in use \u{2014} another VLC instance or process may be running"
    );
    assert_eq!(
        LaunchError::SpawnFailed("no such file".to_string()).message(),
        "Failed to launch VLC: no such file"
    );
    assert_eq!(LaunchError::StderrNotCaptured.message(), "Failed to capture VLC stderr");
    assert_eq!(LaunchError::VlcPathNotSet.message(), "VLC path is not set");
    assert_eq!(LaunchError::NoVideoFile.message(), "No video file selected");
    assert_eq!(LaunchError::ChromecastIpNotSet.message(), "Chromecast IP is not set");
}

#[test]
fn format_time_minutes() {
    assert_eq!(format_time(0.0_f64 as u64), "0:00");
    assert_eq!(format_time(65.0_f64 as u64), "1:05");
    assert_eq!(format_time(3599.0_f64 as u64), "59:59");
}

#[test]
fn format_time_hours() {
    assert_eq!(format_time(3600.0_f64 as u64), "1:00:00");
    assert_eq!(format_time(3661.0_f64 as u64), "1:01:01");
}

#[test]
fn format_time_large_and_padding() {
    assert_eq!(format_time(36000 + 9), "10:00:09");
    assert_eq!(format_time(600), "10:00");
    assert_eq!(format_time(59), "0:59");
}

#[test]
fn decimal_rendering() {
    assert_eq!(decimal_string(0), "0");
    assert_eq!(decimal_string(7), "7");
    assert_eq!(decimal_string(1234567890), "1234567890");
    assert_eq!(decimal_string(u64::MAX), u64::MAX.to_string());
}

#[test]
fn commands_and_requests() {
    assert_eq!(toggle_pause(), VlcCommand::Pause);
    assert_eq!(seek(42), VlcCommand::Seek(42));
    assert_eq!(command_query_text(VlcCommand::Pause), "pl_pause");
    assert_eq!(command_query_text(VlcCommand::Stop), "pl_stop");
    assert_eq!(command_query_text(VlcCommand::Seek(90)), "seek&val=90");
    assert_eq!(
        command_request(VlcCommand::Seek(7)),
        "GET /requests/status.json?command=seek&val=7 HTTP/1.0\r\nAuthorization: Basic OnZsYzJjYw==\r\n\r\n"
    );
    assert_eq!(
        status_request(),
        "GET /requests/status.json HTTP/1.0\r\nAuthorization: Basic OnZsYzJjYw==\r\n\r\n"
    );
}

#[test]
fn http_body_is_second_piece() {
    assert_eq!(http_body("HTTP/1.0 200 OK\r\nX: y\r\n\r\n{\"a\":1}"), Some("{\"a\":1}".to_string()));
    assert_eq!(http_body("head\r\n\r\nbody\r\n\r\nmore"), Some("body".to_string()));
    assert_eq!(http_body("head\r\n\r\n"), Some(String::new()));
    assert_eq!(http_body("no separator"), None);
    assert_eq!(http_body("h\r\n\r\n\u{e9}t\u{e9}"), Some("\u{e9}t\u{e9}".to_string()));
}

#[test]
fn status_is_read_from_the_reply() {
    let playing = "HTTP/1.0 200 OK\r\nContent-Type: application/json\r\n\r\n{\"state\":\"playing\",\"time\":12,\"length\":300}";
    let s = status_from_response(playing, true).unwrap();
    assert!(s.is_playing && !s.finished && s.has_duration);
    let stopped = "HTTP/1.0 200 OK\r\n\r\n{\"state\": \"stopped\"}";
    let s = status_from_response(stopped, false).unwrap();
    assert!(!s.is_playing && s.finished && !s.has_duration);
    let no_state = "HTTP/1.0 200 OK\r\n\r\n{\"time\": 3}";
    let s = status_from_response(no_state, false).unwrap();
    assert!(!s.is_playing && !s.finished);
    let state_not_text = "HTTP/1.0 200 OK\r\n\r\n{\"state\": 1}";
    let s = status_from_response(state_not_text, false).unwrap();
    assert!(!s.is_playing && !s.finished);
    assert_eq!(status_from_response("HTTP/1.0 200 OK\r\n\r\nnot json", true), None);
    assert_eq!(status_from_response("no separator {\"state\":\"playing\"}", true), None);
}
