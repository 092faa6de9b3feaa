//! The checks made before VLC is started, and the messages shown when a
//! launch is refused or fails.

use vstd::prelude::*;
use crate::clock::{decimal, push_decimal};
use crate::vlc_http::{VLC_HTTP_PORT, build_vlc_args, vlc_args, views};

verus! {

/// Why VLC was not started.
#[derive(Debug)]
pub enum LaunchError {
    /// The path of the VLC executable is empty.
    VlcPathNotSet,
    /// No video file was chosen.
    NoVideoFile,
    /// The Chromecast address is empty.
    ChromecastIpNotSet,
    /// The Chromecast address is not an IP address; holds the address.
    InvalidChromecastIp(String),
    /// The video file does not exist; holds its path.
    VideoFileNotFound(String),
    /// Something already listens on VLC's HTTP control port.
    PortInUse,
    /// Starting the VLC process failed; holds the system's reason.
    SpawnFailed(String),
    /// VLC's error output could not be captured.
    StderrNotCaptured,
}

/// The message shown for each launch error.
pub open spec fn launch_error_text(e: LaunchError) -> Seq<char> {
    match e {
        LaunchError::VlcPathNotSet => "VLC path is not set"@,
        LaunchError::NoVideoFile => "No video file selected"@,
        LaunchError::ChromecastIpNotSet => "Chromecast IP is not set"@,
        LaunchError::InvalidChromecastIp(ip) => "Invalid Chromecast IP address: "@ + ip@,
        LaunchError::VideoFileNotFound(f) => "Video file not found: "@ + f@,
        LaunchError::PortInUse => "Port "@ + decimal(VLC_HTTP_PORT as nat)
            + " is already in use \u{2014} another VLC instance or process may be running"@,
        LaunchError::SpawnFailed(reason) => "Failed to launch VLC: "@ + reason@,
        LaunchError::StderrNotCaptured => "Failed to capture VLC stderr"@,
    }
}

impl LaunchError {
    /// The message shown to the user.
    pub fn message(&self) -> (r: String)
        ensures
            r@ == launch_error_text(*self),
    {
        match self {
            LaunchError::VlcPathNotSet => String::from_str("VLC path is not set"),
            LaunchError::NoVideoFile => String::from_str("No video file selected"),
            LaunchError::ChromecastIpNotSet => String::from_str("Chromecast IP is not set"),
            LaunchError::InvalidChromecastIp(ip) => {
                let mut r = String::from_str("Invalid Chromecast IP address: ");
                r.append(ip.as_str());
                r
            },
            LaunchError::VideoFileNotFound(f) => {
                let mut r = String::from_str("Video file not found: ");
                r.append(f.as_str());
                r
            },
            LaunchError::PortInUse => {
                let mut r = String::from_str("Port ");
                push_decimal(&mut r, VLC_HTTP_PORT as u64);
                r.append(" is already in use \u{2014} another VLC instance or process may be running");
                r
            },
            LaunchError::SpawnFailed(reason) => {
                let mut r = String::from_str("Failed to launch VLC: ");
                r.append(reason.as_str());
                r
            },
            LaunchError::StderrNotCaptured => String::from_str("Failed to capture VLC stderr"),
        }
    }
}

/// Checks a launch request before anything is started. `ip_is_valid` says
/// whether `chromecast_ip` parses as an IP address, and `video_file_exists`
/// whether the video file is on disk. Returns VLC's arguments, or the first
/// check that failed.
pub fn check_launch_request(
    vlc_path: &str,
    video_file: &str,
    chromecast_ip: &str,
    ip_is_valid: bool,
    video_file_exists: bool,
) -> (r: Result<Vec<String>, LaunchError>)
    ensures
        vlc_path@.len() == 0 ==> r matches Err(LaunchError::VlcPathNotSet),
        vlc_path@.len() > 0 && video_file@.len() == 0 ==> r matches Err(
            LaunchError::NoVideoFile,
        ),
        vlc_path@.len() > 0 && video_file@.len() > 0 && chromecast_ip@.len() == 0 ==> r matches Err(
            LaunchError::ChromecastIpNotSet,
        ),
        vlc_path@.len() > 0 && video_file@.len() > 0 && chromecast_ip@.len() > 0 && !ip_is_valid
            ==> (r matches Err(LaunchError::InvalidChromecastIp(ip)) && ip@ == chromecast_ip@),
        vlc_path@.len() > 0 && video_file@.len() > 0 && chromecast_ip@.len() > 0 && ip_is_valid
            && !video_file_exists ==> (r matches Err(LaunchError::VideoFileNotFound(f)) && f@
            == video_file@),
        vlc_path@.len() > 0 && video_file@.len() > 0 && chromecast_ip@.len() > 0 && ip_is_valid
            && video_file_exists ==> (r matches Ok(args) && views(args@) == vlc_args(
            video_file@,
            chromecast_ip@,
        )),
{
    if vlc_path.is_empty() {
        return Err(LaunchError::VlcPathNotSet);
    }
    if video_file.is_empty() {
        return Err(LaunchError::NoVideoFile);
    }
    if chromecast_ip.is_empty() {
        return Err(LaunchError::ChromecastIpNotSet);
    }
    if !ip_is_valid {
        return Err(LaunchError::InvalidChromecastIp(String::from_str(chromecast_ip)));
    }
    if !video_file_exists {
        return Err(LaunchError::VideoFileNotFound(String::from_str(video_file)));
    }
    Ok(build_vlc_args(video_file, chromecast_ip))
}

} // verus!
