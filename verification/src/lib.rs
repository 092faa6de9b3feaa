//! Verified core of a small desktop tool that casts local video files to a
//! Chromecast by driving a headless VLC instance.

pub mod clock;
pub mod config;
pub mod text;
pub mod vlc_http;
pub mod launch;
pub mod stderr_log;
pub mod shutdown;
pub mod playback_monitor;
pub mod screen;
pub mod status_json;

pub use clock::{decimal_string, format_time};
