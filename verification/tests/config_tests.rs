use vlc2chromecast::config::{default_vlc_path, default_vlc_path_for, Config};

#[test]
fn default_config_has_empty_ip() {
    let config = Config::default();
    assert!(config.chromecast_ip.is_empty());
    assert!(!config.vlc_path.is_empty());
}

#[test]
fn default_vlc_path_is_windows_install_or_plain_vlc() {
    let p = default_vlc_path();
    assert!(p == "vlc" || p == r"C:\Program Files\VideoLAN\VLC\vlc.exe");
    if std::path::MAIN_SEPARATOR == '\\' {
        assert_eq!(p, r"C:\Program Files\VideoLAN\VLC\vlc.exe");
    } else {
        assert_eq!(p, "vlc");
    }
}

#[test]
fn default_vlc_path_for_each_separator() {
    assert_eq!(default_vlc_path_for('\\'), r"C:\Program Files\VideoLAN\VLC\vlc.exe");
    assert_eq!(default_vlc_path_for('/'), "vlc");
}
