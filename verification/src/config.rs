//! The user's settings: the Chromecast's address and the path of the VLC
//! executable. Reading and writing them as JSON is done outside this crate.

use vstd::prelude::*;

verus! {

/// The saved settings.
#[derive(Debug)]
pub struct Config {
    /// Address of the Chromecast; empty until the user sets it.
    pub chromecast_ip: String,
    /// Path of the VLC executable.
    pub vlc_path: String,
}

/// Where VLC is installed by default on Windows.
pub open spec fn windows_vlc_path() -> Seq<char> {
    "C:\\Program Files\\VideoLAN\\VLC\\vlc.exe"@
}

/// The default VLC path for a platform whose path separator is `sep`: the
/// Windows install location where paths use backslashes, plain `vlc` (found
/// through the search path) elsewhere.
pub open spec fn vlc_path_for(sep: char) -> Seq<char> {
    if sep == '\\' {
        windows_vlc_path()
    } else {
        "vlc"@
    }
}

/// `std::path::MAIN_SEPARATOR`, the separator of path components on the
/// platform the program was built for. Nothing is stated of its value.
#[verifier::external_body]
fn main_separator() -> char {
    std::path::MAIN_SEPARATOR
}

/// The default path of the VLC executable for the platform the separator
/// `sep` belongs to.
pub fn default_vlc_path_for(sep: char) -> (r: String)
    ensures
        r@ == vlc_path_for(sep),
{
    if sep == '\\' {
        String::from_str("C:\\Program Files\\VideoLAN\\VLC\\vlc.exe")
    } else {
        String::from_str("vlc")
    }
}

/// The default path of the VLC executable on this platform: the Windows
/// install location on Windows, `vlc` elsewhere.
pub fn default_vlc_path() -> (r: String)
    ensures
        exists|sep: char| r@ == vlc_path_for(sep),
        r@.len() > 0,
{
    proof {
        reveal_strlit("C:\\Program Files\\VideoLAN\\VLC\\vlc.exe");
        reveal_strlit("vlc");
    }
    let sep = main_separator();
    default_vlc_path_for(sep)
}

impl Default for Config {
    /// No Chromecast address, and the platform's default VLC path.
    fn default() -> (r: Self)
        ensures
            r.chromecast_ip@.len() == 0,
            exists|sep: char| r.vlc_path@ == vlc_path_for(sep),
            r.vlc_path@.len() > 0,
    {
        Config { chromecast_ip: String::new(), vlc_path: default_vlc_path() }
    }
}

} // verus!
