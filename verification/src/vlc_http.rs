//! What is said to VLC: the command line that starts it streaming to a
//! Chromecast, and the requests sent to its HTTP control interface.

use vstd::prelude::*;
use crate::clock::{decimal, push_decimal};
use crate::text::{chars_of, find_from, first_match_from};

verus! {

broadcast use vstd::string::group_string_axioms;

/// Port of VLC's HTTP control interface.
pub const VLC_HTTP_PORT: u16 = 54212;

/// Password of VLC's HTTP control interface.
pub open spec fn http_password() -> Seq<char> {
    "vlc2cc"@
}

/// Value of the `Authorization: Basic` header: the Base64 text of an empty
/// user name, a colon and the password.
pub open spec fn auth_header() -> Seq<char> {
    "OnZsYzJjYw=="@
}

/// The Base64 alphabet.
pub open spec fn base64_alphabet() -> Seq<char> {
    "ABCDEFGHIJKLMNOPQRSTUVWXYZabcdefghijklmnopqrstuvwxyz0123456789+/"@
}

/// Standard Base64 encoding, with `=` padding.
pub open spec fn base64(b: Seq<u8>) -> Seq<char>
    decreases b.len(),
{
    let a = base64_alphabet();
    if b.len() == 0 {
        seq![]
    } else {
        let b0 = b[0] as int;
        let b1 = if b.len() > 1 { b[1] as int } else { 0 };
        let b2 = if b.len() > 2 { b[2] as int } else { 0 };
        if b.len() == 1 {
            seq![a[b0 / 4], a[(b0 % 4) * 16], '=', '=']
        } else if b.len() == 2 {
            seq![a[b0 / 4], a[(b0 % 4) * 16 + b1 / 16], a[(b1 % 16) * 4], '=']
        } else {
            seq![a[b0 / 4], a[(b0 % 4) * 16 + b1 / 16], a[(b1 % 16) * 4 + b2 / 64], a[b2 % 64]]
                + base64(b.skip(3))
        }
    }
}

/// The bytes of an ASCII text.
pub open spec fn ascii_bytes(s: Seq<char>) -> Seq<u8> {
    s.map_values(|c: char| c as u8)
}

/// The authorization header is the Base64 text of `":" + password`, the
/// credentials of an empty user name.
pub proof fn lemma_auth_header_is_base64_of_credentials()
    ensures
        auth_header() == base64(ascii_bytes(seq![':'] + http_password())),
{
    reveal_strlit("vlc2cc");
    reveal_strlit("OnZsYzJjYw==");
    reveal_strlit("ABCDEFGHIJKLMNOPQRSTUVWXYZabcdefghijklmnopqrstuvwxyz0123456789+/");
    let creds = seq![':'] + http_password();
    assert(creds =~= seq![':', 'v', 'l', 'c', '2', 'c', 'c']);
    let bytes = ascii_bytes(creds);
    assert(bytes =~= seq![58u8, 118u8, 108u8, 99u8, 50u8, 99u8, 99u8]);
    let a = base64_alphabet();
    assert(a[14] == 'O' && a[39] == 'n' && a[25] == 'Z' && a[44] == 's' && a[24] == 'Y' && a[51]
        == 'z' && a[9] == 'J' && a[35] == 'j' && a[48] == 'w');
    assert(bytes.skip(3) =~= seq![99u8, 50u8, 99u8, 99u8]);
    assert(bytes.skip(3).skip(3) =~= seq![99u8]);
    reveal_with_fuel(base64, 4);
    assert(base64(bytes.skip(3).skip(3)) =~= seq!['Y', 'w', '=', '=']);
    assert(base64(bytes.skip(3)) =~= seq!['Y', 'z', 'J', 'j', 'Y', 'w', '=', '=']);
    assert(base64(bytes) =~= seq!['O', 'n', 'Z', 's', 'Y', 'z', 'J', 'j', 'Y', 'w', '=', '=']);
    assert(auth_header() =~= seq!['O', 'n', 'Z', 's', 'Y', 'z', 'J', 'j', 'Y', 'w', '=', '=']);
}

/// The arguments VLC is started with: the video file, Chromecast output to
/// the given address, a dummy interface and the HTTP control interface on
/// `localhost`.
pub open spec fn vlc_args(video_file: Seq<char>, chromecast_ip: Seq<char>) -> Seq<Seq<char>> {
    seq![
        video_file,
        "--sout=#chromecast"@,
        "--sout-chromecast-ip="@ + chromecast_ip,
        "--demux-filter=cc_demux"@,
        "--intf"@,
        "dummy"@,
        "--extraintf"@,
        "http"@,
        "--http-host"@,
        "localhost"@,
        "--http-port"@,
        decimal(VLC_HTTP_PORT as nat),
        "--http-password"@,
        http_password(),
    ]
}

/// The views of a list of strings.
pub open spec fn views(v: Seq<String>) -> Seq<Seq<char>> {
    v.map_values(|a: String| a@)
}

/// Builds the VLC command arguments for Chromecast streaming: VLC runs
/// headless with an HTTP interface for status polling.
pub fn build_vlc_args(video_file: &str, chromecast_ip: &str) -> (r: Vec<String>)
    ensures
        views(r@) == vlc_args(video_file@, chromecast_ip@),
        r@.len() == 14,
        r@[0]@ == video_file@,
        r@[2]@ == "--sout-chromecast-ip="@ + chromecast_ip@,
{
    let mut r: Vec<String> = Vec::new();
    r.push(String::from_str(video_file));
    r.push(String::from_str("--sout=#chromecast"));
    let mut ip_arg = String::from_str("--sout-chromecast-ip=");
    ip_arg.append(chromecast_ip);
    r.push(ip_arg);
    r.push(String::from_str("--demux-filter=cc_demux"));
    r.push(String::from_str("--intf"));
    r.push(String::from_str("dummy"));
    r.push(String::from_str("--extraintf"));
    r.push(String::from_str("http"));
    r.push(String::from_str("--http-host"));
    r.push(String::from_str("localhost"));
    r.push(String::from_str("--http-port"));
    let mut port = String::new();
    push_decimal(&mut port, VLC_HTTP_PORT as u64);
    r.push(port);
    r.push(String::from_str("--http-password"));
    r.push(String::from_str("vlc2cc"));
    proof {
        assert(Seq::<char>::empty() + decimal(VLC_HTTP_PORT as nat) =~= decimal(
            VLC_HTTP_PORT as nat,
        ));
        assert(views(r@) =~= vlc_args(video_file@, chromecast_ip@));
    }
    r
}

/// A command of VLC's HTTP interface.
#[derive(Clone, Copy, Debug, PartialEq, Eq, Structural)]
pub enum VlcCommand {
    /// Toggle pause/resume.
    Pause,
    /// Stop the stream.
    Stop,
    /// Jump to a position, in whole seconds.
    Seek(u64),
}

/// The `command=` query value of a command.
pub open spec fn command_query(c: VlcCommand) -> Seq<char> {
    match c {
        VlcCommand::Pause => "pl_pause"@,
        VlcCommand::Stop => "pl_stop"@,
        VlcCommand::Seek(secs) => "seek&val="@ + decimal(secs as nat),
    }
}

/// The HTTP/1.0 request that sends a command to VLC.
pub open spec fn command_request_text(c: VlcCommand) -> Seq<char> {
    "GET /requests/status.json?command="@ + command_query(c) + " HTTP/1.0\r\nAuthorization: Basic "@
        + auth_header() + "\r\n\r\n"@
}

/// The HTTP/1.0 request that asks VLC for its playback status.
pub open spec fn status_request_text() -> Seq<char> {
    "GET /requests/status.json HTTP/1.0\r\nAuthorization: Basic "@ + auth_header() + "\r\n\r\n"@
}

/// The command that toggles pause/resume on the current stream.
pub fn toggle_pause() -> (c: VlcCommand)
    ensures
        c == VlcCommand::Pause,
{
    VlcCommand::Pause
}

/// The command that seeks to a position, given in whole seconds.
pub fn seek(seconds: u64) -> (c: VlcCommand)
    ensures
        c == VlcCommand::Seek(seconds),
{
    VlcCommand::Seek(seconds)
}

/// The `command=` query value of `c`.
pub fn command_query_text(c: VlcCommand) -> (r: String)
    ensures
        r@ == command_query(c),
{
    match c {
        VlcCommand::Pause => String::from_str("pl_pause"),
        VlcCommand::Stop => String::from_str("pl_stop"),
        VlcCommand::Seek(secs) => {
            let mut r = String::from_str("seek&val=");
            push_decimal(&mut r, secs);
            r
        },
    }
}

/// The request that sends `c` to VLC's HTTP interface.
pub fn command_request(c: VlcCommand) -> (r: String)
    ensures
        r@ == command_request_text(c),
{
    let mut r = String::from_str("GET /requests/status.json?command=");
    let q = command_query_text(c);
    r.append(q.as_str());
    r.append(" HTTP/1.0\r\nAuthorization: Basic ");
    r.append("OnZsYzJjYw==");
    r.append("\r\n\r\n");
    r
}

/// The request that asks VLC's HTTP interface for the playback status.
pub fn status_request() -> (r: String)
    ensures
        r@ == status_request_text(),
{
    let mut r = String::from_str("GET /requests/status.json HTTP/1.0\r\nAuthorization: Basic ");
    r.append("OnZsYzJjYw==");
    r.append("\r\n\r\n");
    r
}

/// The separator between the head and the body of an HTTP message.
pub open spec fn blank_line() -> Seq<char> {
    seq!['\r', '\n', '\r', '\n']
}

/// The second piece of `response` split at blank lines: the text after the
/// first blank line, up to the next one if there is one.
pub open spec fn http_body_text(response: Seq<char>) -> Option<Seq<char>> {
    match first_match_from(response, blank_line(), 0) {
        None => None,
        Some(i) => match first_match_from(response, blank_line(), i + 4) {
            None => Some(response.subrange((i + 4) as int, response.len() as int)),
            Some(j) => Some(response.subrange((i + 4) as int, j as int)),
        },
    }
}

/// The body is a piece of the split: it follows the first blank line and
/// holds no blank line itself.
pub proof fn lemma_http_body_is_piece(response: Seq<char>)
    ensures
        http_body_text(response) matches Some(b) ==> (forall|p: int|
            !crate::text::occurs_at(b, blank_line(), p)),
        http_body_text(response) is None <==> (forall|p: int|
            !crate::text::occurs_at(response, blank_line(), p)),
{
    crate::text::lemma_first_match_from(response, blank_line(), 0);
    if let Some(i) = first_match_from(response, blank_line(), 0) {
        let st = (i + 4) as nat;
        crate::text::lemma_first_match_from(response, blank_line(), st);
        let end: int = match first_match_from(response, blank_line(), st) {
            Some(j) => j as int,
            None => response.len() as int,
        };
        let b = response.subrange(st as int, end);
        assert forall|p: int| !crate::text::occurs_at(b, blank_line(), p) by {
            if crate::text::occurs_at(b, blank_line(), p) {
                assert(response.subrange(st + p, st + p + 4) =~= b.subrange(p, p + 4));
                assert(crate::text::occurs_at(response, blank_line(), st + p));
            }
        }
    }
}

/// The body of an HTTP response: the second piece when the response is
/// split at `"\r\n\r\n"`, or `None` when it holds no such separator.
pub fn http_body(response: &str) -> (r: Option<String>)
    ensures
        r matches Some(b) ==> http_body_text(response@) == Some(b@),
        r is None ==> http_body_text(response@) is None,
{
    proof {
        reveal_strlit("\r\n\r\n");
    }
    let s = chars_of(response);
    let sep = chars_of("\r\n\r\n");
    assert(sep@ =~= blank_line());
    match find_from(&s, &sep, 0) {
        None => None,
        Some(i) => {
            proof {
                crate::text::lemma_first_match_from(s@, sep@, 0);
                assert(i + 4 <= s@.len());
                assert(s@.len() == s.len());
            }
            let start = i + 4;
            let end = match find_from(&s, &sep, start) {
                None => s.len(),
                Some(j) => {
                    proof {
                        crate::text::lemma_first_match_from(s@, sep@, start as nat);
                    }
                    j
                },
            };
            let body = response.substring_char(start, end);
            Some(String::from_str(body))
        },
    }
}

/// The shape of VLC's argument list: fourteen arguments; the first is the
/// video file exactly as given; the output goes to the Chromecast at the
/// given address; the HTTP interface listens on `localhost` at port 54212
/// with the password `vlc2cc`.
pub proof fn lemma_vlc_args_shape(video_file: Seq<char>, chromecast_ip: Seq<char>)
    ensures
        vlc_args(video_file, chromecast_ip).len() == 14,
        vlc_args(video_file, chromecast_ip)[0] == video_file,
        vlc_args(video_file, chromecast_ip)[1] == "--sout=#chromecast"@,
        vlc_args(video_file, chromecast_ip)[2] == "--sout-chromecast-ip="@ + chromecast_ip,
        vlc_args(video_file, chromecast_ip)[4] == "--intf"@,
        vlc_args(video_file, chromecast_ip)[5] == "dummy"@,
        vlc_args(video_file, chromecast_ip)[6] == "--extraintf"@,
        vlc_args(video_file, chromecast_ip)[7] == "http"@,
        vlc_args(video_file, chromecast_ip)[9] == "localhost"@,
        vlc_args(video_file, chromecast_ip)[10] == "--http-port"@,
        crate::clock::digits_value(vlc_args(video_file, chromecast_ip)[11]) == 54212,
        vlc_args(video_file, chromecast_ip)[13] == "vlc2cc"@,
{
    crate::clock::lemma_decimal_faithful(54212);
}

/// The commands' query texts: `pl_pause`, `pl_stop`, and for a seek
/// `seek&val=` followed by decimal digits that read back as the requested
/// number of seconds.
pub proof fn lemma_command_queries(secs: u64)
    ensures
        command_query(VlcCommand::Pause) == "pl_pause"@,
        command_query(VlcCommand::Stop) == "pl_stop"@,
        command_query(VlcCommand::Seek(secs)).len() > 9,
        command_query(VlcCommand::Seek(secs)).subrange(0, 9) == "seek&val="@,
        crate::clock::digits_value(command_query(VlcCommand::Seek(secs)).skip(9)) == secs,
        forall|i: int|
            9 <= i < command_query(VlcCommand::Seek(secs)).len() ==> crate::clock::is_digit(
                #[trigger] command_query(VlcCommand::Seek(secs))[i],
            ),
{
    reveal_strlit("seek&val=");
    crate::clock::lemma_decimal_faithful(secs as nat);
    let q = command_query(VlcCommand::Seek(secs));
    let d = decimal(secs as nat);
    assert(q.subrange(0, 9) =~= "seek&val="@);
    assert(q.skip(9) =~= d);
    assert forall|i: int| 9 <= i < q.len() implies crate::clock::is_digit(#[trigger] q[i]) by {
        assert(q[i] == d[i - 9]);
    }
}

} // verus!
