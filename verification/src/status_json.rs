//! Reading VLC's status reply: the body of the HTTP response is a JSON
//! document, and its `state` member says whether VLC is playing or stopped.

use vstd::prelude::*;
use crate::playback_monitor::{PlayerStatus, player_status, status_of};
use crate::vlc_http::{http_body, http_body_text};

verus! {

/// What `serde_json` makes of a text as VLC's status document: `None` when
/// it is not JSON, otherwise the `state` member when it is a string.
pub uninterp spec fn json_state(body: Seq<char>) -> Option<Option<Seq<char>>>;

/// `serde_json::from_str::<serde_json::Value>` on `body`, then the `state`
/// member read with `as_str`. The contract claims only that the result is
/// a function of the text: `None` where the text does not parse, otherwise
/// the member's string if it is one. What JSON serde_json accepts is left
/// unsaid.
#[verifier::external_body]
fn parse_state(body: &str) -> (r: Option<Option<String>>)
    ensures
        match r {
            None => json_state(body@) is None,
            Some(None) => json_state(body@) == Some(None::<Seq<char>>),
            Some(Some(s)) => json_state(body@) == Some(Some(s@)),
        },
{
    serde_json::from_str::<serde_json::Value>(body).ok().map(
        |j| j["state"].as_str().map(|s| s.to_string()),
    )
}

/// The player status a status reply carries: none when the reply has no
/// body or the body is not JSON; otherwise playing and stopped as its
/// `state` says, with `has_duration` for whether its `length` is positive.
pub open spec fn reply_status(response: Seq<char>, has_duration: bool) -> Option<PlayerStatus> {
    match http_body_text(response) {
        None => None,
        Some(b) => match json_state(b) {
            None => None,
            Some(st) => Some(status_of(st, has_duration)),
        },
    }
}

/// Reads the player status out of VLC's reply to a status request.
pub fn status_from_response(response: &str, has_duration: bool) -> (r: Option<PlayerStatus>)
    ensures
        r == reply_status(response@, has_duration),
{
    let body = match http_body(response) {
        None => return None,
        Some(b) => b,
    };
    match parse_state(body.as_str()) {
        None => None,
        Some(None) => Some(player_status(None, has_duration)),
        Some(Some(st)) => Some(player_status(Some(st.as_str()), has_duration)),
    }
}

/// What a status reply says, in terms of its body and what serde_json reads
/// from it: no status without a body or when the body is not JSON;
/// otherwise playing exactly when the `state` member is the string
/// `"playing"`, finished exactly when it is `"stopped"`, and the length flag
/// as given.
pub proof fn lemma_reply_status(response: Seq<char>, has_duration: bool)
    ensures
        http_body_text(response) is None ==> reply_status(response, has_duration) is None,
        http_body_text(response) is Some && json_state(http_body_text(response)->0) is None
            ==> reply_status(response, has_duration) is None,
        http_body_text(response) is Some && json_state(http_body_text(response)->0) is Some
            ==> reply_status(response, has_duration) is Some,
        http_body_text(response) is Some && json_state(http_body_text(response)->0) is Some
            ==> (reply_status(response, has_duration)->0.is_playing <==> json_state(
            http_body_text(response)->0,
        )->0 == Some("playing"@)),
        http_body_text(response) is Some && json_state(http_body_text(response)->0) is Some
            ==> (reply_status(response, has_duration)->0.finished <==> json_state(
            http_body_text(response)->0,
        )->0 == Some("stopped"@)),
        http_body_text(response) is Some && json_state(http_body_text(response)->0) is Some
            ==> reply_status(response, has_duration)->0.has_duration == has_duration,
{
}

} // verus!
