//! The player commands: the JavaScript that drives YT Music's player element,
//! and the mapping of the local control server's paths (and of the OS media
//! keys) to those commands.
use vstd::prelude::*;
use vstd::string::*;

use crate::number::{parse_i32, parse_i32_spec};
use crate::text::{after_first, before_first, first_index, decimal, has_prefix, push_decimal, split_first, str_eq, strip_prefix};

verus! {

// ---------------------------------------------------------------------------
// The scripts
// ---------------------------------------------------------------------------

/// The script that calls the player's method `method`, if the player is on
/// the page and has that method.
pub open spec fn player_js_spec(method: Seq<char>) -> Seq<char> {
    "(function(){var p=document.querySelector('#movie_player');if(p&&p."@ + method + ")p."@
        + method + "();})()"@
}

/// The script that sets the player's volume to the value of the JavaScript
/// expression `expr`.
pub open spec fn set_volume_js_spec(expr: Seq<char>) -> Seq<char> {
    "(function(){var p=document.querySelector('#movie_player');if(p&&p.setVolume)p.setVolume("@
        + expr + ");})()"@
}

/// The script that pauses the player when it is playing and plays it
/// otherwise.
pub open spec fn play_pause_js_spec() -> Seq<char> {
    "(function(){var p=document.querySelector('#movie_player');if(p){p.getPlayerState()===1?p.pauseVideo():p.playVideo();}})()"@
}

/// The script that calls the player's method `method`.
pub fn player_js(method: &str) -> (js: String)
    ensures
        js@ == player_js_spec(method@),
{
    let mut js = String::from_str("(function(){var p=document.querySelector('#movie_player');if(p&&p.");
    js.append(method);
    js.append(")p.");
    js.append(method);
    js.append("();})()");
    js
}

/// The script that sets the player's volume to `expr`.
pub fn set_volume_js(expr: &str) -> (js: String)
    ensures
        js@ == set_volume_js_spec(expr@),
{
    let mut js = String::from_str(
        "(function(){var p=document.querySelector('#movie_player');if(p&&p.setVolume)p.setVolume(",
    );
    js.append(expr);
    js.append(");})()");
    js
}

/// The script that toggles between playing and pausing.
pub fn play_pause_js() -> (js: String)
    ensures
        js@ == play_pause_js_spec(),
        js@ == "(function(){var p=document.querySelector('#movie_player');if(p){"@
            + "p.getPlayerState()===1?"@ + method_call("pauseVideo"@) + ":"@ + method_call(
            "playVideo"@,
        ) + ";}})()"@,
{
    proof {
        law_toggle_pauses_a_playing_player(Seq::<char>::empty());
    }
    String::from_str(
        "(function(){var p=document.querySelector('#movie_player');if(p){p.getPlayerState()===1?p.pauseVideo():p.playVideo();}})()",
    )
}

// ---------------------------------------------------------------------------
// The control server's paths
// ---------------------------------------------------------------------------

/// The text of the first `v=` piece of a query (pieces separated by `&`),
/// without the `v=`.
pub open spec fn volume_arg(query: Seq<char>) -> Option<Seq<char>>
    decreases query.len(),
{
    let piece = before_first(query, '&');
    if has_prefix(piece, "v="@) {
        Some(piece.skip("v="@.len() as int))
    } else {
        match after_first(query, '&') {
            Some(rest) => if rest.len() < query.len() {
                volume_arg(rest)
            } else {
                None
            },
            None => None,
        }
    }
}

/// A volume held to the player's range 0..=100.
pub open spec fn clamp_volume(v: int) -> nat {
    if v < 0 {
        0
    } else if v > 100 {
        100
    } else {
        v as nat
    }
}

/// The query of a URL: the text after its first `?` and before the next one.
pub open spec fn url_query(url: Seq<char>) -> Option<Seq<char>> {
    match after_first(url, '?') {
        Some(rest) => Some(before_first(rest, '?')),
        None => None,
    }
}

/// The volume that a `/volume` request asks for: its `v` parameter read as
/// an `i32` and held to 0..=100.
pub open spec fn requested_volume(url: Seq<char>) -> Option<nat> {
    match url_query(url) {
        Some(q) => match volume_arg(q) {
            Some(text) => match parse_i32_spec(text) {
                Some(v) => Some(clamp_volume(v as int)),
                None => None,
            },
            None => None,
        },
        None => None,
    }
}

/// The script that a request to the control server runs, by the path of
/// its URL (the text before the first `?`); `None` for a path that names
/// no command, or a `/volume` request without a usable `v`.
pub open spec fn route_spec(url: Seq<char>) -> Option<Seq<char>> {
    let path = before_first(url, '?');
    if path == "/playpause"@ {
        Some(play_pause_js_spec())
    } else if path == "/play"@ {
        Some(player_js_spec("playVideo"@))
    } else if path == "/pause"@ {
        Some(player_js_spec("pauseVideo"@))
    } else if path == "/next"@ {
        Some(player_js_spec("nextVideo"@))
    } else if path == "/prev"@ || path == "/previous"@ {
        Some(player_js_spec("previousVideo"@))
    } else if path == "/volup"@ {
        Some(set_volume_js_spec("Math.min(100,(p.getVolume()||0)+5)"@))
    } else if path == "/voldown"@ {
        Some(set_volume_js_spec("Math.max(0,(p.getVolume()||0)-5)"@))
    } else if path == "/volume"@ {
        match requested_volume(url) {
            Some(v) => Some(
                set_volume_js_spec("Math.max(0,Math.min(100,"@ + decimal(v) + "))"@),
            ),
            None => None,
        }
    } else {
        None
    }
}

/// Finds the first `v=` piece of a query.
fn find_volume_arg<'a>(query: &'a str) -> (r: Option<&'a str>)
    ensures
        match r {
            Some(t) => volume_arg(query@) == Some(t@),
            None => volume_arg(query@) is None,
        },
    decreases query@.len(),
{
    let (piece, rest) = split_first(query, '&');
    match strip_prefix(piece, "v=") {
        Some(value) => Some(value),
        None => match rest {
            Some(rest) => {
                proof {
                    crate::text::lemma_first_index(query@, '&');
                }
                assert(rest@.len() < query@.len());
                find_volume_arg(rest)
            },
            None => None,
        },
    }
}

/// The volume that a `/volume` request asks for.
fn volume_of(url: &str) -> (r: Option<u64>)
    ensures
        match r {
            Some(v) => requested_volume(url@) == Some(v as nat),
            None => requested_volume(url@) is None,
        },
{
    let (_, rest) = split_first(url, '?');
    let rest = match rest {
        Some(rest) => rest,
        None => {
            return None;
        },
    };
    let (query, _) = split_first(rest, '?');
    let text = match find_volume_arg(query) {
        Some(t) => t,
        None => {
            return None;
        },
    };
    match parse_i32(text) {
        Some(v) => {
            if v < 0 {
                Some(0)
            } else if v > 100 {
                Some(100)
            } else {
                Some(v as u64)
            }
        },
        None => None,
    }
}

/// The script for a request to the local control server.
pub fn route_js(url: &str) -> (js: Option<String>)
    ensures
        match js {
            Some(s) => route_spec(url@) == Some(s@),
            None => route_spec(url@) is None,
        },
{
    let (path, _) = split_first(url, '?');
    if str_eq(path, "/playpause") {
        Some(play_pause_js())
    } else if str_eq(path, "/play") {
        Some(player_js("playVideo"))
    } else if str_eq(path, "/pause") {
        Some(player_js("pauseVideo"))
    } else if str_eq(path, "/next") {
        Some(player_js("nextVideo"))
    } else if str_eq(path, "/prev") || str_eq(path, "/previous") {
        Some(player_js("previousVideo"))
    } else if str_eq(path, "/volup") {
        Some(set_volume_js("Math.min(100,(p.getVolume()||0)+5)"))
    } else if str_eq(path, "/voldown") {
        Some(set_volume_js("Math.max(0,(p.getVolume()||0)-5)"))
    } else if str_eq(path, "/volume") {
        match volume_of(url) {
            Some(v) => {
                let mut expr = String::from_str("Math.max(0,Math.min(100,");
                push_decimal(&mut expr, v);
                expr.append("))");
                Some(set_volume_js(expr.as_str()))
            },
            None => None,
        }
    } else {
        None
    }
}

/// Cutting a text at its first `c` twice cuts nothing more.
proof fn lemma_before_first_again(s: Seq<char>, c: char)
    ensures
        before_first(before_first(s, c), c) == before_first(s, c),
{
    crate::text::lemma_first_index(s, c);
    let t = before_first(s, c);
    crate::text::lemma_first_index(t, c);
    if first_index(t, c) is Some {
        let k = first_index(t, c)->0;
        match first_index(s, c) {
            Some(i) => {
                assert(t[k as int] == s[k as int]);
            },
            None => {},
        }
    }
}

/// Only `/volume` reads the query: a URL with any other path routes as its
/// path alone does.
pub proof fn law_query_only_for_volume(url: Seq<char>)
    requires
        before_first(url, '?') != "/volume"@,
    ensures
        route_spec(url) == route_spec(before_first(url, '?')),
{
    lemma_before_first_again(url, '?');
}

/// The volume that a `/volume` request sets is always within 0..=100.
pub proof fn law_volume_in_range(url: Seq<char>)
    ensures
        requested_volume(url) matches Some(v) ==> v <= 100,
{
}

/// A call of the player's method `method`.
pub open spec fn method_call(method: Seq<char>) -> Seq<char> {
    "p."@ + method + "()"@
}

/// The play/pause toggle (the `/playpause` path and the Toggle media key)
/// asks the player for its state and, when it is playing (state 1), calls
/// the method that the Pause key calls; otherwise the one that the Play key
/// calls. So a playing player is paused and any other is played.
pub proof fn law_toggle_pauses_a_playing_player(url: Seq<char>)
    ensures
        play_pause_js_spec() == "(function(){var p=document.querySelector('#movie_player');if(p){"@
            + "p.getPlayerState()===1?"@ + method_call("pauseVideo"@) + ":"@ + method_call(
            "playVideo"@,
        ) + ";}})()"@,
        media_event_spec(ControlEvent::Pause) == Some(player_js_spec("pauseVideo"@)),
        media_event_spec(ControlEvent::Play) == Some(player_js_spec("playVideo"@)),
        media_event_spec(ControlEvent::Toggle) == Some(play_pause_js_spec()),
        before_first(url, '?') == "/playpause"@ ==> route_spec(url) == Some(play_pause_js_spec()),
{
    reveal_strlit("(function(){var p=document.querySelector('#movie_player');if(p){p.getPlayerState()===1?p.pauseVideo():p.playVideo();}})()");
    reveal_strlit("(function(){var p=document.querySelector('#movie_player');if(p){");
    reveal_strlit("p.getPlayerState()===1?");
    reveal_strlit("p.");
    reveal_strlit("()");
    reveal_strlit("pauseVideo");
    reveal_strlit("playVideo");
    reveal_strlit(":");
    reveal_strlit(";}})()");
    assert(play_pause_js_spec() =~= "(function(){var p=document.querySelector('#movie_player');if(p){"@
        + "p.getPlayerState()===1?"@ + method_call("pauseVideo"@) + ":"@ + method_call("playVideo"@)
        + ";}})()"@);
}

// ---------------------------------------------------------------------------
// The OS media keys
// ---------------------------------------------------------------------------

/// A media control event of the operating system's media session.
#[derive(Clone, Copy, PartialEq, Eq, Structural, Debug)]
pub enum ControlEvent {
    Play,
    Pause,
    Toggle,
    Next,
    Previous,
    Stop,
    /// Seeking, volume, opening a URI, raising or quitting: not handled.
    Other,
}

/// The script that a media control event runs, if any.
pub open spec fn media_event_spec(event: ControlEvent) -> Option<Seq<char>> {
    match event {
        ControlEvent::Play => Some(player_js_spec("playVideo"@)),
        ControlEvent::Pause | ControlEvent::Stop => Some(player_js_spec("pauseVideo"@)),
        ControlEvent::Next => Some(player_js_spec("nextVideo"@)),
        ControlEvent::Previous => Some(player_js_spec("previousVideo"@)),
        ControlEvent::Toggle => Some(play_pause_js_spec()),
        ControlEvent::Other => None,
    }
}

/// The script for a media key or a button of the OS media flyout.
pub fn media_event_js(event: ControlEvent) -> (js: Option<String>)
    ensures
        match js {
            Some(s) => media_event_spec(event) == Some(s@),
            None => media_event_spec(event) is None,
        },
{
    match event {
        ControlEvent::Play => Some(player_js("playVideo")),
        ControlEvent::Pause | ControlEvent::Stop => Some(player_js("pauseVideo")),
        ControlEvent::Next => Some(player_js("nextVideo")),
        ControlEvent::Previous => Some(player_js("previousVideo")),
        ControlEvent::Toggle => Some(play_pause_js()),
        ControlEvent::Other => None,
    }
}

} // verus!
