//! The Last.fm client: the user's credentials, the calls that the setup and
//! the scrobbling worker make (their parameters and signed forms), and what
//! the client reads out of the replies.
use vstd::prelude::*;
use vstd::string::*;

use crate::json::{member, render, render_json, text_member, Json};
use crate::params::{insert_entry, keys_sorted, lemma_insert_sorted, lemma_lookup_insert, lookup, Entry, Params};
use crate::signature::{lemma_param_names_distinct, lemma_signed_form_lookup, lemma_signed_form_method, prepare_call, signed_form};
use crate::text::{decimal, push_decimal};

verus! {

// ---------------------------------------------------------------------------
// Credentials
// ---------------------------------------------------------------------------

/// The user's Last.fm credentials: their own API key and shared secret, and
/// the session key and user name that authorizing gave.
#[derive(Clone)]
pub struct Config {
    pub api_key: String,
    pub api_secret: String,
    pub session_key: String,
    pub username: String,
}

impl Default for Config {
    /// No credentials.
    fn default() -> (c: Config)
        ensures
            c.api_key@ == Seq::<char>::empty(),
            c.api_secret@ == Seq::<char>::empty(),
            c.session_key@ == Seq::<char>::empty(),
            c.username@ == Seq::<char>::empty(),
    {
        Config {
            api_key: String::new(),
            api_secret: String::new(),
            session_key: String::new(),
            username: String::new(),
        }
    }
}

impl Config {
    /// The credentials can sign calls for a user: key, secret and session
    /// key are all there.
    pub open spec fn connected(&self) -> bool {
        self.api_key@.len() > 0 && self.api_secret@.len() > 0 && self.session_key@.len() > 0
    }

    /// Whether the credentials can sign calls for a user.
    pub fn is_connected(&self) -> (r: bool)
        ensures
            r == self.connected(),
    {
        !self.api_key.as_str().is_empty() && !self.api_secret.as_str().is_empty()
            && !self.session_key.as_str().is_empty()
    }
}

/// The page on which the user grants this application access to a token.
pub open spec fn authorize_url_spec(api_key: Seq<char>, token: Seq<char>) -> Seq<char> {
    "https://www.last.fm/api/auth/?api_key="@ + api_key + "&token="@ + token
}

/// Builds the Last.fm page on which the user authorizes `token` for `api_key`.
pub fn authorize_url(api_key: &str, token: &str) -> (url: String)
    ensures
        url@ == authorize_url_spec(api_key@, token@),
{
    let mut url = String::from_str("https://www.last.fm/api/auth/?api_key=");
    url.append(api_key);
    url.append("&token=");
    url.append(token);
    url
}

// ---------------------------------------------------------------------------
// The calls
// ---------------------------------------------------------------------------

/// One parameter.
pub open spec fn one(name: Seq<char>, value: Seq<char>) -> Seq<Entry> {
    insert_entry(Seq::<Entry>::empty(), name, value)
}

/// The parameters of `auth.getToken`.
pub open spec fn token_params(api_key: Seq<char>) -> Seq<Entry> {
    one("api_key"@, api_key)
}

/// The parameters of `auth.getSession`.
pub open spec fn session_params(api_key: Seq<char>, token: Seq<char>) -> Seq<Entry> {
    insert_entry(one("api_key"@, api_key), "token"@, token)
}

/// The parameters that `track.updateNowPlaying` and `track.scrobble` share:
/// key, session key, artist and track, and the album when it is not empty.
pub open spec fn track_params(
    api_key: Seq<char>,
    session_key: Seq<char>,
    artist: Seq<char>,
    track: Seq<char>,
    album: Seq<char>,
) -> Seq<Entry> {
    let p = insert_entry(
        insert_entry(insert_entry(one("api_key"@, api_key), "sk"@, session_key), "artist"@, artist),
        "track"@,
        track,
    );
    if album.len() > 0 {
        insert_entry(p, "album"@, album)
    } else {
        p
    }
}

/// The parameters of `track.scrobble`: the track's, and the time at which
/// it started playing.
pub open spec fn scrobble_params(
    api_key: Seq<char>,
    session_key: Seq<char>,
    artist: Seq<char>,
    track: Seq<char>,
    album: Seq<char>,
    ts: nat,
) -> Seq<Entry> {
    let p = insert_entry(
        insert_entry(
            insert_entry(
                insert_entry(one("api_key"@, api_key), "sk"@, session_key),
                "artist"@,
                artist,
            ),
            "track"@,
            track,
        ),
        "timestamp"@,
        decimal(ts),
    );
    if album.len() > 0 {
        insert_entry(p, "album"@, album)
    } else {
        p
    }
}

/// The form that asks for a request token.
pub fn token_request(api_key: &str, secret: &str) -> (form: Params)
    ensures
        form@ == signed_form(token_params(api_key@), "auth.getToken"@, secret@),
        keys_sorted(form@),
{
    let mut p = Params::new();
    p.insert("api_key", api_key);
    prepare_call("auth.getToken", p, secret)
}

/// The form that trades an authorized token for a session.
pub fn session_request(api_key: &str, secret: &str, token: &str) -> (form: Params)
    ensures
        form@ == signed_form(session_params(api_key@, token@), "auth.getSession"@, secret@),
        keys_sorted(form@),
{
    let mut p = Params::new();
    p.insert("api_key", api_key);
    p.insert("token", token);
    prepare_call("auth.getSession", p, secret)
}

/// The form that tells Last.fm what the user is listening to now.
pub fn now_playing_request(cfg: &Config, artist: &str, track: &str, album: &str) -> (form: Params)
    ensures
        form@ == signed_form(
            track_params(cfg.api_key@, cfg.session_key@, artist@, track@, album@),
            "track.updateNowPlaying"@,
            cfg.api_secret@,
        ),
        keys_sorted(form@),
        lookup(form@, "album"@) == if album@.len() > 0 {
            Some(album@)
        } else {
            None
        },
        lookup(form@, "artist"@) == Some(artist@),
        lookup(form@, "track"@) == Some(track@),
        lookup(form@, "method"@) == Some("track.updateNowPlaying"@),
{
    proof {
        law_now_playing_form(cfg.api_key@, cfg.session_key@, artist@, track@, album@, cfg.api_secret@);
    }
    let mut p = Params::new();
    p.insert("api_key", cfg.api_key.as_str());
    p.insert("sk", cfg.session_key.as_str());
    p.insert("artist", artist);
    p.insert("track", track);
    if !album.is_empty() {
        p.insert("album", album);
    }
    prepare_call("track.updateNowPlaying", p, cfg.api_secret.as_str())
}

/// The form that scrobbles a track that started playing at `ts` (seconds
/// since the Unix epoch).
pub fn scrobble_request(cfg: &Config, artist: &str, track: &str, album: &str, ts: u64) -> (form: Params)
    ensures
        form@ == signed_form(
            scrobble_params(cfg.api_key@, cfg.session_key@, artist@, track@, album@, ts as nat),
            "track.scrobble"@,
            cfg.api_secret@,
        ),
        keys_sorted(form@),
        lookup(form@, "album"@) == if album@.len() > 0 {
            Some(album@)
        } else {
            None
        },
        lookup(form@, "artist"@) == Some(artist@),
        lookup(form@, "track"@) == Some(track@),
        lookup(form@, "timestamp"@) == Some(decimal(ts as nat)),
        lookup(form@, "method"@) == Some("track.scrobble"@),
{
    proof {
        law_scrobble_form(cfg.api_key@, cfg.session_key@, artist@, track@, album@, ts as nat, cfg.api_secret@);
    }
    let mut p = Params::new();
    p.insert("api_key", cfg.api_key.as_str());
    p.insert("sk", cfg.session_key.as_str());
    p.insert("artist", artist);
    p.insert("track", track);
    let mut stamp = String::new();
    push_decimal(&mut stamp, ts);
    p.insert("timestamp", stamp.as_str());
    if !album.is_empty() {
        p.insert("album", album);
    }
    prepare_call("track.scrobble", p, cfg.api_secret.as_str())
}

// ---------------------------------------------------------------------------
// The replies
// ---------------------------------------------------------------------------

/// The error that a reply reports, if it has an `error` member: its value
/// and the `message` member's text (empty when there is none).
pub open spec fn reply_error(reply: Json) -> Option<Seq<char>> {
    match member(reply, "error"@) {
        Some(err) => Some(
            "last.fm error "@ + render(err) + ": "@ + match text_member(reply, "message"@) {
                Some(m) => m,
                None => Seq::<char>::empty(),
            },
        ),
        None => None,
    }
}

/// Checks a reply for an error that Last.fm reports.
pub fn call_reply(reply: &Json) -> (r: Result<(), String>)
    ensures
        match r {
            Ok(()) => reply_error(*reply) is None,
            Err(e) => reply_error(*reply) == Some(e@),
        },
{
    match reply.get("error") {
        Some(err) => {
            let mut e = String::from_str("last.fm error ");
            let text = render_json(err);
            e.append(text.as_str());
            e.append(": ");
            match reply.get("message") {
                Some(m) => match m.as_str() {
                    Some(s) => e.append(s),
                    None => {},
                },
                None => {},
            }
            Err(e)
        },
        None => Ok(()),
    }
}

/// What the client makes of a reply to `auth.getToken`: the reported error,
/// else the `token` member's text.
pub open spec fn token_outcome(reply: Json) -> Result<Seq<char>, Seq<char>> {
    match reply_error(reply) {
        Some(e) => Err(e),
        None => match text_member(reply, "token"@) {
            Some(t) => Ok(t),
            None => Err("no token in response"@),
        },
    }
}

/// Reads the request token out of a reply to `auth.getToken`.
pub fn token_from_reply(reply: &Json) -> (r: Result<String, String>)
    ensures
        match r {
            Ok(t) => token_outcome(*reply) == Ok::<Seq<char>, Seq<char>>(t@),
            Err(e) => token_outcome(*reply) == Err::<Seq<char>, Seq<char>>(e@),
        },
{
    call_reply(reply)?;
    match reply.get("token") {
        Some(t) => match t.as_str() {
            Some(s) => Ok(String::from_str(s)),
            None => Err(String::from_str("no token in response")),
        },
        None => Err(String::from_str("no token in response")),
    }
}

/// What the client makes of a reply to `auth.getSession`: the reported
/// error; else, from the `session` member, the session key (required) and
/// the user name (empty when missing).
pub open spec fn session_outcome(reply: Json) -> Result<(Seq<char>, Seq<char>), Seq<char>> {
    match reply_error(reply) {
        Some(e) => Err(e),
        None => match member(reply, "session"@) {
            None => Err("no session in response"@),
            Some(sess) => match text_member(sess, "key"@) {
                None => Err("no session key"@),
                Some(key) => Ok(
                    (
                        key,
                        match text_member(sess, "name"@) {
                            Some(name) => name,
                            None => Seq::<char>::empty(),
                        },
                    ),
                ),
            },
        },
    }
}

/// Reads the session key and the user name out of a reply to
/// `auth.getSession`.
pub fn session_from_reply(reply: &Json) -> (r: Result<(String, String), String>)
    ensures
        match r {
            Ok((key, name)) => session_outcome(*reply) == Ok::<(Seq<char>, Seq<char>), Seq<char>>(
                (key@, name@),
            ),
            Err(e) => session_outcome(*reply) == Err::<(Seq<char>, Seq<char>), Seq<char>>(e@),
        },
{
    call_reply(reply)?;
    let sess = match reply.get("session") {
        Some(s) => s,
        None => {
            return Err(String::from_str("no session in response"));
        },
    };
    let key = match sess.get("key") {
        Some(k) => match k.as_str() {
            Some(k) => String::from_str(k),
            None => {
                return Err(String::from_str("no session key"));
            },
        },
        None => {
            return Err(String::from_str("no session key"));
        },
    };
    let name = match sess.get("name") {
        Some(n) => match n.as_str() {
            Some(n) => String::from_str(n),
            None => String::new(),
        },
        None => String::new(),
    };
    Ok((key, name))
}

// ---------------------------------------------------------------------------
// The scrobbling worker
// ---------------------------------------------------------------------------

/// A message to the scrobbling worker.
pub enum Msg {
    /// A track started playing.
    NowPlaying { artist: String, track: String, album: String },
    /// A track has played long enough to count; it started at `ts`.
    Scrobble { artist: String, track: String, album: String, ts: u64 },
    /// The credentials on disk changed (the user finished the setup).
    Reload,
}

/// What the worker does with one message.
pub enum WorkerAction {
    /// Read the credentials again.
    Reload,
    /// Post this form to the web API (the reply is not used).
    Post(Params),
    /// Nothing: the credentials cannot sign calls.
    Skip,
}

/// The form that the worker posts for a message under the credentials
/// `cfg`: for a track, its call when the credentials are connected; nothing
/// otherwise, and nothing for `Reload`.
pub open spec fn track_form(cfg: Config, msg: Msg) -> Option<Seq<Entry>> {
    match msg {
        Msg::Reload => None,
        Msg::NowPlaying { artist, track, album } => if cfg.connected() {
            Some(
                signed_form(
                    track_params(cfg.api_key@, cfg.session_key@, artist@, track@, album@),
                    "track.updateNowPlaying"@,
                    cfg.api_secret@,
                ),
            )
        } else {
            None
        },
        Msg::Scrobble { artist, track, album, ts } => if cfg.connected() {
            Some(
                signed_form(
                    scrobble_params(cfg.api_key@, cfg.session_key@, artist@, track@, album@, ts as nat),
                    "track.scrobble"@,
                    cfg.api_secret@,
                ),
            )
        } else {
            None
        },
    }
}

/// The worker's handling of a message under the credentials `cfg`: reload
/// on `Reload`; for a track, post its call when the credentials are
/// connected and do nothing otherwise.
pub fn worker_step(cfg: &Config, msg: &Msg) -> (action: WorkerAction)
    ensures
        msg is Reload ==> action is Reload,
        !(msg is Reload) ==> match track_form(*cfg, *msg) {
            Some(f) => action matches WorkerAction::Post(form) && form@ == f && keys_sorted(form@),
            None => action is Skip,
        },
        cfg.connected() ==> match *msg {
            Msg::NowPlaying { artist, track, album } => action matches WorkerAction::Post(form)
                && lookup(form@, "album"@) == (if album@.len() > 0 {
                Some(album@)
            } else {
                None
            }) && lookup(form@, "artist"@) == Some(artist@) && lookup(form@, "track"@) == Some(
                track@,
            ) && lookup(form@, "method"@) == Some("track.updateNowPlaying"@),
            Msg::Scrobble { artist, track, album, ts } => action matches WorkerAction::Post(form)
                && lookup(form@, "album"@) == (if album@.len() > 0 {
                Some(album@)
            } else {
                None
            }) && lookup(form@, "artist"@) == Some(artist@) && lookup(form@, "track"@) == Some(
                track@,
            ) && lookup(form@, "timestamp"@) == Some(decimal(ts as nat)) && lookup(form@, "method"@)
                == Some("track.scrobble"@),
            Msg::Reload => true,
        },
        !cfg.connected() ==> (action is Reload || action is Skip),
{
    proof {
        if cfg.connected() && !(msg is Reload) {
            law_worker_posts_message_fields(*cfg, *msg);
        }
    }
    match msg {
        Msg::Reload => WorkerAction::Reload,
        Msg::NowPlaying { artist, track, album } => {
            if cfg.is_connected() {
                WorkerAction::Post(now_playing_request(cfg, artist.as_str(), track.as_str(), album.as_str()))
            } else {
                WorkerAction::Skip
            }
        },
        Msg::Scrobble { artist, track, album, ts } => {
            if cfg.is_connected() {
                WorkerAction::Post(
                    scrobble_request(cfg, artist.as_str(), track.as_str(), album.as_str(), *ts),
                )
            } else {
                WorkerAction::Skip
            }
        },
    }
}

// ---------------------------------------------------------------------------
// The worker over a run of messages
// ---------------------------------------------------------------------------

/// No form or one.
pub open spec fn form_list(f: Option<Seq<Entry>>) -> Seq<Seq<Entry>> {
    match f {
        Some(f) => seq![f],
        None => Seq::<Seq<Entry>>::empty(),
    }
}

/// The forms that the worker posts for `msgs`, handled in the order they
/// were sent, starting from the credentials `cfg`. Each `Reload` replaces
/// the credentials with the next of `loads`: what reading the credentials
/// file gave at that moment.
pub open spec fn worker_posts(cfg: Config, loads: Seq<Config>, msgs: Seq<Msg>) -> Seq<Seq<Entry>>
    decreases msgs.len(),
{
    if msgs.len() == 0 {
        seq![]
    } else if msgs[0] is Reload {
        worker_posts(loads[0], loads.drop_first(), msgs.drop_first())
    } else {
        form_list(track_form(cfg, msgs[0])) + worker_posts(cfg, loads, msgs.drop_first())
    }
}

/// How many of `msgs` are `Reload`.
pub open spec fn reloads(msgs: Seq<Msg>) -> nat
    decreases msgs.len(),
{
    if msgs.len() == 0 {
        0
    } else {
        (if msgs[0] is Reload {
            1nat
        } else {
            0nat
        }) + reloads(msgs.drop_first())
    }
}

/// The credentials that the worker holds after `msgs`: the last load that a
/// `Reload` brought in, or the first credentials if there was none.
pub open spec fn worker_config(cfg: Config, loads: Seq<Config>, msgs: Seq<Msg>) -> Config {
    if reloads(msgs) == 0 {
        cfg
    } else {
        loads[reloads(msgs) - 1]
    }
}

proof fn lemma_reloads_push(msgs: Seq<Msg>, m: Msg)
    ensures
        reloads(msgs.push(m)) == reloads(msgs) + if m is Reload {
            1nat
        } else {
            0nat
        },
    decreases msgs.len(),
{
    if msgs.len() > 0 {
        lemma_reloads_push(msgs.drop_first(), m);
        assert(msgs.push(m).drop_first() =~= msgs.drop_first().push(m));
    } else {
        assert(msgs.push(m).drop_first() =~= Seq::<Msg>::empty());
        assert(msgs.push(m)[0] == m);
        assert(reloads(Seq::<Msg>::empty()) == 0);
        assert(msgs =~= Seq::<Msg>::empty());
    }
}

/// Messages are handled in the order they were sent: the posts for a run
/// of messages followed by one more are the posts for the run, then what
/// that message makes the worker post under the credentials it holds then.
/// (`loads` holds a load for each `Reload` of the run.)
pub proof fn law_worker_in_order(cfg: Config, loads: Seq<Config>, msgs: Seq<Msg>, m: Msg)
    requires
        loads.len() >= reloads(msgs),
    ensures
        worker_posts(cfg, loads, msgs.push(m)) == worker_posts(cfg, loads, msgs) + form_list(
            track_form(worker_config(cfg, loads, msgs), m),
        ),
    decreases msgs.len(),
{
    let tail = form_list(track_form(worker_config(cfg, loads, msgs), m));
    if msgs.len() == 0 {
        let one = msgs.push(m);
        assert(one.drop_first() =~= Seq::<Msg>::empty());
        assert(one[0] == m);
        assert(msgs =~= Seq::<Msg>::empty());
        assert(reloads(Seq::<Msg>::empty()) == 0);
        assert(worker_config(cfg, loads, msgs) == cfg);
        assert(worker_posts(cfg, loads, msgs) == Seq::<Seq<Entry>>::empty());
        assert(worker_posts(loads[0], loads.drop_first(), Seq::<Msg>::empty()) == Seq::<Seq<Entry>>::empty());
        assert(worker_posts(cfg, loads, Seq::<Msg>::empty()) == Seq::<Seq<Entry>>::empty());
        if m is Reload {
            assert(track_form(cfg, m) is None);
            assert(worker_posts(cfg, loads, one) =~= Seq::<Seq<Entry>>::empty() + tail);
        } else {
            assert(worker_posts(cfg, loads, one) =~= tail + Seq::<Seq<Entry>>::empty());
        }
    } else {
        let longer = msgs.push(m);
        assert(longer[0] == msgs[0]);
        assert(longer.drop_first() =~= msgs.drop_first().push(m));
        if msgs[0] is Reload {
            law_worker_in_order(loads[0], loads.drop_first(), msgs.drop_first(), m);
            if reloads(msgs.drop_first()) > 0 {
                assert(loads.drop_first()[reloads(msgs.drop_first()) - 1] == loads[reloads(msgs) - 1]);
            }
        } else {
            law_worker_in_order(cfg, loads, msgs.drop_first(), m);
            assert(worker_posts(cfg, loads, longer) =~= worker_posts(cfg, loads, msgs) + tail);
        }
    }
}

/// A `Reload` posts nothing; after it the worker holds the next load.
pub proof fn law_worker_reload(cfg: Config, loads: Seq<Config>, msgs: Seq<Msg>)
    requires
        loads.len() > reloads(msgs),
    ensures
        worker_posts(cfg, loads, msgs.push(Msg::Reload)) == worker_posts(cfg, loads, msgs),
        worker_config(cfg, loads, msgs.push(Msg::Reload)) == loads[reloads(msgs) as int],
{
    law_worker_in_order(cfg, loads, msgs, Msg::Reload);
    lemma_reloads_push(msgs, Msg::Reload);
    assert(worker_posts(cfg, loads, msgs) + Seq::<Seq<Entry>>::empty() =~= worker_posts(cfg, loads, msgs));
}

/// While neither the first credentials nor any load can sign calls, the
/// worker posts nothing, whatever it is sent.
pub proof fn law_worker_silent_when_disconnected(cfg: Config, loads: Seq<Config>, msgs: Seq<Msg>)
    requires
        !cfg.connected(),
        loads.len() >= reloads(msgs),
        forall|i: int| 0 <= i < loads.len() ==> !(#[trigger] loads[i]).connected(),
    ensures
        worker_posts(cfg, loads, msgs) == Seq::<Seq<Entry>>::empty(),
    decreases msgs.len(),
{
    if msgs.len() > 0 {
        if msgs[0] is Reload {
            assert forall|i: int| 0 <= i < loads.drop_first().len() implies !(#[trigger] loads.drop_first()[i]).connected() by {
                assert(loads.drop_first()[i] == loads[i + 1]);
            }
            law_worker_silent_when_disconnected(loads[0], loads.drop_first(), msgs.drop_first());
        } else {
            law_worker_silent_when_disconnected(cfg, loads, msgs.drop_first());
            assert(worker_posts(cfg, loads, msgs) =~= Seq::<Seq<Entry>>::empty() + Seq::<Seq<Entry>>::empty());
        }
    }
}


// ---------------------------------------------------------------------------
// What the track forms carry
// ---------------------------------------------------------------------------

/// What a name reads in the parameters of a track call: key, session key,
/// artist and title as given, the album exactly when it is not empty, and
/// the start time (for a scrobble) in decimal.
proof fn lemma_track_lookup(
    api_key: Seq<char>,
    sk: Seq<char>,
    artist: Seq<char>,
    track: Seq<char>,
    album: Seq<char>,
    stamp: Option<Seq<char>>,
    name: Seq<char>,
)
    ensures
        ({
            let base = insert_entry(
                insert_entry(insert_entry(one("api_key"@, api_key), "sk"@, sk), "artist"@, artist),
                "track"@,
                track,
            );
            let p = match stamp {
                Some(t) => insert_entry(base, "timestamp"@, t),
                None => base,
            };
            let q = if album.len() > 0 {
                insert_entry(p, "album"@, album)
            } else {
                p
            };
            &&& keys_sorted(q)
            &&& lookup(q, name) == if name == "album"@ {
                if album.len() > 0 {
                    Some(album)
                } else {
                    None
                }
            } else if name == "timestamp"@ {
                stamp
            } else if name == "track"@ {
                Some(track)
            } else if name == "artist"@ {
                Some(artist)
            } else if name == "sk"@ {
                Some(sk)
            } else if name == "api_key"@ {
                Some(api_key)
            } else {
                None
            }
        }),
{
    lemma_param_names_distinct();
    let e = Seq::<Entry>::empty();
    let s1 = one("api_key"@, api_key);
    let s2 = insert_entry(s1, "sk"@, sk);
    let s3 = insert_entry(s2, "artist"@, artist);
    let base = insert_entry(s3, "track"@, track);
    assert(lookup(e, name) is None);
    lemma_insert_sorted(e, "api_key"@, api_key);
    lemma_lookup_insert(e, "api_key"@, api_key, name);
    lemma_insert_sorted(s1, "sk"@, sk);
    lemma_lookup_insert(s1, "sk"@, sk, name);
    lemma_insert_sorted(s2, "artist"@, artist);
    lemma_lookup_insert(s2, "artist"@, artist, name);
    lemma_insert_sorted(s3, "track"@, track);
    lemma_lookup_insert(s3, "track"@, track, name);
    let p = match stamp {
        Some(t) => insert_entry(base, "timestamp"@, t),
        None => base,
    };
    match stamp {
        Some(t) => {
            lemma_insert_sorted(base, "timestamp"@, t);
            lemma_lookup_insert(base, "timestamp"@, t, name);
        },
        None => {},
    }
    if album.len() > 0 {
        lemma_insert_sorted(p, "album"@, album);
        lemma_lookup_insert(p, "album"@, album, name);
    }
}

/// The now-playing form carries the call's own artist, title, key and
/// session key, the album exactly when it is not empty, no start time, and
/// names `track.updateNowPlaying`.
pub proof fn law_now_playing_form(
    api_key: Seq<char>,
    sk: Seq<char>,
    artist: Seq<char>,
    track: Seq<char>,
    album: Seq<char>,
    secret: Seq<char>,
)
    ensures
        lookup(signed_form(track_params(api_key, sk, artist, track, album), "track.updateNowPlaying"@, secret), "album"@)
            == if album.len() > 0 {
            Some(album)
        } else {
            None
        },
        lookup(signed_form(track_params(api_key, sk, artist, track, album), "track.updateNowPlaying"@, secret), "artist"@)
            == Some(artist),
        lookup(signed_form(track_params(api_key, sk, artist, track, album), "track.updateNowPlaying"@, secret), "track"@)
            == Some(track),
        lookup(signed_form(track_params(api_key, sk, artist, track, album), "track.updateNowPlaying"@, secret), "sk"@)
            == Some(sk),
        lookup(signed_form(track_params(api_key, sk, artist, track, album), "track.updateNowPlaying"@, secret), "api_key"@)
            == Some(api_key),
        lookup(signed_form(track_params(api_key, sk, artist, track, album), "track.updateNowPlaying"@, secret), "timestamp"@)
            is None,
        lookup(signed_form(track_params(api_key, sk, artist, track, album), "track.updateNowPlaying"@, secret), "method"@)
            == Some("track.updateNowPlaying"@),
{
    lemma_param_names_distinct();
    let p = track_params(api_key, sk, artist, track, album);
    let m = "track.updateNowPlaying"@;
    lemma_track_lookup(api_key, sk, artist, track, album, None, "album"@);
    lemma_track_lookup(api_key, sk, artist, track, album, None, "artist"@);
    lemma_track_lookup(api_key, sk, artist, track, album, None, "track"@);
    lemma_track_lookup(api_key, sk, artist, track, album, None, "sk"@);
    lemma_track_lookup(api_key, sk, artist, track, album, None, "api_key"@);
    lemma_track_lookup(api_key, sk, artist, track, album, None, "timestamp"@);
    lemma_signed_form_lookup(p, m, secret, "album"@);
    lemma_signed_form_lookup(p, m, secret, "artist"@);
    lemma_signed_form_lookup(p, m, secret, "track"@);
    lemma_signed_form_lookup(p, m, secret, "sk"@);
    lemma_signed_form_lookup(p, m, secret, "api_key"@);
    lemma_signed_form_lookup(p, m, secret, "timestamp"@);
    lemma_signed_form_method(p, m, secret);
}

/// The scrobble form carries the call's own artist, title, key and session
/// key, the start time in decimal, the album exactly when it is not empty,
/// and names `track.scrobble`.
pub proof fn law_scrobble_form(
    api_key: Seq<char>,
    sk: Seq<char>,
    artist: Seq<char>,
    track: Seq<char>,
    album: Seq<char>,
    ts: nat,
    secret: Seq<char>,
)
    ensures
        lookup(signed_form(scrobble_params(api_key, sk, artist, track, album, ts), "track.scrobble"@, secret), "album"@)
            == if album.len() > 0 {
            Some(album)
        } else {
            None
        },
        lookup(signed_form(scrobble_params(api_key, sk, artist, track, album, ts), "track.scrobble"@, secret), "artist"@)
            == Some(artist),
        lookup(signed_form(scrobble_params(api_key, sk, artist, track, album, ts), "track.scrobble"@, secret), "track"@)
            == Some(track),
        lookup(signed_form(scrobble_params(api_key, sk, artist, track, album, ts), "track.scrobble"@, secret), "sk"@)
            == Some(sk),
        lookup(signed_form(scrobble_params(api_key, sk, artist, track, album, ts), "track.scrobble"@, secret), "api_key"@)
            == Some(api_key),
        lookup(signed_form(scrobble_params(api_key, sk, artist, track, album, ts), "track.scrobble"@, secret), "timestamp"@)
            == Some(decimal(ts)),
        lookup(signed_form(scrobble_params(api_key, sk, artist, track, album, ts), "track.scrobble"@, secret), "method"@)
            == Some("track.scrobble"@),
{
    lemma_param_names_distinct();
    let p = scrobble_params(api_key, sk, artist, track, album, ts);
    let m = "track.scrobble"@;
    let st = Some(decimal(ts));
    lemma_track_lookup(api_key, sk, artist, track, album, st, "album"@);
    lemma_track_lookup(api_key, sk, artist, track, album, st, "artist"@);
    lemma_track_lookup(api_key, sk, artist, track, album, st, "track"@);
    lemma_track_lookup(api_key, sk, artist, track, album, st, "sk"@);
    lemma_track_lookup(api_key, sk, artist, track, album, st, "api_key"@);
    lemma_track_lookup(api_key, sk, artist, track, album, st, "timestamp"@);
    lemma_signed_form_lookup(p, m, secret, "album"@);
    lemma_signed_form_lookup(p, m, secret, "artist"@);
    lemma_signed_form_lookup(p, m, secret, "track"@);
    lemma_signed_form_lookup(p, m, secret, "sk"@);
    lemma_signed_form_lookup(p, m, secret, "api_key"@);
    lemma_signed_form_lookup(p, m, secret, "timestamp"@);
    lemma_signed_form_method(p, m, secret);
}

/// Under connected credentials the worker posts, for a track message, a
/// form built from that message's own fields: its artist, title and album
/// (the album exactly when it is not empty), its start time for a
/// scrobble, and the credentials' key and session key.
pub proof fn law_worker_posts_message_fields(cfg: Config, msg: Msg)
    requires
        cfg.connected(),
        !(msg is Reload),
    ensures
        track_form(cfg, msg) is Some,
        match msg {
            Msg::NowPlaying { artist, track, album } => {
                let f = track_form(cfg, msg)->0;
                &&& lookup(f, "artist"@) == Some(artist@)
                &&& lookup(f, "track"@) == Some(track@)
                &&& lookup(f, "album"@) == if album@.len() > 0 {
                    Some(album@)
                } else {
                    None
                }
                &&& lookup(f, "sk"@) == Some(cfg.session_key@)
                &&& lookup(f, "api_key"@) == Some(cfg.api_key@)
                &&& lookup(f, "method"@) == Some("track.updateNowPlaying"@)
            },
            Msg::Scrobble { artist, track, album, ts } => {
                let f = track_form(cfg, msg)->0;
                &&& lookup(f, "artist"@) == Some(artist@)
                &&& lookup(f, "track"@) == Some(track@)
                &&& lookup(f, "album"@) == if album@.len() > 0 {
                    Some(album@)
                } else {
                    None
                }
                &&& lookup(f, "timestamp"@) == Some(decimal(ts as nat))
                &&& lookup(f, "sk"@) == Some(cfg.session_key@)
                &&& lookup(f, "api_key"@) == Some(cfg.api_key@)
                &&& lookup(f, "method"@) == Some("track.scrobble"@)
            },
            Msg::Reload => true,
        },
{
    match msg {
        Msg::NowPlaying { artist, track, album } => {
            law_now_playing_form(cfg.api_key@, cfg.session_key@, artist@, track@, album@, cfg.api_secret@);
        },
        Msg::Scrobble { artist, track, album, ts } => {
            law_scrobble_form(cfg.api_key@, cfg.session_key@, artist@, track@, album@, ts as nat, cfg.api_secret@);
        },
        Msg::Reload => {},
    }
}

} // verus!
