use ytmusic::json::{render_json, Json};
use ytmusic::lastfm::{
    authorize_url, call_reply, now_playing_request, scrobble_request, session_from_reply,
    session_request, token_from_reply, token_request, worker_step, Config, Msg, WorkerAction,
};
use ytmusic::params::Params;
use ytmusic::signature::{prepare_call, sign, to_lower_hex};

fn md5_hex(s: &str) -> String {
    format!("{:x}", md5::compute(s))
}

fn pairs(p: &Params) -> Vec<(String, String)> {
    p.entries().clone()
}

fn s(x: &str) -> String {
    x.to_string()
}

fn config(key: &str, secret: &str, sk: &str) -> Config {
    Config { api_key: s(key), api_secret: s(secret), session_key: s(sk), username: s("") }
}

fn obj(members: Vec<(&str, Json)>) -> Json {
    Json::Object(members.into_iter().map(|(k, v)| (s(k), v)).collect())
}

#[test]
fn connected_needs_key_secret_and_session() {
    assert!(config("k", "s", "sk").is_connected());
    assert!(!config("", "s", "sk").is_connected());
    assert!(!config("k", "", "sk").is_connected());
    assert!(!config("k", "s", "").is_connected());
    assert!(!Config::default().is_connected());
}

#[test]
fn authorize_url_names_key_and_token() {
    assert_eq!(
        authorize_url("KEY", "TOK"),
        "https://www.last.fm/api/auth/?api_key=KEY&token=TOK"
    );
}

#[test]
fn params_are_kept_in_name_order() {
    let mut p = Params::new();
    p.insert("track", "t");
    p.insert("api_key", "k");
    p.insert("sk", "x");
    p.insert("artist", "a");
    p.insert("album", "b");
    p.insert("sk", "y");
    assert_eq!(
        pairs(&p),
        vec![
            (s("album"), s("b")),
            (s("api_key"), s("k")),
            (s("artist"), s("a")),
            (s("sk"), s("y")),
            (s("track"), s("t")),
        ]
    );
    assert_eq!(p.len(), 5);
}

#[test]
fn params_order_is_bytewise() {
    let mut p = Params::new();
    p.insert("b", "1");
    p.insert("B", "2");
    p.insert("é", "3");
    p.insert("a", "4");
    p.insert("", "5");
    let names: Vec<String> = pairs(&p).into_iter().map(|(k, _)| k).collect();
    let mut sorted = names.clone();
    sorted.sort();
    assert_eq!(names, sorted);
    assert_eq!(names, vec![s(""), s("B"), s("a"), s("b"), s("é")]);
}

#[test]
fn empty_signature_is_md5_of_the_secret() {
    assert_eq!(sign(&Params::new(), ""), "d41d8cd98f00b204e9800998ecf8427e");
    assert_eq!(sign(&Params::new(), "abc"), "900150983cd24fb0d6963f7d28e17f72");
}

#[test]
fn signature_concatenates_names_and_values_in_order() {
    let mut p = Params::new();
    p.insert("token", "T");
    p.insert("api_key", "K");
    p.insert("method", "auth.getSession");
    assert_eq!(sign(&p, "secret"), md5_hex("api_keyKmethodauth.getSessiontokenTsecret"));
}

#[test]
fn signature_leaves_out_format_and_callback() {
    let mut p = Params::new();
    p.insert("api_key", "K");
    let plain = sign(&p, "z");
    p.insert("format", "json");
    p.insert("callback", "cb");
    assert_eq!(sign(&p, "z"), plain);
    assert_eq!(plain, md5_hex("api_keyKz"));
}

#[test]
fn signature_hashes_utf8() {
    let mut p = Params::new();
    p.insert("artist", "Björk");
    assert_eq!(sign(&p, "ß"), md5_hex("artistBjörkß"));
}

#[test]
fn hex_is_lowercase_two_digits_per_byte() {
    assert_eq!(to_lower_hex(&vec![0x00, 0x0f, 0xa0, 0xff]), "000fa0ff");
    assert_eq!(to_lower_hex(&vec![]), "");
}

#[test]
fn prepared_call_is_signed_before_format() {
    let mut p = Params::new();
    p.insert("api_key", "K");
    let form = prepare_call("auth.getToken", p, "S");
    let sig = md5_hex("api_keyKmethodauth.getTokenS");
    assert_eq!(
        pairs(&form),
        vec![
            (s("api_key"), s("K")),
            (s("api_sig"), sig),
            (s("format"), s("json")),
            (s("method"), s("auth.getToken")),
        ]
    );
}

#[test]
fn token_and_session_forms() {
    let form = token_request("K", "S");
    assert_eq!(pairs(&form)[0], (s("api_key"), s("K")));
    assert_eq!(pairs(&form)[3], (s("method"), s("auth.getToken")));
    let form = session_request("K", "S", "T");
    let sig = md5_hex("api_keyKmethodauth.getSessiontokenTS");
    assert_eq!(
        pairs(&form),
        vec![
            (s("api_key"), s("K")),
            (s("api_sig"), sig),
            (s("format"), s("json")),
            (s("method"), s("auth.getSession")),
            (s("token"), s("T")),
        ]
    );
}

#[test]
fn now_playing_form_skips_an_empty_album() {
    let cfg = config("K", "S", "SK");
    let form = now_playing_request(&cfg, "A", "T", "");
    let sig = md5_hex("api_keyKartistAmethodtrack.updateNowPlayingskSKtrackTS");
    assert_eq!(
        pairs(&form),
        vec![
            (s("api_key"), s("K")),
            (s("api_sig"), sig),
            (s("artist"), s("A")),
            (s("format"), s("json")),
            (s("method"), s("track.updateNowPlaying")),
            (s("sk"), s("SK")),
            (s("track"), s("T")),
        ]
    );
}

#[test]
fn scrobble_form_carries_album_and_timestamp() {
    let cfg = config("K", "S", "SK");
    let form = scrobble_request(&cfg, "A", "T", "B", 1725029869);
    let sig = md5_hex("albumBapi_keyKartistAmethodtrack.scrobbleskSKtimestamp1725029869trackTS");
    assert_eq!(
        pairs(&form),
        vec![
            (s("album"), s("B")),
            (s("api_key"), s("K")),
            (s("api_sig"), sig),
            (s("artist"), s("A")),
            (s("format"), s("json")),
            (s("method"), s("track.scrobble")),
            (s("sk"), s("SK")),
            (s("timestamp"), s("1725029869")),
            (s("track"), s("T")),
        ]
    );
    let form = scrobble_request(&cfg, "A", "T", "", 0);
    assert!(pairs(&form).contains(&(s("timestamp"), s("0"))));
    let form = scrobble_request(&cfg, "A", "T", "", u64::MAX);
    assert!(pairs(&form).contains(&(s("timestamp"), s("18446744073709551615"))));
}

#[test]
fn replies_with_an_error_are_refused() {
    let reply = obj(vec![
        ("error", Json::Number(s("4"))),
        ("message", Json::Str(s("Invalid authentication token"))),
    ]);
    assert_eq!(call_reply(&reply), Err(s("last.fm error 4: Invalid authentication token")));
    assert_eq!(
        token_from_reply(&reply),
        Err(s("last.fm error 4: Invalid authentication token"))
    );
    let reply = obj(vec![("error", Json::Str(s("x\"y"))), ("token", Json::Str(s("t")))]);
    assert_eq!(token_from_reply(&reply), Err(s("last.fm error \"x\\\"y\": ")));
    let reply = obj(vec![("error", Json::Null), ("message", Json::Number(s("1")))]);
    assert_eq!(call_reply(&reply), Err(s("last.fm error null: ")));
    assert_eq!(call_reply(&obj(vec![("token", Json::Str(s("t")))])), Ok(()));
    assert_eq!(call_reply(&Json::Array(vec![Json::Null])), Ok(()));
}

#[test]
fn token_is_read_from_the_reply() {
    assert_eq!(token_from_reply(&obj(vec![("token", Json::Str(s("abc")))])), Ok(s("abc")));
    assert_eq!(
        token_from_reply(&obj(vec![("token", Json::Number(s("5")))])),
        Err(s("no token in response"))
    );
    assert_eq!(token_from_reply(&obj(vec![])), Err(s("no token in response")));
    assert_eq!(token_from_reply(&Json::Str(s("token"))), Err(s("no token in response")));
}

#[test]
fn session_is_read_from_the_reply() {
    let reply = obj(vec![(
        "session",
        obj(vec![
            ("key", Json::Str(s("SK"))),
            ("name", Json::Str(s("me"))),
            ("subscriber", Json::Number(s("0"))),
        ]),
    )]);
    assert_eq!(session_from_reply(&reply), Ok((s("SK"), s("me"))));
    let reply = obj(vec![("session", obj(vec![("key", Json::Str(s("SK")))]))]);
    assert_eq!(session_from_reply(&reply), Ok((s("SK"), s(""))));
    let reply = obj(vec![("session", obj(vec![("name", Json::Str(s("me")))]))]);
    assert_eq!(session_from_reply(&reply), Err(s("no session key")));
    let reply = obj(vec![("session", obj(vec![("key", Json::Bool(true))]))]);
    assert_eq!(session_from_reply(&reply), Err(s("no session key")));
    assert_eq!(session_from_reply(&obj(vec![])), Err(s("no session in response")));
    let reply = obj(vec![("error", Json::Number(s("14"))), ("session", obj(vec![]))]);
    assert_eq!(session_from_reply(&reply), Err(s("last.fm error 14: ")));
}

fn to_json(v: &serde_json::Value) -> Json {
    match v {
        serde_json::Value::Null => Json::Null,
        serde_json::Value::Bool(b) => Json::Bool(*b),
        serde_json::Value::Number(n) => Json::Number(n.to_string()),
        serde_json::Value::String(t) => Json::Str(t.clone()),
        serde_json::Value::Array(a) => Json::Array(a.iter().map(to_json).collect()),
        serde_json::Value::Object(m) => {
            Json::Object(m.iter().map(|(k, v)| (k.clone(), to_json(v))).collect())
        }
    }
}

#[test]
fn rendering_matches_serde_json() {
    let texts = [
        r#"null"#,
        r#"true"#,
        r#"-12.5e3"#,
        r#""plain""#,
        r#""quote \" backslash \\ slash / tab \t nl \n cr \r bs \b ff \f nul \u0000 us \u001f del \u007f é 😀""#,
        r#"[]"#,
        r#"{}"#,
        r#"[1, "two", [3, {"four": 4}], null]"#,
        r#"{"error": 29, "message": "Rate limit exceeded", "links": [], "z": {"b": 1, "a": [true, false]}}"#,
        r#"{"k\"ey\n": "v"}"#,
    ];
    for text in texts {
        let v: serde_json::Value = serde_json::from_str(text).unwrap();
        assert_eq!(render_json(&to_json(&v)), v.to_string(), "{}", text);
    }
}

#[test]
fn lookup_follows_serde_json() {
    let v: serde_json::Value =
        serde_json::from_str(r#"{"session": {"key": "K", "name": 3}, "token": "T"}"#).unwrap();
    let j = to_json(&v);
    assert_eq!(j.get("token").and_then(|t| t.as_str()), v.get("token").and_then(|t| t.as_str()));
    let sess = j.get("session").unwrap();
    assert_eq!(sess.get("key").and_then(|t| t.as_str()), Some("K"));
    assert_eq!(sess.get("name").and_then(|t| t.as_str()), None);
    assert!(j.get("missing").is_none());
    assert!(Json::Array(vec![]).get("token").is_none());
}

#[test]
fn worker_posts_only_when_connected() {
    let cfg = config("K", "S", "SK");
    let msg = Msg::NowPlaying { artist: s("A"), track: s("T"), album: s("") };
    match worker_step(&cfg, &msg) {
        WorkerAction::Post(form) => {
            assert_eq!(pairs(&form), pairs(&now_playing_request(&cfg, "A", "T", "")))
        }
        _ => panic!("expected a post"),
    }
    let msg = Msg::Scrobble { artist: s("A"), track: s("T"), album: s("B"), ts: 7 };
    match worker_step(&cfg, &msg) {
        WorkerAction::Post(form) => {
            assert_eq!(pairs(&form), pairs(&scrobble_request(&cfg, "A", "T", "B", 7)))
        }
        _ => panic!("expected a post"),
    }
    let off = config("K", "S", "");
    assert!(matches!(worker_step(&off, &msg), WorkerAction::Skip));
    assert!(matches!(worker_step(&off, &Msg::Reload), WorkerAction::Reload));
    assert!(matches!(worker_step(&cfg, &Msg::Reload), WorkerAction::Reload));
}

#[test]
fn worker_run_follows_reloads_in_order() {
    // The loop of the worker: each Reload takes the next load of the credentials.
    let mut loads = vec![config("K2", "S2", "SK2"), config("", "", "")].into_iter();
    let mut cfg = config("K", "S", "");
    let msgs = vec![
        Msg::NowPlaying { artist: s("A"), track: s("T"), album: s("") },
        Msg::Reload,
        Msg::Scrobble { artist: s("A"), track: s("T"), album: s(""), ts: 1 },
        Msg::Reload,
        Msg::NowPlaying { artist: s("B"), track: s("U"), album: s("") },
    ];
    let mut posted = Vec::new();
    for msg in &msgs {
        match worker_step(&cfg, msg) {
            WorkerAction::Reload => cfg = loads.next().unwrap(),
            WorkerAction::Post(form) => posted.push(pairs(&form)),
            WorkerAction::Skip => {}
        }
    }
    let expected = pairs(&scrobble_request(&config("K2", "S2", "SK2"), "A", "T", "", 1));
    assert_eq!(posted, vec![expected]);
}
