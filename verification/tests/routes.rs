use ytmusic::routes::{media_event_js, play_pause_js, player_js, route_js, set_volume_js, ControlEvent};

#[test]
fn routes_map_correctly() {
    assert!(route_js("/next").unwrap().contains("nextVideo"));
    assert!(route_js("/prev").unwrap().contains("previousVideo"));
    assert!(route_js("/playpause").unwrap().contains("pauseVideo"));
    assert!(route_js("/volup").unwrap().contains("setVolume"));
    assert!(route_js("/voldown").unwrap().contains("setVolume"));
    assert!(route_js("/volume?v=42").unwrap().contains("42"));
    assert_eq!(route_js("/volume"), None); // missing v
    assert_eq!(route_js("/bogus"), None);
}

#[test]
fn player_script_calls_the_method() {
    assert_eq!(
        player_js("nextVideo"),
        "(function(){var p=document.querySelector('#movie_player');if(p&&p.nextVideo)p.nextVideo();})()"
    );
}

#[test]
fn volume_script_wraps_the_expression() {
    assert_eq!(
        set_volume_js("7"),
        "(function(){var p=document.querySelector('#movie_player');if(p&&p.setVolume)p.setVolume(7);})()"
    );
}

#[test]
fn every_command_path_has_its_script() {
    assert_eq!(route_js("/play").unwrap(), player_js("playVideo"));
    assert_eq!(route_js("/pause").unwrap(), player_js("pauseVideo"));
    assert_eq!(route_js("/next").unwrap(), player_js("nextVideo"));
    assert_eq!(route_js("/prev").unwrap(), player_js("previousVideo"));
    assert_eq!(route_js("/previous").unwrap(), player_js("previousVideo"));
    assert_eq!(route_js("/playpause").unwrap(), play_pause_js());
    assert_eq!(
        route_js("/volup").unwrap(),
        set_volume_js("Math.min(100,(p.getVolume()||0)+5)")
    );
    assert_eq!(
        route_js("/voldown").unwrap(),
        set_volume_js("Math.max(0,(p.getVolume()||0)-5)")
    );
}

#[test]
fn query_is_ignored_outside_volume() {
    assert_eq!(route_js("/next?x=1&v=3"), route_js("/next"));
    assert_eq!(route_js("/play?"), route_js("/play"));
}

#[test]
fn paths_must_match_exactly() {
    assert_eq!(route_js(""), None);
    assert_eq!(route_js("/"), None);
    assert_eq!(route_js("/Next"), None);
    assert_eq!(route_js("/next/"), None);
    assert_eq!(route_js("next"), None);
    assert_eq!(route_js("?/next"), None);
}

#[test]
fn volume_is_exact_and_clamped() {
    assert_eq!(
        route_js("/volume?v=42").unwrap(),
        set_volume_js("Math.max(0,Math.min(100,42))")
    );
    assert_eq!(
        route_js("/volume?v=0").unwrap(),
        set_volume_js("Math.max(0,Math.min(100,0))")
    );
    assert_eq!(
        route_js("/volume?v=-5").unwrap(),
        set_volume_js("Math.max(0,Math.min(100,0))")
    );
    assert_eq!(
        route_js("/volume?v=500").unwrap(),
        set_volume_js("Math.max(0,Math.min(100,100))")
    );
    assert_eq!(
        route_js("/volume?v=+7").unwrap(),
        set_volume_js("Math.max(0,Math.min(100,7))")
    );
    assert_eq!(
        route_js("/volume?v=-2147483648").unwrap(),
        set_volume_js("Math.max(0,Math.min(100,0))")
    );
    assert_eq!(
        route_js("/volume?v=2147483647").unwrap(),
        set_volume_js("Math.max(0,Math.min(100,100))")
    );
}

#[test]
fn volume_takes_the_first_v_parameter() {
    assert_eq!(
        route_js("/volume?x=1&v=7&v=9").unwrap(),
        set_volume_js("Math.max(0,Math.min(100,7))")
    );
    assert_eq!(
        route_js("/volume?vv=1&v=8").unwrap(),
        set_volume_js("Math.max(0,Math.min(100,8))")
    );
    // Only the text up to the next '?' is the query.
    assert_eq!(
        route_js("/volume?v=12?v=3").unwrap(),
        set_volume_js("Math.max(0,Math.min(100,12))")
    );
}

#[test]
fn volume_without_a_number_is_refused() {
    assert_eq!(route_js("/volume?"), None);
    assert_eq!(route_js("/volume?v="), None);
    assert_eq!(route_js("/volume?v=abc"), None);
    assert_eq!(route_js("/volume?v=4x"), None);
    assert_eq!(route_js("/volume?v= 4"), None);
    assert_eq!(route_js("/volume?v=-"), None);
    assert_eq!(route_js("/volume?v=+"), None);
    assert_eq!(route_js("/volume?v=2147483648"), None);
    assert_eq!(route_js("/volume?v=-2147483649"), None);
    assert_eq!(route_js("/volume?v=99999999999999999999"), None);
    assert_eq!(route_js("/volume?x=1&y=2"), None);
    // The first `v=` decides, even when a later one would parse.
    assert_eq!(route_js("/volume?v=x&v=5"), None);
}

#[test]
fn media_keys_map_to_player_methods() {
    assert_eq!(media_event_js(ControlEvent::Play), Some(player_js("playVideo")));
    assert_eq!(media_event_js(ControlEvent::Pause), Some(player_js("pauseVideo")));
    assert_eq!(media_event_js(ControlEvent::Stop), Some(player_js("pauseVideo")));
    assert_eq!(media_event_js(ControlEvent::Next), Some(player_js("nextVideo")));
    assert_eq!(media_event_js(ControlEvent::Previous), Some(player_js("previousVideo")));
    assert_eq!(media_event_js(ControlEvent::Toggle), Some(play_pause_js()));
    assert_eq!(media_event_js(ControlEvent::Other), None);
}
