use echomusic_lyrics_winisland::json::{JsonNumber, JsonValue};
use echomusic_lyrics_winisland::media_state::PlayAction;
use echomusic_lyrics_winisland::protocol::{
    command_message, config_value_acceptable, decode_incoming_message, decode_plugin_command,
    json_string, play_mode_data, pong_message, seek_data, set_favorite_data, IncomingMessage,
    PluginEvent,
};

fn js(v: &str) -> JsonValue {
    JsonValue::Str(v.to_string())
}

fn jn(v: u64) -> JsonValue {
    JsonValue::Number(JsonNumber { as_u64: Some(v), rounded_u64: Some(v) })
}

fn jobj(members: Vec<(&str, JsonValue)>) -> JsonValue {
    JsonValue::Object(members.into_iter().map(|(k, v)| (k.to_string(), v)).collect())
}

fn plugin_command(payload: JsonValue) -> JsonValue {
    jobj(vec![("type", js("command")), ("source", js("plugin")), ("payload", payload)])
}

#[test]
fn simple_messages() {
    assert!(matches!(decode_incoming_message(&jobj(vec![("type", js("ping"))])), IncomingMessage::Ping));
    assert!(matches!(
        decode_incoming_message(&jobj(vec![("type", js("subscribe"))])),
        IncomingMessage::Subscribe
    ));
    assert!(matches!(
        decode_incoming_message(&jobj(vec![("type", js("lyrics"))])),
        IncomingMessage::LegacyLyrics
    ));
    assert!(matches!(
        decode_incoming_message(&jobj(vec![("type", js("track_lyrics"))])),
        IncomingMessage::LegacyLyrics
    ));
    assert!(matches!(decode_incoming_message(&jobj(vec![("type", js("other"))])), IncomingMessage::Ignored));
    assert!(matches!(decode_incoming_message(&jobj(vec![])), IncomingMessage::Ignored));
    assert!(matches!(decode_incoming_message(&js("ping")), IncomingMessage::Ignored));
}

#[test]
fn music_data_message_reads_the_payload() {
    let payload = jobj(vec![
        ("Metadata", jobj(vec![("title", js("Song"))])),
        ("lyrics", JsonValue::Array(vec![])),
    ]);
    match decode_incoming_message(&jobj(vec![("type", js("MusicData")), ("payload", payload)])) {
        IncomingMessage::MusicData(d) => assert_eq!(d.metadata.title, "Song"),
        _ => panic!("expected MusicData"),
    }
    let bad = jobj(vec![("type", js("MusicData")), ("payload", jobj(vec![]))]);
    assert!(matches!(decode_incoming_message(&bad), IncomingMessage::Ignored));
}

#[test]
fn config_updates_need_a_path_and_a_value() {
    let msg = jobj(vec![
        ("type", js("config_update")),
        ("payload", jobj(vec![("path", js("font_size")), ("value", jn(14))])),
    ]);
    match decode_incoming_message(&msg) {
        IncomingMessage::ConfigUpdate { path } => assert_eq!(path, "font_size"),
        _ => panic!("expected a config update"),
    }
    let font = jobj(vec![
        ("type", js("config_update")),
        ("payload", jobj(vec![("path", js("custom_font_path")), ("value", js("x"))])),
    ]);
    assert!(matches!(decode_incoming_message(&font), IncomingMessage::Ignored));
    let no_value = jobj(vec![("type", js("config_update")), ("payload", jobj(vec![("path", js("a"))]))]);
    assert!(matches!(decode_incoming_message(&no_value), IncomingMessage::Ignored));
    assert!(config_value_acceptable("lyrics_char_color_played", &js("#00ff00")));
    assert!(config_value_acceptable("lyrics_char_color_unplayed", &js(" AUTO ")));
    assert!(!config_value_acceptable("lyrics_char_color_played", &js("green")));
    assert!(!config_value_acceptable("lyrics_char_color_played", &jn(3)));
    assert!(config_value_acceptable("font_size", &jn(3)));
}

#[test]
fn commands_from_the_plugin() {
    let get = plugin_command(jobj(vec![("action", js("get_config"))]));
    assert!(matches!(decode_incoming_message(&get), IncomingMessage::GetConfig));
    let disabled = plugin_command(jobj(vec![("action", js("disabled"))]));
    assert!(matches!(decode_incoming_message(&disabled), IncomingMessage::Disabled));
    let picker = plugin_command(jobj(vec![("action", js("open_font_picker"))]));
    assert!(matches!(decode_incoming_message(&picker), IncomingMessage::OpenFontPicker));
    let home = plugin_command(jobj(vec![("action", js("open_homepage"))]));
    assert!(matches!(decode_incoming_message(&home), IncomingMessage::OpenHomepage));
    let upd = plugin_command(jobj(vec![("action", js("check_updates_now"))]));
    assert!(matches!(decode_incoming_message(&upd), IncomingMessage::CheckUpdatesNow));
    let play = plugin_command(jobj(vec![
        ("action", js("play")),
        ("data", jobj(vec![("position_ms", jn(1200))])),
    ]));
    assert!(matches!(
        decode_incoming_message(&play),
        IncomingMessage::Plugin(PluginEvent::PlaybackAction { action: PlayAction::Play, position_ms: 1200 })
    ));
    let volume = plugin_command(jobj(vec![
        ("action", js("set_volume")),
        ("data", jobj(vec![("volume", jn(0))])),
    ]));
    assert!(matches!(decode_incoming_message(&volume), IncomingMessage::Plugin(PluginEvent::SetVolume)));
    let bare_volume = plugin_command(jobj(vec![("action", js("set_volume"))]));
    assert!(matches!(decode_incoming_message(&bare_volume), IncomingMessage::Ignored));
    let unknown = plugin_command(jobj(vec![("action", js("dance"))]));
    assert!(matches!(decode_incoming_message(&unknown), IncomingMessage::Ignored));
}

#[test]
fn own_commands_coming_back_are_ignored() {
    let echoed = command_message("seek", Some(seek_data(5)));
    assert!(matches!(decode_incoming_message(&echoed), IncomingMessage::Ignored));
    let no_source = jobj(vec![("type", js("command")), ("payload", jobj(vec![("action", js("play"))]))]);
    assert!(matches!(decode_incoming_message(&no_source), IncomingMessage::Ignored));
}

#[test]
fn plugin_playback_reports() {
    let pos = jobj(vec![
        ("action", js("position")),
        ("data", jobj(vec![("position_ms", jn(10)), ("duration_ms", jn(20)), ("is_playing", JsonValue::Bool(true))])),
    ]);
    assert!(matches!(
        decode_plugin_command(&pos),
        Some(PluginEvent::PlaybackState { position_ms: 10, duration_ms: 20, is_playing: true })
    ));
    let no_data = jobj(vec![("action", js("position"))]);
    assert!(decode_plugin_command(&no_data).is_none());
    let next = jobj(vec![("action", js("next")), ("data", jobj(vec![("position_ms", jn(10))]))]);
    assert!(matches!(
        decode_plugin_command(&next),
        Some(PluginEvent::PlaybackAction { action: PlayAction::Next, position_ms: 0 })
    ));
    let seek = jobj(vec![("action", js("seek"))]);
    assert!(matches!(
        decode_plugin_command(&seek),
        Some(PluginEvent::PlaybackAction { action: PlayAction::Seek, position_ms: 0 })
    ));
    let fav = jobj(vec![
        ("action", js("set_favorite")),
        ("data", jobj(vec![("is_favorite", JsonValue::Bool(true)), ("id", js("  77 "))])),
    ]);
    match decode_plugin_command(&fav) {
        Some(PluginEvent::FavoriteState { is_favorite, track_id }) => {
            assert!(is_favorite);
            assert_eq!(track_id.as_deref(), Some("77"));
        }
        _ => panic!("expected a favourite report"),
    }
    let fav_no_flag = jobj(vec![("action", js("set_favorite")), ("data", jobj(vec![]))]);
    assert!(decode_plugin_command(&fav_no_flag).is_none());
    let mode = jobj(vec![("action", js("set_play_mode")), ("data", jobj(vec![("mode", js("random"))]))]);
    match decode_plugin_command(&mode) {
        Some(PluginEvent::PlayModeState { mode }) => assert_eq!(mode, "random"),
        _ => panic!("expected a play mode"),
    }
    let mode_default = jobj(vec![("action", js("set_play_mode"))]);
    match decode_plugin_command(&mode_default) {
        Some(PluginEvent::PlayModeState { mode }) => assert_eq!(mode, "list"),
        _ => panic!("expected a play mode"),
    }
    let volume = jobj(vec![("action", js("set_volume")), ("data", jobj(vec![("volume", jn(1))]))]);
    assert!(matches!(decode_plugin_command(&volume), Some(PluginEvent::SetVolume)));
    let fractional = JsonValue::Number(JsonNumber { as_u64: None, rounded_u64: Some(1) });
    let volume_half = jobj(vec![("action", js("set_volume")), ("data", jobj(vec![("volume", fractional)]))]);
    assert!(matches!(decode_plugin_command(&volume_half), Some(PluginEvent::SetVolume)));
    assert!(decode_plugin_command(&jobj(vec![("action", js("set_volume"))])).is_none());
    let volume_text = jobj(vec![("action", js("set_volume")), ("data", jobj(vec![("volume", js("0.5"))]))]);
    assert!(decode_plugin_command(&volume_text).is_none());
    let volume_missing = jobj(vec![("action", js("set_volume")), ("data", jobj(vec![("level", jn(1))]))]);
    assert!(decode_plugin_command(&volume_missing).is_none());
    assert!(matches!(
        decode_plugin_command(&jobj(vec![("action", js("show_main_window"))])),
        Some(PluginEvent::ShowMainWindow)
    ));
}

fn member<'a>(v: &'a JsonValue, key: &str) -> Option<&'a JsonValue> {
    v.get(key)
}

#[test]
fn outgoing_messages() {
    let pong = pong_message();
    assert_eq!(member(&pong, "type").and_then(|t| t.as_str()), Some("pong"));
    let cmd = command_message("request_track_lyrics", None);
    assert_eq!(member(&cmd, "type").and_then(|t| t.as_str()), Some("command"));
    assert_eq!(member(&cmd, "source").and_then(|t| t.as_str()), Some("server"));
    let payload = member(&cmd, "payload").unwrap();
    assert_eq!(member(payload, "action").and_then(|t| t.as_str()), Some("request_track_lyrics"));
    assert!(member(payload, "data").is_none());
    let fav = set_favorite_data(true, Some("  ".to_string()));
    assert!(member(&fav, "id").is_none());
    assert_eq!(member(&fav, "is_favorite").and_then(|b| b.as_bool()), Some(true));
    let fav = set_favorite_data(false, Some("12".to_string()));
    assert_eq!(member(&fav, "id").and_then(|b| b.as_str()), Some("12"));
    assert_eq!(member(&seek_data(99), "position_ms").and_then(|b| b.as_u64()), Some(99));
    assert_eq!(member(&play_mode_data("single"), "mode").and_then(|b| b.as_str()), Some("single"));
    assert_eq!(json_string("x").as_str(), Some("x"));
}

#[test]
fn sent_data_reads_back() {
    let seek = jobj(vec![("action", js("seek")), ("data", seek_data(5))]);
    assert!(matches!(
        decode_plugin_command(&seek),
        Some(PluginEvent::PlaybackAction { action: PlayAction::Seek, position_ms: 5 })
    ));
    let fav = jobj(vec![("action", js("set_favorite")), ("data", set_favorite_data(true, Some(" 77 ".to_string())))]);
    match decode_plugin_command(&fav) {
        Some(PluginEvent::FavoriteState { is_favorite, track_id }) => {
            assert!(is_favorite);
            assert_eq!(track_id.as_deref(), Some("77"));
        }
        _ => panic!("expected a favourite report"),
    }
    let fav = jobj(vec![("action", js("set_favorite")), ("data", set_favorite_data(false, None))]);
    assert!(matches!(
        decode_plugin_command(&fav),
        Some(PluginEvent::FavoriteState { is_favorite: false, track_id: None })
    ));
}
