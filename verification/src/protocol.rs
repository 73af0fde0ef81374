use vstd::prelude::*;

use crate::config::{is_valid_color, valid_color_spec};
use crate::json::{JsonNumber, JsonValue};
use crate::lyrics::{
    array_member, opt_string_view, parse_music_data_payload, music_payload_spec, str_member,
    MusicData, MusicDataView,
};
use crate::media_state::PlayAction;
use crate::text::{str_equal, trim, trimmed};

verus! {

broadcast use vstd::string::group_string_axioms;

/// What a plugin's playback command reports.
pub enum PluginEvent {
    PlaybackAction { action: PlayAction, position_ms: u64 },
    PlaybackState { position_ms: u64, duration_ms: u64, is_playing: bool },
    FavoriteState { is_favorite: bool, track_id: Option<String> },
    /// A volume report, given only when `data.volume` is a number; the number itself
    /// is read by the caller.
    SetVolume,
    ShowMainWindow,
    PlayModeState { mode: String },
}

pub enum PluginEventView {
    PlaybackAction { action: PlayAction, position_ms: u64 },
    PlaybackState { position_ms: u64, duration_ms: u64, is_playing: bool },
    FavoriteState { is_favorite: bool, track_id: Option<Seq<char>> },
    SetVolume,
    ShowMainWindow,
    PlayModeState { mode: Seq<char> },
}

impl View for PluginEvent {
    type V = PluginEventView;

    open spec fn view(&self) -> PluginEventView {
        match self {
            PluginEvent::PlaybackAction { action, position_ms } => PluginEventView::PlaybackAction {
                action: *action,
                position_ms: *position_ms,
            },
            PluginEvent::PlaybackState { position_ms, duration_ms, is_playing } =>
                PluginEventView::PlaybackState {
                position_ms: *position_ms,
                duration_ms: *duration_ms,
                is_playing: *is_playing,
            },
            PluginEvent::FavoriteState { is_favorite, track_id } => PluginEventView::FavoriteState {
                is_favorite: *is_favorite,
                track_id: opt_string_view(*track_id),
            },
            PluginEvent::SetVolume => PluginEventView::SetVolume,
            PluginEvent::ShowMainWindow => PluginEventView::ShowMainWindow,
            PluginEvent::PlayModeState { mode } => PluginEventView::PlayModeState { mode: mode@ },
        }
    }
}

/// Member `key` of `v` as an unsigned integer.
pub open spec fn u64_member(v: JsonValue, key: Seq<char>) -> Option<u64> {
    match v.spec_get(key) {
        Some(m) => m.spec_as_u64(),
        None => None,
    }
}

/// Member `key` of `v` as a boolean.
pub open spec fn bool_member(v: JsonValue, key: Seq<char>) -> Option<bool> {
    match v.spec_get(key) {
        Some(m) => m.spec_as_bool(),
        None => None,
    }
}

/// Member `key` of `v` as an unsigned integer, 0 when it is missing or not one.
pub open spec fn u64_or_zero(v: Option<JsonValue>, key: Seq<char>) -> u64 {
    match v {
        Some(d) => match u64_member(d, key) {
            Some(n) => n,
            None => 0,
        },
        None => 0,
    }
}

/// Whether `data` holds a member `volume` that is a number.
pub open spec fn volume_is_number(data: Option<JsonValue>) -> bool {
    match data {
        Some(d) => match d.spec_get("volume"@) {
            Some(JsonValue::Number(_)) => true,
            _ => false,
        },
        None => false,
    }
}

/// What a plugin command `payload` (with member `action` and optional `data`) reports;
/// `None` for an unknown or incomplete command.
pub open spec fn plugin_event_spec(payload: JsonValue) -> Option<PluginEventView> {
    let data = payload.spec_get("data"@);
    let position_ms = u64_or_zero(data, "position_ms"@);
    match str_member(payload, "action"@) {
        None => None,
        Some(a) => if a == "play"@ {
            Some(PluginEventView::PlaybackAction { action: PlayAction::Play, position_ms })
        } else if a == "pause"@ {
            Some(PluginEventView::PlaybackAction { action: PlayAction::Pause, position_ms })
        } else if a == "seek"@ {
            Some(PluginEventView::PlaybackAction { action: PlayAction::Seek, position_ms })
        } else if a == "next"@ {
            Some(PluginEventView::PlaybackAction { action: PlayAction::Next, position_ms: 0 })
        } else if a == "prev"@ {
            Some(PluginEventView::PlaybackAction { action: PlayAction::Prev, position_ms: 0 })
        } else if a == "position"@ {
            match data {
                None => None,
                Some(d) => Some(
                    PluginEventView::PlaybackState {
                        position_ms: u64_or_zero(data, "position_ms"@),
                        duration_ms: u64_or_zero(data, "duration_ms"@),
                        is_playing: match bool_member(d, "is_playing"@) {
                            Some(b) => b,
                            None => false,
                        },
                    },
                ),
            }
        } else if a == "set_favorite"@ {
            match data {
                None => None,
                Some(d) => match bool_member(d, "is_favorite"@) {
                    None => None,
                    Some(f) => Some(
                        PluginEventView::FavoriteState {
                            is_favorite: f,
                            track_id: match str_member(d, "id"@) {
                                Some(s) => if trim(s).len() > 0 {
                                    Some(trim(s))
                                } else {
                                    None
                                },
                                None => None,
                            },
                        },
                    ),
                },
            }
        } else if a == "set_volume"@ {
            if volume_is_number(data) {
                Some(PluginEventView::SetVolume)
            } else {
                None
            }
        } else if a == "show_main_window"@ {
            Some(PluginEventView::ShowMainWindow)
        } else if a == "set_play_mode"@ {
            Some(
                PluginEventView::PlayModeState {
                    mode: match data {
                        Some(d) => match str_member(d, "mode"@) {
                            Some(m) => m,
                            None => "list"@,
                        },
                        None => "list"@,
                    },
                },
            )
        } else {
            None
        },
    }
}

fn u64_or_zero_exec(data: Option<&JsonValue>, key: &str) -> (r: u64)
    ensures
        r == u64_or_zero(
            match data {
                Some(d) => Some(*d),
                None => None,
            },
            key@,
        ),
{
    match data {
        Some(d) => match d.get(key) {
            Some(m) => match m.as_u64() {
                Some(n) => n,
                None => 0,
            },
            None => 0,
        },
        None => 0,
    }
}

fn str_member_exec<'a>(v: &'a JsonValue, key: &str) -> (r: Option<&'a str>)
    ensures
        match r {
            Some(s) => str_member(*v, key@) == Some(s@),
            None => str_member(*v, key@) is None,
        },
{
    match v.get(key) {
        Some(m) => m.as_str(),
        None => None,
    }
}

fn bool_member_exec(v: &JsonValue, key: &str) -> (r: Option<bool>)
    ensures
        r == bool_member(*v, key@),
{
    match v.get(key) {
        Some(m) => m.as_bool(),
        None => None,
    }
}

/// What a plugin command reports (see `plugin_event_spec`).
pub fn decode_plugin_command(payload: &JsonValue) -> (r: Option<PluginEvent>)
    ensures
        match r {
            Some(e) => plugin_event_spec(*payload) == Some(e@),
            None => plugin_event_spec(*payload) is None,
        },
{
    let action = match str_member_exec(payload, "action") {
        Some(a) => a,
        None => {
            return None;
        },
    };
    let data = payload.get("data");
    let ghost data_v = match data {
        Some(d) => Some(*d),
        None => None::<JsonValue>,
    };
    assert(data_v == payload.spec_get("data"@));
    let position_ms = u64_or_zero_exec(data, "position_ms");
    if str_equal(action, "play") {
        Some(PluginEvent::PlaybackAction { action: PlayAction::Play, position_ms })
    } else if str_equal(action, "pause") {
        Some(PluginEvent::PlaybackAction { action: PlayAction::Pause, position_ms })
    } else if str_equal(action, "seek") {
        Some(PluginEvent::PlaybackAction { action: PlayAction::Seek, position_ms })
    } else if str_equal(action, "next") {
        Some(PluginEvent::PlaybackAction { action: PlayAction::Next, position_ms: 0 })
    } else if str_equal(action, "prev") {
        Some(PluginEvent::PlaybackAction { action: PlayAction::Prev, position_ms: 0 })
    } else if str_equal(action, "position") {
        match data {
            None => None,
            Some(d) => {
                let duration_ms = u64_or_zero_exec(data, "duration_ms");
                let is_playing = match bool_member_exec(d, "is_playing") {
                    Some(b) => b,
                    None => false,
                };
                Some(PluginEvent::PlaybackState { position_ms, duration_ms, is_playing })
            },
        }
    } else if str_equal(action, "set_favorite") {
        match data {
            None => None,
            Some(d) => match bool_member_exec(d, "is_favorite") {
                None => None,
                Some(f) => {
                    let track_id = match str_member_exec(d, "id") {
                        Some(s) => {
                            let t = trimmed(s);
                            if t.as_str().is_empty() {
                                None
                            } else {
                                Some(t)
                            }
                        },
                        None => None,
                    };
                    Some(PluginEvent::FavoriteState { is_favorite: f, track_id })
                },
            },
        }
    } else if str_equal(action, "set_volume") {
        match data {
            Some(d) => match d.get("volume") {
                Some(JsonValue::Number(_)) => Some(PluginEvent::SetVolume),
                _ => None,
            },
            None => None,
        }
    } else if str_equal(action, "show_main_window") {
        Some(PluginEvent::ShowMainWindow)
    } else if str_equal(action, "set_play_mode") {
        let mode = match data {
            Some(d) => match str_member_exec(d, "mode") {
                Some(m) => m.to_string(),
                None => "list".to_string(),
            },
            None => "list".to_string(),
        };
        Some(PluginEvent::PlayModeState { mode })
    } else {
        None
    }
}

/// What a text message from a plugin asks for.
pub enum IncomingMessage {
    /// Answer with a `pong`.
    Ping,
    /// The plugin subscribed; ask it for the current track's lyrics.
    Subscribe,
    /// The current track's metadata and lyrics.
    MusicData(MusicData),
    /// Store `value` (the message's `payload.value`) under the configuration field `path`.
    ConfigUpdate { path: String },
    /// Send the whole configuration.
    GetConfig,
    OpenFontPicker,
    CheckUpdatesNow,
    OpenHomepage,
    /// The plugin was disabled: the island closes.
    Disabled,
    /// A playback report.
    Plugin(PluginEvent),
    /// A lyrics message of the retired protocol, which is only logged.
    LegacyLyrics,
    /// Nothing to do.
    Ignored,
}

pub enum IncomingMessageView {
    Ping,
    Subscribe,
    MusicData(MusicDataView),
    ConfigUpdate { path: Seq<char> },
    GetConfig,
    OpenFontPicker,
    CheckUpdatesNow,
    OpenHomepage,
    Disabled,
    Plugin(PluginEventView),
    LegacyLyrics,
    Ignored,
}

impl View for IncomingMessage {
    type V = IncomingMessageView;

    open spec fn view(&self) -> IncomingMessageView {
        match self {
            IncomingMessage::Ping => IncomingMessageView::Ping,
            IncomingMessage::Subscribe => IncomingMessageView::Subscribe,
            IncomingMessage::MusicData(d) => IncomingMessageView::MusicData(d@),
            IncomingMessage::ConfigUpdate { path } => IncomingMessageView::ConfigUpdate { path: path@ },
            IncomingMessage::GetConfig => IncomingMessageView::GetConfig,
            IncomingMessage::OpenFontPicker => IncomingMessageView::OpenFontPicker,
            IncomingMessage::CheckUpdatesNow => IncomingMessageView::CheckUpdatesNow,
            IncomingMessage::OpenHomepage => IncomingMessageView::OpenHomepage,
            IncomingMessage::Disabled => IncomingMessageView::Disabled,
            IncomingMessage::Plugin(e) => IncomingMessageView::Plugin(e@),
            IncomingMessage::LegacyLyrics => IncomingMessageView::LegacyLyrics,
            IncomingMessage::Ignored => IncomingMessageView::Ignored,
        }
    }
}

/// What a `command` message's `payload` asks for.
pub open spec fn command_spec(payload: JsonValue) -> IncomingMessageView {
    match str_member(payload, "action"@) {
        Some(a) => if a == "get_config"@ {
            IncomingMessageView::GetConfig
        } else if a == "open_font_picker"@ {
            IncomingMessageView::OpenFontPicker
        } else if a == "check_updates_now"@ {
            IncomingMessageView::CheckUpdatesNow
        } else if a == "open_homepage"@ {
            IncomingMessageView::OpenHomepage
        } else if a == "disabled"@ {
            IncomingMessageView::Disabled
        } else {
            plugin_command_view(payload)
        },
        None => plugin_command_view(payload),
    }
}

/// A playback report, or nothing.
pub open spec fn plugin_command_view(payload: JsonValue) -> IncomingMessageView {
    match plugin_event_spec(payload) {
        Some(e) => IncomingMessageView::Plugin(e),
        None => IncomingMessageView::Ignored,
    }
}

/// What a plugin's message (already read as JSON) asks for, by its `type`: `ping`,
/// `subscribe`, `MusicData` (with a payload that reads as a track), `config_update`
/// (with a string `path` other than `custom_font_path` and a `value`), `command` (sent
/// by the plugin, with a payload), and the retired `track_lyrics` and `lyrics`; anything
/// else is ignored.
pub open spec fn incoming_spec(msg: JsonValue) -> IncomingMessageView {
    match str_member(msg, "type"@) {
        None => IncomingMessageView::Ignored,
        Some(t) => if t == "ping"@ {
            IncomingMessageView::Ping
        } else if t == "subscribe"@ {
            IncomingMessageView::Subscribe
        } else if t == "MusicData"@ {
            match msg.spec_get("payload"@) {
                Some(p) => match music_payload_spec(p) {
                    Some(d) => IncomingMessageView::MusicData(d),
                    None => IncomingMessageView::Ignored,
                },
                None => IncomingMessageView::Ignored,
            }
        } else if t == "config_update"@ {
            match msg.spec_get("payload"@) {
                Some(p) => match (str_member(p, "path"@), p.spec_get("value"@)) {
                    (Some(path), Some(_)) => if path != "custom_font_path"@ {
                        IncomingMessageView::ConfigUpdate { path }
                    } else {
                        IncomingMessageView::Ignored
                    },
                    _ => IncomingMessageView::Ignored,
                },
                None => IncomingMessageView::Ignored,
            }
        } else if t == "command"@ {
            if str_member(msg, "source"@) != Some("plugin"@) {
                IncomingMessageView::Ignored
            } else {
                match msg.spec_get("payload"@) {
                    Some(p) => command_spec(p),
                    None => IncomingMessageView::Ignored,
                }
            }
        } else if t == "track_lyrics"@ || t == "lyrics"@ {
            IncomingMessageView::LegacyLyrics
        } else {
            IncomingMessageView::Ignored
        },
    }
}

fn decode_command(payload: &JsonValue) -> (r: IncomingMessage)
    ensures
        r@ == command_spec(*payload),
{
    let plugin = |p: &JsonValue| -> (r: IncomingMessage)
        ensures
            r@ == plugin_command_view(*p),
        {
            match decode_plugin_command(p) {
                Some(e) => IncomingMessage::Plugin(e),
                None => IncomingMessage::Ignored,
            }
        };
    match str_member_exec(payload, "action") {
        Some(a) => if str_equal(a, "get_config") {
            IncomingMessage::GetConfig
        } else if str_equal(a, "open_font_picker") {
            IncomingMessage::OpenFontPicker
        } else if str_equal(a, "check_updates_now") {
            IncomingMessage::CheckUpdatesNow
        } else if str_equal(a, "open_homepage") {
            IncomingMessage::OpenHomepage
        } else if str_equal(a, "disabled") {
            IncomingMessage::Disabled
        } else {
            plugin(payload)
        },
        None => plugin(payload),
    }
}

/// What a plugin's message asks for (see `incoming_spec`).
pub fn decode_incoming_message(msg: &JsonValue) -> (r: IncomingMessage)
    ensures
        r@ == incoming_spec(*msg),
{
    let t = match str_member_exec(msg, "type") {
        Some(t) => t,
        None => {
            return IncomingMessage::Ignored;
        },
    };
    if str_equal(t, "ping") {
        IncomingMessage::Ping
    } else if str_equal(t, "subscribe") {
        IncomingMessage::Subscribe
    } else if str_equal(t, "MusicData") {
        match msg.get("payload") {
            Some(p) => match parse_music_data_payload(p) {
                Some(d) => IncomingMessage::MusicData(d),
                None => IncomingMessage::Ignored,
            },
            None => IncomingMessage::Ignored,
        }
    } else if str_equal(t, "config_update") {
        match msg.get("payload") {
            Some(p) => {
                let path = str_member_exec(p, "path");
                let value = p.get("value");
                match (path, value) {
                    (Some(path), Some(_)) => if !str_equal(path, "custom_font_path") {
                        IncomingMessage::ConfigUpdate { path: path.to_string() }
                    } else {
                        IncomingMessage::Ignored
                    },
                    _ => IncomingMessage::Ignored,
                }
            },
            None => IncomingMessage::Ignored,
        }
    } else if str_equal(t, "command") {
        let from_plugin = match str_member_exec(msg, "source") {
            Some(src) => str_equal(src, "plugin"),
            None => false,
        };
        if !from_plugin {
            return IncomingMessage::Ignored;
        }
        match msg.get("payload") {
            Some(p) => decode_command(p),
            None => IncomingMessage::Ignored,
        }
    } else if str_equal(t, "track_lyrics") || str_equal(t, "lyrics") {
        IncomingMessage::LegacyLyrics
    } else {
        IncomingMessage::Ignored
    }
}

/// Whether a configuration update may store `value` under `path`: the two lyric colour
/// fields only take a string that is a valid colour.
pub open spec fn config_value_acceptable_spec(path: Seq<char>, value: JsonValue) -> bool {
    (path == "lyrics_char_color_unplayed"@ || path == "lyrics_char_color_played"@) ==> (match value.spec_as_str() {
        Some(s) => valid_color_spec(s),
        None => false,
    })
}

/// Whether a configuration update may store `value` under `path`.
pub fn config_value_acceptable(path: &str, value: &JsonValue) -> (r: bool)
    ensures
        r == config_value_acceptable_spec(path@, *value),
{
    if str_equal(path, "lyrics_char_color_unplayed") || str_equal(path, "lyrics_char_color_played") {
        match value.as_str() {
            Some(s) => is_valid_color(s),
            None => false,
        }
    } else {
        true
    }
}

/// A JSON string value.
pub fn json_string(s: &str) -> (r: JsonValue)
    ensures
        r.spec_as_str() == Some(s@),
{
    JsonValue::Str(s.to_string())
}

/// The answer to a `ping`: `{"type": "pong"}`.
pub fn pong_message() -> (r: JsonValue)
    ensures
        r.spec_get("type"@) matches Some(t) && t.spec_as_str() == Some("pong"@),
        r.spec_object_len() == Some(1nat),
{
    let mut members: Vec<(String, JsonValue)> = Vec::new();
    members.push(("type".to_string(), json_string("pong")));
    JsonValue::Object(members)
}

/// A command to the plugin: `{"type": "command", "source": "server", "payload":
/// {"action": action, "data": data}}`, `data` present only when given.
pub fn command_message(action: &str, data: Option<JsonValue>) -> (r: JsonValue)
    ensures
        str_member(r, "type"@) == Some("command"@),
        str_member(r, "source"@) == Some("server"@),
        r.spec_get("payload"@) matches Some(p) && {
            &&& str_member(p, "action"@) == Some(action@)
            &&& (data is None ==> p.spec_get("data"@) is None && p.spec_object_len() == Some(1nat))
            &&& (data is Some ==> p.spec_get("data"@) == data && p.spec_object_len() == Some(2nat))
        },
        r.spec_object_len() == Some(3nat),
{
    proof {
        reveal_strlit("type");
        reveal_strlit("source");
        reveal_strlit("payload");
        reveal_strlit("action");
        reveal_strlit("data");
    }
    let mut payload: Vec<(String, JsonValue)> = Vec::new();
    payload.push(("action".to_string(), json_string(action)));
    let has_data = data.is_some();
    match data {
        Some(d) => {
            payload.push(("data".to_string(), d));
        },
        None => {},
    }
    let ghost pm = payload@;
    assert(pm[0].0@ == "action"@);
    assert(has_data ==> pm[1].0@ == "data"@);
    assert("action"@.len() != "data"@.len());
    assert(has_data ==> pm.drop_first()[0] == pm[1]);
    let mut members: Vec<(String, JsonValue)> = Vec::new();
    members.push(("type".to_string(), json_string("command")));
    members.push(("source".to_string(), json_string("server")));
    members.push(("payload".to_string(), JsonValue::Object(payload)));
    let ghost mm = members@;
    assert("type"@.len() != "source"@.len());
    assert("type"@.len() != "payload"@.len() && "source"@.len() != "payload"@.len());
    assert(mm.drop_first()[0] == mm[1]);
    assert(mm.drop_first().drop_first()[0] == mm[2]);
    proof {
        reveal_with_fuel(crate::json::member, 4);
    }
    JsonValue::Object(members)
}

/// The data of a favourite command: `{"id": track_id, "is_favorite": is_favorite}`, the id
/// left out when it is missing or blank.
pub fn set_favorite_data(is_favorite: bool, track_id: Option<String>) -> (r: JsonValue)
    ensures
        r.spec_get("is_favorite"@) == Some(JsonValue::Bool(is_favorite)),
        match track_id {
            Some(id) => if trim(id@).len() > 0 {
                str_member(r, "id"@) == Some(id@) && r.spec_object_len() == Some(2nat)
            } else {
                r.spec_get("id"@) is None && r.spec_object_len() == Some(1nat)
            },
            None => r.spec_get("id"@) is None && r.spec_object_len() == Some(1nat),
        },
{
    proof {
        reveal_strlit("id");
        reveal_strlit("is_favorite");
        assert("id"@.len() != "is_favorite"@.len());
    }
    let id = match track_id {
        Some(id) => {
            let t = trimmed(id.as_str());
            if t.as_str().is_empty() {
                None
            } else {
                Some(id)
            }
        },
        None => None,
    };
    let mut members: Vec<(String, JsonValue)> = Vec::new();
    match id {
        Some(id) => {
            members.push(("id".to_string(), JsonValue::Str(id)));
        },
        None => {},
    }
    members.push(("is_favorite".to_string(), JsonValue::Bool(is_favorite)));
    let ghost mm = members@;
    assert(mm.len() == 2 ==> mm.drop_first()[0] == mm[1]);
    proof {
        reveal_with_fuel(crate::json::member, 3);
    }
    JsonValue::Object(members)
}

/// The data of a seek command: `{"position_ms": position_ms}`.
pub fn seek_data(position_ms: u64) -> (r: JsonValue)
    ensures
        r.spec_get("position_ms"@) == Some(
            JsonValue::Number(JsonNumber { as_u64: Some(position_ms), rounded_u64: Some(position_ms) }),
        ),
        r.spec_object_len() == Some(1nat),
{
    let mut members: Vec<(String, JsonValue)> = Vec::new();
    members.push(
        (
            "position_ms".to_string(),
            JsonValue::Number(JsonNumber { as_u64: Some(position_ms), rounded_u64: Some(position_ms) }),
        ),
    );
    JsonValue::Object(members)
}

/// The data of a play mode command: `{"mode": mode}`.
pub fn play_mode_data(mode: &str) -> (r: JsonValue)
    ensures
        str_member(r, "mode"@) == Some(mode@),
        r.spec_object_len() == Some(1nat),
{
    let mut members: Vec<(String, JsonValue)> = Vec::new();
    members.push(("mode".to_string(), json_string(mode)));
    JsonValue::Object(members)
}

/// A command that the island itself sends (`type` `command`, `source` `server`, as
/// `command_message` builds it) is ignored if it ever comes back: only a plugin's commands
/// are acted on.
pub proof fn lemma_own_commands_ignored(msg: JsonValue)
    requires
        str_member(msg, "type"@) == Some("command"@),
        str_member(msg, "source"@) == Some("server"@),
    ensures
        incoming_spec(msg) == IncomingMessageView::Ignored,
{
    reveal_strlit("command");
    reveal_strlit("server");
    reveal_strlit("plugin");
    reveal_strlit("ping");
    reveal_strlit("subscribe");
    reveal_strlit("MusicData");
    reveal_strlit("config_update");
    assert("command"@.len() != "ping"@.len());
    assert("command"@.len() != "subscribe"@.len());
    assert("command"@[0] != "MusicData"@[0]);
    assert("command"@ != "config_update"@);
    assert("server"@[0] != "plugin"@[0]);
}

/// A seek that a plugin reports with the data the island sends for one (`seek_data`) reads
/// back as a seek to the same position.
pub proof fn lemma_seek_reads_back(payload: JsonValue, position_ms: u64)
    requires
        str_member(payload, "action"@) == Some("seek"@),
        payload.spec_get("data"@) matches Some(d) && d.spec_get("position_ms"@) == Some(
            JsonValue::Number(JsonNumber { as_u64: Some(position_ms), rounded_u64: Some(position_ms) }),
        ),
    ensures
        plugin_event_spec(payload) == Some(
            PluginEventView::PlaybackAction { action: PlayAction::Seek, position_ms },
        ),
{
    reveal_strlit("seek");
    reveal_strlit("play");
    reveal_strlit("pause");
    assert("seek"@[0] != "play"@[0]);
    assert("seek"@.len() != "pause"@.len());
}

/// A favourite state that a plugin reports with the data the island sends for one
/// (`set_favorite_data`: the flag, and the id when it is not blank) reads back as that
/// flag and that id, trimmed.
pub proof fn lemma_favorite_reads_back(payload: JsonValue, is_favorite: bool, id: Option<Seq<char>>)
    requires
        str_member(payload, "action"@) == Some("set_favorite"@),
        payload.spec_get("data"@) matches Some(d) && {
            &&& d.spec_get("is_favorite"@) == Some(JsonValue::Bool(is_favorite))
            &&& match id {
                Some(i) => str_member(d, "id"@) == Some(i) && trim(i).len() > 0,
                None => d.spec_get("id"@) is None,
            }
        },
    ensures
        plugin_event_spec(payload) == Some(
            PluginEventView::FavoriteState {
                is_favorite,
                track_id: match id {
                    Some(i) => Some(trim(i)),
                    None => None,
                },
            },
        ),
{
    reveal_strlit("set_favorite");
    reveal_strlit("play");
    reveal_strlit("pause");
    reveal_strlit("seek");
    reveal_strlit("next");
    reveal_strlit("prev");
    reveal_strlit("position");
    assert("set_favorite"@.len() != "play"@.len());
    assert("set_favorite"@.len() != "pause"@.len());
    assert("set_favorite"@.len() != "position"@.len());
}


/// A play, pause or seek command reports the position its data carries as an unsigned
/// integer in `position_ms`, with the action it names.
pub proof fn lemma_playback_actions_carry_position(payload: JsonValue, position_ms: u64)
    requires
        payload.spec_get("data"@) matches Some(d) && (d.spec_get("position_ms"@) matches Some(
            m,
        ) && m.spec_as_u64() == Some(position_ms)),
    ensures
        str_member(payload, "action"@) == Some("play"@) ==> plugin_event_spec(payload) == Some(
            PluginEventView::PlaybackAction { action: PlayAction::Play, position_ms },
        ),
        str_member(payload, "action"@) == Some("pause"@) ==> plugin_event_spec(payload) == Some(
            PluginEventView::PlaybackAction { action: PlayAction::Pause, position_ms },
        ),
        str_member(payload, "action"@) == Some("seek"@) ==> plugin_event_spec(payload) == Some(
            PluginEventView::PlaybackAction { action: PlayAction::Seek, position_ms },
        ),
{
    reveal_strlit("seek");
    reveal_strlit("play");
    reveal_strlit("pause");
    assert("seek"@[0] != "play"@[0]);
    assert("seek"@.len() != "pause"@.len());
    assert("pause"@.len() != "play"@.len());
}

/// A play, pause or seek command whose data carries no unsigned integer `position_ms`
/// reports position 0.
pub proof fn lemma_playback_actions_default_position(payload: JsonValue)
    requires
        !(payload.spec_get("data"@) matches Some(d) && (d.spec_get("position_ms"@) matches Some(
            m,
        ) && m.spec_as_u64() is Some)),
    ensures
        str_member(payload, "action"@) == Some("play"@) ==> plugin_event_spec(payload) == Some(
            PluginEventView::PlaybackAction { action: PlayAction::Play, position_ms: 0 },
        ),
        str_member(payload, "action"@) == Some("pause"@) ==> plugin_event_spec(payload) == Some(
            PluginEventView::PlaybackAction { action: PlayAction::Pause, position_ms: 0 },
        ),
        str_member(payload, "action"@) == Some("seek"@) ==> plugin_event_spec(payload) == Some(
            PluginEventView::PlaybackAction { action: PlayAction::Seek, position_ms: 0 },
        ),
{
    reveal_strlit("seek");
    reveal_strlit("play");
    reveal_strlit("pause");
    assert("seek"@[0] != "play"@[0]);
    assert("seek"@.len() != "pause"@.len());
    assert("pause"@.len() != "play"@.len());
}

} // verus!
