use echomusic_lyrics_winisland::color::parse_hex_color;
use echomusic_lyrics_winisland::lyric_filter::regex_pattern_valid;
use echomusic_lyrics_winisland::config::{
    default_dock_position, default_language, default_lyrics_char_color_played,
    default_lyrics_filter_regex, default_lyrics_filter_scope, default_process_dock_rules,
    config_side_effects, is_valid_color, normalize_text_settings, ConfigSideEffects, resolve_dock_position, DockPosition,
    LyricsFilterScope, ProcessDockRule, TextSettings, DEFAULT_LYRICS_FILTER_REGEX,
};

const ALL_DOCKS: [DockPosition; 6] = [
    DockPosition::TopCenter,
    DockPosition::TopLeft,
    DockPosition::TopRight,
    DockPosition::BottomCenter,
    DockPosition::BottomLeft,
    DockPosition::BottomRight,
];

#[test]
fn dock_names_round_trip() {
    for d in ALL_DOCKS {
        assert_eq!(DockPosition::from_name(d.as_str()), Some(d));
    }
    assert_eq!(DockPosition::from_name("middle"), None);
    assert_eq!(DockPosition::from_name_or_default("middle"), DockPosition::TopCenter);
    assert_eq!(DockPosition::from("bottom_left".to_string()), DockPosition::BottomLeft);
    assert_eq!("top_right".parse::<DockPosition>().ok(), Some(DockPosition::TopRight));
    assert_eq!(DockPosition::default(), DockPosition::TopCenter);
}

#[test]
fn dock_sides() {
    assert!(DockPosition::BottomLeft.is_bottom() && DockPosition::BottomLeft.is_left());
    assert!(DockPosition::TopRight.is_right() && !DockPosition::TopRight.is_bottom());
    assert!(!DockPosition::TopCenter.is_left() && !DockPosition::TopCenter.is_right());
}

#[test]
fn scope_names_round_trip() {
    for s in [LyricsFilterScope::Off, LyricsFilterScope::Desktop, LyricsFilterScope::All] {
        assert_eq!(LyricsFilterScope::from_name(s.as_str()), Some(s));
    }
    assert!(LyricsFilterScope::Desktop.filters_desktop());
    assert!(LyricsFilterScope::All.filters_desktop() && LyricsFilterScope::All.filters_all());
    assert!(!LyricsFilterScope::Off.filters_desktop());
    assert_eq!(LyricsFilterScope::from_name_or_default("?"), LyricsFilterScope::Off);
    assert_eq!(LyricsFilterScope::default(), LyricsFilterScope::Off);
}

#[test]
fn colours() {
    assert!(is_valid_color("auto"));
    assert!(is_valid_color("  AuTo "));
    assert!(is_valid_color("#a1B2c3"));
    assert!(is_valid_color("a1B2c3"));
    assert!(!is_valid_color("#a1B2c"));
    assert!(!is_valid_color("##a1B2c3"));
    assert!(!is_valid_color("g1B2c3"));
    assert!(!is_valid_color(""));
}

fn rule(name: &str, d: DockPosition) -> ProcessDockRule {
    ProcessDockRule { process_name: name.to_string(), dock_position: d }
}

#[test]
fn first_matching_rule_decides() {
    let rules = vec![
        rule("   ", DockPosition::TopLeft),
        rule(" Game.EXE ", DockPosition::BottomRight),
        rule("game.exe", DockPosition::BottomLeft),
    ];
    assert_eq!(resolve_dock_position(&rules, Some("game.exe"), DockPosition::TopCenter), DockPosition::BottomRight);
    assert_eq!(resolve_dock_position(&rules, Some("other.exe"), DockPosition::TopCenter), DockPosition::TopCenter);
    assert_eq!(resolve_dock_position(&rules, None, DockPosition::TopRight), DockPosition::TopRight);
    assert_eq!(resolve_dock_position(&rules, Some(""), DockPosition::TopCenter), DockPosition::TopCenter);
}

#[test]
fn defaults() {
    assert_eq!(default_dock_position(), DockPosition::TopCenter);
    assert_eq!(default_language(), "auto");
    assert_eq!(default_lyrics_char_color_played(), "auto");
    assert_eq!(default_lyrics_filter_scope(), LyricsFilterScope::Desktop);
    assert_eq!(default_lyrics_filter_regex(), DEFAULT_LYRICS_FILTER_REGEX);
    assert!(default_process_dock_rules().is_empty());
}

#[test]
fn unknown_text_settings_fall_back_to_defaults() {
    let mut t = TextSettings {
        language: "fr".to_string(),
        settings_theme: "dark".to_string(),
        island_style: "neon".to_string(),
        mini_cover_shape: "circle".to_string(),
        expanded_cover_shape: "hexagon".to_string(),
        lyrics_char_color_unplayed: "#12345g".to_string(),
        lyrics_char_color_played: "#123456".to_string(),
    };
    normalize_text_settings(&mut t);
    assert_eq!(t.language, "auto");
    assert_eq!(t.settings_theme, "dark");
    assert_eq!(t.island_style, "default");
    assert_eq!(t.mini_cover_shape, "circle");
    assert_eq!(t.expanded_cover_shape, "square");
    assert_eq!(t.lyrics_char_color_unplayed, "auto");
    assert_eq!(t.lyrics_char_color_played, "#123456");
    let before = t.clone();
    normalize_text_settings(&mut t);
    assert_eq!(t.language, before.language);
    assert_eq!(t.island_style, before.island_style);
    assert_eq!(t.lyrics_char_color_unplayed, before.lyrics_char_color_unplayed);
}

#[test]
fn hex_colours_read_like_from_str_radix() {
    assert_eq!(parse_hex_color("#FF8000"), Some((255, 128, 0)));
    assert_eq!(parse_hex_color("  0a0B0c "), Some((10, 11, 12)));
    assert_eq!(parse_hex_color("#+f+f+f"), Some((15, 15, 15)));
    assert_eq!(parse_hex_color("AUTO"), None);
    assert_eq!(parse_hex_color("   "), None);
    assert_eq!(parse_hex_color("#12345"), None);
    assert_eq!(parse_hex_color("#gg0000"), None);
    assert_eq!(parse_hex_color("éé12"), None);
    assert_eq!(parse_hex_color("#-10000"), None);
}

#[test]
fn every_valid_colour_but_auto_parses() {
    for s in ["#a1B2c3", "a1B2c3", "  #000000 ", "FFFFFF"] {
        assert!(is_valid_color(s));
        assert!(parse_hex_color(s).is_some());
    }
}

#[test]
fn filter_patterns_are_checked_by_the_regex_crate() {
    assert!(regex_pattern_valid(DEFAULT_LYRICS_FILTER_REGEX));
    assert!(regex_pattern_valid(""));
    assert!(!regex_pattern_valid("(unclosed"));
    assert!(!regex_pattern_valid("a{2,1}"));
}

#[test]
fn saving_settings_sets_off_what_changed() {
    assert_eq!(
        config_side_effects("auto", "en", false, false, Some("a.ttf"), Some("a.ttf")),
        ConfigSideEffects { reload_language: true, update_autostart: false, refresh_font: false }
    );
    assert_eq!(
        config_side_effects("zh", "zh", false, true, None, Some("b.ttf")),
        ConfigSideEffects { reload_language: false, update_autostart: true, refresh_font: true }
    );
}

#[test]
fn names_written_as_strings() {
    assert_eq!(String::from(DockPosition::BottomRight), "bottom_right");
    let s: String = LyricsFilterScope::All.into();
    assert_eq!(s, "all");
    assert_eq!(DockPosition::from(String::from(DockPosition::TopLeft)), DockPosition::TopLeft);
}
