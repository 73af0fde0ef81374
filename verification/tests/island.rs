use echomusic_lyrics_winisland::config::{DockPosition, LyricsFilterScope, ProcessDockRule};
use echomusic_lyrics_winisland::island::{
    compute_window_position, finish_seek, handle_release, held_press_effect, hide_step,
    observe_track, press_action, text_hash, tray_effect, update_dock_from_process,
    update_lyric_display, CoverChange, DockTracker, HideEffect, HideInputs, HideKick, HideState,
    choose_monitor, frame_decision, reload_effects, FrameDecision, tray_action_for, IslandPage, LyricDisplay, MonitorChoice,
    ReloadEffects, LyricScroll, PointerState, PressAction, PressHits, ReleaseEffect,
    ScrollChange, TrackWatch, TrayAction, TrayEffect, WindowParams,
};

#[test]
fn window_positions_per_dock() {
    let place = |d| compute_window_position(d, 100, 50, 1920, 1080, 600, 300, 0, 0);
    assert_eq!(place(DockPosition::TopCenter), (100 + 960 - 300, 50 + 10 - 40));
    assert_eq!(place(DockPosition::TopLeft), (100 - 40 + 10, 20));
    assert_eq!(place(DockPosition::TopRight), (100 + 1920 - 600 + 40 - 10, 20));
    assert_eq!(place(DockPosition::BottomCenter), (760, 50 + 1080 - 10 - 300 + 40));
    assert_eq!(compute_window_position(DockPosition::TopCenter, 0, 0, 1920, 1080, 600, 300, 5, -7), (665, -37));
    assert_eq!(compute_window_position(DockPosition::TopCenter, 0, 0, u32::MAX, 100, 10, 10, 0, 0), (-5, -30));
    assert_eq!(compute_window_position(DockPosition::TopCenter, 0, 0, 3, 100, 3, 10, 0, 0), (0, -30));
    let p = WindowParams { win_x: 1, win_y: 2, monitor_x: 0, monitor_y: 0, monitor_w: 10, monitor_h: 10 };
    assert_eq!(p.win_x + p.win_y, 3);
}

#[test]
fn mirrored_docks_keep_the_same_margin() {
    let (mx, my, mw, mh, ow, oh) = (-1920, 0, 1920, 1200, 500, 250);
    let top = compute_window_position(DockPosition::TopLeft, mx, my, mw, mh, ow, oh, 0, 0);
    let bottom = compute_window_position(DockPosition::BottomLeft, mx, my, mw, mh, ow, oh, 0, 0);
    let right = compute_window_position(DockPosition::TopRight, mx, my, mw, mh, ow, oh, 0, 0);
    assert_eq!(top.1 - my, (my + mh as i32) - (bottom.1 + oh as i32));
    assert_eq!(top.0 - mx, (mx + mw as i32) - (right.0 + ow as i32));
}

#[test]
fn tray_choices() {
    assert_eq!(
        tray_effect(TrayAction::ToggleVisibility, true),
        TrayEffect { visible: false, open_settings: false, close_settings: false, restart: false, exit: false }
    );
    assert!(tray_effect(TrayAction::OpenSettings, true).open_settings);
    let r = tray_effect(TrayAction::Restart, false);
    assert!(r.restart && r.exit && r.close_settings && !r.visible);
    let e = tray_effect(TrayAction::Exit, true);
    assert!(e.exit && !e.restart && e.close_settings);
}

#[test]
fn lyric_display_transitions() {
    let mut d = LyricDisplay { current: String::new(), old: String::new() };
    assert!(update_lyric_display(&mut d, Some("line 1".to_string()), false, true, "T", "A"));
    assert_eq!((d.current.as_str(), d.old.as_str()), ("line 1", ""));
    assert!(!update_lyric_display(&mut d, Some("line 1".to_string()), false, true, "T", "A"));
    assert!(update_lyric_display(&mut d, None, false, true, "T", "A"));
    assert_eq!((d.current.as_str(), d.old.as_str()), ("T - A", "line 1"));
    assert!(!update_lyric_display(&mut d, None, false, true, "T", "A"));
    assert!(!update_lyric_display(&mut d, None, true, true, "T", "A"));
    assert_eq!(d.current, "T - A");
    assert!(update_lyric_display(&mut d, None, false, false, "T", "A"));
    assert_eq!((d.current.as_str(), d.old.as_str()), ("", "T - A"));
    assert!(!update_lyric_display(&mut d, None, false, false, "T", "A"));
    assert!(update_lyric_display(&mut d, None, false, true, "U", "B"));
    assert_eq!((d.current.as_str(), d.old.as_str()), ("U - B", "T - A"));
}

#[test]
fn cover_changes_follow_the_hash() {
    let mut w = TrackWatch { title: String::new(), thumbnail_hash: 0 };
    assert_eq!(observe_track(&mut w, "", 5), CoverChange::Unchanged);
    assert_eq!(w.thumbnail_hash, 0);
    assert_eq!(observe_track(&mut w, "Song", 5), CoverChange::Flip);
    assert_eq!(observe_track(&mut w, "Song", 5), CoverChange::Unchanged);
    assert_eq!(observe_track(&mut w, "Other", 5), CoverChange::Unchanged);
    assert_eq!(w.title, "Other");
    assert_eq!(observe_track(&mut w, "Other", 0), CoverChange::Cleared);
    assert_eq!(observe_track(&mut w, "Third", 9), CoverChange::Flip);
}

fn pointer() -> PointerState {
    PointerState {
        seeking_progress: false,
        seeking_duration_ms: 0,
        seeking_preview_ms: 0,
        is_dragging: false,
        drag_has_moved: false,
        auto_hidden: false,
        manually_hidden: false,
        expanded: false,
    }
}

#[test]
fn letting_go() {
    let mut p = PointerState { seeking_progress: true, seeking_duration_ms: 100, seeking_preview_ms: 40, ..pointer() };
    assert_eq!(handle_release(&mut p, false), ReleaseEffect { seek_to: Some(40), reveal: false });
    assert!(!p.seeking_progress);
    let mut q = PointerState { seeking_progress: true, ..pointer() };
    assert_eq!(finish_seek(&mut q), None);
    let mut click = PointerState { is_dragging: true, ..pointer() };
    assert_eq!(handle_release(&mut click, true), ReleaseEffect { seek_to: None, reveal: false });
    assert!(click.expanded && !click.is_dragging);
    let mut hidden = PointerState { is_dragging: true, auto_hidden: true, ..pointer() };
    assert_eq!(handle_release(&mut hidden, false), ReleaseEffect { seek_to: None, reveal: true });
    assert!(!hidden.auto_hidden && !hidden.expanded);
    let mut drag = PointerState { is_dragging: true, drag_has_moved: true, auto_hidden: true, ..pointer() };
    handle_release(&mut drag, true);
    assert!(drag.manually_hidden && !drag.auto_hidden);
    handle_release(&mut drag, false);
    assert!(drag.manually_hidden);
    let mut idle = pointer();
    assert_eq!(handle_release(&mut idle, true), ReleaseEffect { seek_to: None, reveal: false });
    assert_eq!(idle, pointer());
}

fn inputs() -> HideInputs {
    HideInputs {
        hover_to_hide: false,
        auto_hide: true,
        expanded: false,
        manually_hidden: false,
        is_playing: false,
        over_island: false,
        cursor_in_inner: false,
        cursor_in_outer: false,
        hover_delay_elapsed: false,
        is_idle: true,
        idle_expired: false,
    }
}

const STILL: HideEffect = HideEffect { reset_idle_timer: false, kick: HideKick::Still, start_hover_timer: false };

#[test]
fn auto_hide_steps() {
    let mut s = HideState { auto_hidden: false, hover_timer_running: false };
    assert_eq!(hide_step(&mut s, inputs()), STILL);
    assert!(!s.auto_hidden);
    hide_step(&mut s, HideInputs { idle_expired: true, ..inputs() });
    assert!(s.auto_hidden);
    let e = hide_step(&mut s, HideInputs { is_playing: true, ..inputs() });
    assert_eq!(e.kick, HideKick::Strong);
    assert!(!s.auto_hidden && e.reset_idle_timer);
    s.auto_hidden = true;
    let e = hide_step(&mut s, HideInputs { over_island: true, ..inputs() });
    assert_eq!(e.kick, HideKick::Gentle);
    let e = hide_step(&mut s, HideInputs { is_idle: false, ..inputs() });
    assert!(e.reset_idle_timer && e.kick == HideKick::Still);
    s.auto_hidden = true;
    let e = hide_step(&mut s, HideInputs { auto_hide: false, ..inputs() });
    assert!(!s.auto_hidden && e.reset_idle_timer);
}

#[test]
fn hover_to_hide_steps() {
    let hover = HideInputs { hover_to_hide: true, ..inputs() };
    let mut s = HideState { auto_hidden: false, hover_timer_running: false };
    hide_step(&mut s, HideInputs { cursor_in_inner: true, cursor_in_outer: true, ..hover });
    assert!(s.auto_hidden);
    let e = hide_step(&mut s, hover);
    assert!(e.start_hover_timer && s.hover_timer_running);
    assert_eq!(hide_step(&mut s, hover), STILL);
    hide_step(&mut s, HideInputs { cursor_in_outer: true, ..hover });
    assert!(!s.hover_timer_running && s.auto_hidden);
    hide_step(&mut s, hover);
    let e = hide_step(&mut s, HideInputs { hover_delay_elapsed: true, ..hover });
    assert_eq!(e, HideEffect { reset_idle_timer: true, kick: HideKick::Gentle, start_hover_timer: false });
    assert_eq!(s, HideState { auto_hidden: false, hover_timer_running: false });
    let before = s;
    assert_eq!(hide_step(&mut s, HideInputs { expanded: true, cursor_in_inner: true, ..hover }), STILL);
    assert_eq!(s, before);
}

#[test]
fn dock_follows_the_foreground_process() {
    let rules = vec![ProcessDockRule { process_name: "game.exe".to_string(), dock_position: DockPosition::BottomCenter }];
    let mut t = DockTracker { effective: DockPosition::TopCenter, last_process: None };
    assert!(update_dock_from_process(&mut t, &rules, DockPosition::TopCenter, Some("GAME.exe")));
    assert_eq!(t.effective, DockPosition::BottomCenter);
    assert_eq!(t.last_process.as_deref(), Some("GAME.exe"));
    assert!(!update_dock_from_process(&mut t, &rules, DockPosition::TopCenter, Some("GAME.exe")));
    assert!(update_dock_from_process(&mut t, &rules, DockPosition::TopCenter, Some("edit.exe")));
    assert_eq!(t.effective, DockPosition::TopCenter);
    assert!(!update_dock_from_process(&mut t, &rules, DockPosition::TopCenter, None));
    assert_eq!(t.last_process, None);
    t.effective = DockPosition::BottomLeft;
    assert!(update_dock_from_process(&mut t, &[], DockPosition::TopRight, Some("x")));
    assert_eq!(t.effective, DockPosition::TopRight);
    assert!(!update_dock_from_process(&mut t, &[], DockPosition::TopRight, Some("x")));
}

#[test]
fn text_hash_is_djb2() {
    assert_eq!(text_hash(""), 5381);
    assert_eq!(text_hash("a"), 5381 * 33 + 97);
    let mut h: u64 = 5381;
    for b in "歌曲名 long title".bytes() {
        h = h.wrapping_mul(33).wrapping_add(b as u64);
    }
    assert_eq!(text_hash("歌曲名 long title"), h);
}

#[test]
fn lyric_scroll_follows_lines_and_songs() {
    let mut s = LyricScroll::new();
    assert_eq!(s.update(0, "Song"), ScrollChange::Reset);
    assert_eq!(s.update(0, "Song"), ScrollChange::Kept);
    assert_eq!(s.update(3, "Song"), ScrollChange::Restarted);
    assert_eq!((s.current_idx, s.old_idx), (3, 0));
    assert_eq!(s.update(4, "Song"), ScrollChange::Restarted);
    assert_eq!((s.current_idx, s.old_idx), (4, 3));
    assert_eq!(s.update(2, "Other"), ScrollChange::Restarted);
    assert_eq!((s.current_idx, s.old_idx), (2, 0));
    assert_eq!(s.title_hash, text_hash("Other"));
}

fn no_hits() -> PressHits {
    PressHits {
        pause: false,
        prev: false,
        next: false,
        progress_bar: false,
        music_info: false,
        gear: false,
        back_arrow: false,
        forward_arrow: false,
        top_strip: false,
        mini_prev: false,
        mini_play: false,
        mini_next: false,
        island_or_handle: false,
    }
}

#[test]
fn presses_on_the_expanded_island() {
    let p = IslandPage::Player;
    let hits = PressHits { pause: true, top_strip: true, ..no_hits() };
    assert_eq!(press_action(true, p, true, true, false, hits), PressAction::TogglePlay);
    assert_eq!(press_action(true, p, false, true, false, hits), PressAction::Collapse);
    assert_eq!(press_action(true, IslandPage::Widgets, true, true, false, hits), PressAction::Collapse);
    let bar = PressHits { progress_bar: true, music_info: true, ..no_hits() };
    assert_eq!(press_action(true, p, true, true, false, bar), PressAction::StartSeek);
    let info = PressHits { music_info: true, ..no_hits() };
    assert_eq!(press_action(true, p, false, false, false, info), PressAction::ShowMainWindow);
    let gear = PressHits { gear: true, back_arrow: true, ..no_hits() };
    assert_eq!(press_action(true, IslandPage::Widgets, true, true, false, gear), PressAction::OpenSettings);
    let back = PressHits { back_arrow: true, ..no_hits() };
    assert_eq!(press_action(true, IslandPage::Widgets, true, true, false, back), PressAction::ShowPlayerPage);
    assert_eq!(press_action(true, IslandPage::Between, true, true, false, back), PressAction::Nothing);
    let fwd = PressHits { forward_arrow: true, ..no_hits() };
    assert_eq!(press_action(true, p, true, true, false, fwd), PressAction::ShowWidgetPage);
    let prev = PressHits { prev: true, next: true, ..no_hits() };
    assert_eq!(press_action(true, p, true, true, false, prev), PressAction::Prev);
}

#[test]
fn presses_on_the_folded_island() {
    let p = IslandPage::Player;
    let mini = PressHits { mini_play: true, island_or_handle: true, ..no_hits() };
    assert_eq!(press_action(false, p, true, false, true, mini), PressAction::TogglePlay);
    assert_eq!(press_action(false, p, true, true, true, mini), PressAction::StartDrag);
    assert_eq!(press_action(false, p, true, false, false, mini), PressAction::StartDrag);
    let next = PressHits { mini_next: true, ..no_hits() };
    assert_eq!(press_action(false, p, true, false, true, next), PressAction::Next);
    assert_eq!(press_action(false, p, false, false, true, next), PressAction::Nothing);
    assert_eq!(held_press_effect(true, false, true), (true, false));
    assert_eq!(held_press_effect(false, true, true), (false, true));
    assert_eq!(held_press_effect(true, true, true), (false, false));
    assert_eq!(held_press_effect(false, true, false), (false, false));
}

#[test]
fn monitor_follows_the_display_device() {
    let devices = vec!["\\\\.\\DISPLAY1".to_string(), "\\\\.\\DISPLAY2".to_string()];
    let monitors = vec![Some("\\\\.\\DISPLAY2".to_string()), Some("\\\\.\\DISPLAY1".to_string())];
    assert_eq!(choose_monitor(&devices, &monitors, 0), MonitorChoice::Index(1));
    assert_eq!(choose_monitor(&devices, &monitors, 1), MonitorChoice::Index(0));
    assert_eq!(choose_monitor(&devices, &monitors, 5), MonitorChoice::Primary);
    assert_eq!(choose_monitor(&devices, &monitors, -1), MonitorChoice::Primary);
    assert_eq!(choose_monitor(&[], &monitors, 1), MonitorChoice::Index(1));
    let unnamed = vec![None, Some("Y".to_string())];
    assert_eq!(choose_monitor(&["X".to_string()], &unnamed, 0), MonitorChoice::Index(0));
    let short = vec![Some("DISPLAY1".to_string())];
    assert_eq!(choose_monitor(&devices, &short, 0), MonitorChoice::Index(0));
}

#[test]
fn tray_entries_by_identifier() {
    let ids = ("1001", "1002", "1003", "1004");
    assert_eq!(tray_action_for("1001", ids.0, ids.1, ids.2, ids.3), Some(TrayAction::ToggleVisibility));
    assert_eq!(tray_action_for("1002", ids.0, ids.1, ids.2, ids.3), Some(TrayAction::OpenSettings));
    assert_eq!(tray_action_for("1003", ids.0, ids.1, ids.2, ids.3), Some(TrayAction::Restart));
    assert_eq!(tray_action_for("1004", ids.0, ids.1, ids.2, ids.3), Some(TrayAction::Exit));
    assert_eq!(tray_action_for("9", ids.0, ids.1, ids.2, ids.3), None);
}

#[test]
fn settings_changes_and_their_effects() {
    let none = ReloadEffects {
        style_changed: false,
        disable_mica: false,
        exclude_from_capture: None,
        clear_cover_cache: false,
        refresh_font: false,
    };
    assert_eq!(reload_effects("mica", "mica", "square", "square", "circle", "circle", None, None), none);
    let r = reload_effects("mica", "liquid_glass", "square", "square", "square", "square", None, None);
    assert!(r.style_changed && r.disable_mica);
    assert_eq!(r.exclude_from_capture, Some(true));
    let r = reload_effects("liquid_glass", "glass", "square", "circle", "square", "square", Some("a.ttf"), None);
    assert_eq!(r.exclude_from_capture, Some(false));
    assert!(!r.disable_mica && r.clear_cover_cache && r.refresh_font);
    let r = reload_effects("default", "default", "square", "square", "square", "circle", Some("a"), Some("a"));
    assert!(r.clear_cover_cache && !r.refresh_font && !r.style_changed);
}

#[test]
fn frame_cadence() {
    let scope = LyricsFilterScope::Desktop;
    assert_eq!(
        frame_decision(0, false, false, scope),
        FrameDecision { quit: false, reload_config: true, check_fullscreen: true, follow_process: true, refresh_filter: true }
    );
    let d = frame_decision(10, false, false, scope);
    assert!(d.check_fullscreen && !d.reload_config && !d.follow_process);
    let d = frame_decision(31, false, false, LyricsFilterScope::Off);
    assert!(!d.check_fullscreen && !d.reload_config && !d.refresh_filter && !d.quit);
    let d = frame_decision(30, true, false, scope);
    assert!(d.quit && !d.reload_config && !d.refresh_filter);
    assert!(frame_decision(7, false, true, scope).quit);
    let mut t = DockTracker { effective: DockPosition::BottomLeft, last_process: Some("a.exe".to_string()) };
    t.reset_for_config(DockPosition::TopRight);
    assert_eq!(t.effective, DockPosition::TopRight);
    assert!(t.last_process.is_none());
}
