use vstd::prelude::*;

use vstd::string::{StringExecFns, StringSliceAdditionalSpecFns};

use crate::config::{
    opt_str_view, resolve_dock_position, resolve_dock_spec, DockPosition, LyricsFilterScope,
    ProcessDockRule,
    HALF_PADDING, TOP_OFFSET,
};
use crate::lyrics::opt_string_view;
use crate::text::{chars_contains, chars_of, contains, occurs_at_exec, starts_with, str_equal};

verus! {

/// Where the island's window stands and the monitor it is on, in physical pixels.
#[derive(Clone, Copy, Debug)]
pub struct WindowParams {
    pub win_x: i32,
    pub win_y: i32,
    pub monitor_x: i32,
    pub monitor_y: i32,
    pub monitor_w: u32,
    pub monitor_h: u32,
}

/// Half of `x`, rounded toward zero as integer division does.
pub open spec fn half(x: int) -> int {
    if x >= 0 {
        x / 2
    } else {
        -((-x) / 2)
    }
}

/// The top-left corner of the island's window (`os_w` by `os_h`, margin included) on a
/// monitor at (`mon_x`, `mon_y`) of size `mon_w` by `mon_h`: `TOP_OFFSET` from the edge it
/// docks to (the margin of `HALF_PADDING` hangs over it), centred on a centre dock, then
/// moved by the configured offsets.
pub open spec fn window_position_spec(
    dock: DockPosition,
    mon_x: int,
    mon_y: int,
    mon_w: int,
    mon_h: int,
    os_w: int,
    os_h: int,
    x_offset: int,
    y_offset: int,
) -> (int, int) {
    let win_x = if dock.spec_is_left() {
        mon_x - HALF_PADDING + TOP_OFFSET + x_offset
    } else if dock.spec_is_right() {
        mon_x + mon_w - os_w + HALF_PADDING - TOP_OFFSET + x_offset
    } else {
        mon_x + half(mon_w) - half(os_w) + x_offset
    };
    let win_y = if dock.spec_is_bottom() {
        mon_y + mon_h - TOP_OFFSET - os_h + HALF_PADDING + y_offset
    } else {
        mon_y + TOP_OFFSET - HALF_PADDING + y_offset
    };
    (win_x, win_y)
}

/// A value that an `i32` holds.
pub open spec fn fits_i32(v: int) -> bool {
    i32::MIN <= v <= i32::MAX
}

/// Every intermediate sum of `window_position_spec`, taken left to right as the
/// computation does, fits in `i32`.
pub open spec fn window_position_fits(
    dock: DockPosition,
    mon_x: int,
    mon_y: int,
    mon_w: int,
    mon_h: int,
    os_w: int,
    os_h: int,
    x_offset: int,
    y_offset: int,
) -> bool {
    &&& fits_i32(mon_x + half(mon_w))
    &&& fits_i32(mon_y + TOP_OFFSET)
    &&& fits_i32(mon_y + mon_h)
    &&& fits_i32(mon_y + mon_h - TOP_OFFSET)
    &&& (dock.spec_is_left() ==> {
        &&& fits_i32(mon_x - HALF_PADDING)
        &&& fits_i32(mon_x - HALF_PADDING + TOP_OFFSET)
        &&& fits_i32(mon_x - HALF_PADDING + TOP_OFFSET + x_offset)
    })
    &&& (dock.spec_is_right() ==> {
        &&& fits_i32(mon_x + mon_w)
        &&& fits_i32(mon_x + mon_w - os_w)
        &&& fits_i32(mon_x + mon_w - os_w + HALF_PADDING)
        &&& fits_i32(mon_x + mon_w - os_w + HALF_PADDING - TOP_OFFSET)
        &&& fits_i32(mon_x + mon_w - os_w + HALF_PADDING - TOP_OFFSET + x_offset)
    })
    &&& (!dock.spec_is_left() && !dock.spec_is_right() ==> {
        &&& fits_i32(mon_x + half(mon_w) - half(os_w))
        &&& fits_i32(mon_x + half(mon_w) - half(os_w) + x_offset)
    })
    &&& (dock.spec_is_bottom() ==> {
        &&& fits_i32(mon_y + mon_h - TOP_OFFSET - os_h)
        &&& fits_i32(mon_y + mon_h - TOP_OFFSET - os_h + HALF_PADDING)
        &&& fits_i32(mon_y + mon_h - TOP_OFFSET - os_h + HALF_PADDING + y_offset)
    })
    &&& (!dock.spec_is_bottom() ==> {
        &&& fits_i32(mon_y + TOP_OFFSET - HALF_PADDING)
        &&& fits_i32(mon_y + TOP_OFFSET - HALF_PADDING + y_offset)
    })
}

/// Where the island's window goes on its monitor (see `window_position_spec`); the sizes
/// are taken as `i32` (`as` casts, which wrap above `i32::MAX`).
pub fn compute_window_position(
    dock: DockPosition,
    mon_x: i32,
    mon_y: i32,
    mon_w: u32,
    mon_h: u32,
    os_w: u32,
    os_h: u32,
    x_offset: i32,
    y_offset: i32,
) -> (r: (i32, i32))
    requires
        window_position_fits(
            dock,
            mon_x as int,
            mon_y as int,
            (mon_w as i32) as int,
            (mon_h as i32) as int,
            (os_w as i32) as int,
            (os_h as i32) as int,
            x_offset as int,
            y_offset as int,
        ),
    ensures
        (r.0 as int, r.1 as int) == window_position_spec(
            dock,
            mon_x as int,
            mon_y as int,
            (mon_w as i32) as int,
            (mon_h as i32) as int,
            (os_w as i32) as int,
            (os_h as i32) as int,
            x_offset as int,
            y_offset as int,
        ),
{
    let w = mon_w as i32;
    let h = mon_h as i32;
    let ow = os_w as i32;
    let oh = os_h as i32;
    let center_x = mon_x + w / 2;
    let top_y = mon_y + TOP_OFFSET;
    let bottom_y = mon_y + h - TOP_OFFSET;
    let win_x = if dock.is_left() {
        mon_x - HALF_PADDING + TOP_OFFSET + x_offset
    } else if dock.is_right() {
        mon_x + w - ow + HALF_PADDING - TOP_OFFSET + x_offset
    } else {
        center_x - ow / 2 + x_offset
    };
    let win_y = if dock.is_bottom() {
        bottom_y - oh + HALF_PADDING + y_offset
    } else {
        top_y - HALF_PADDING + y_offset
    };
    (win_x, win_y)
}

/// Mirrored docks keep the same margin: without offsets, the window's top edge lies as far
/// from the monitor's top on a top dock as its bottom edge from the monitor's bottom on a
/// bottom dock, and its left edge as far from the monitor's left on a left dock as its
/// right edge from the monitor's right on a right dock.
pub proof fn lemma_mirrored_docks_same_margin(
    mon_x: int,
    mon_y: int,
    mon_w: int,
    mon_h: int,
    os_w: int,
    os_h: int,
)
    ensures
        window_position_spec(DockPosition::TopLeft, mon_x, mon_y, mon_w, mon_h, os_w, os_h, 0, 0).1
            - mon_y == (mon_y + mon_h) - (window_position_spec(
            DockPosition::BottomLeft,
            mon_x,
            mon_y,
            mon_w,
            mon_h,
            os_w,
            os_h,
            0,
            0,
        ).1 + os_h),
        window_position_spec(DockPosition::TopLeft, mon_x, mon_y, mon_w, mon_h, os_w, os_h, 0, 0).0
            - mon_x == (mon_x + mon_w) - (window_position_spec(
            DockPosition::TopRight,
            mon_x,
            mon_y,
            mon_w,
            mon_h,
            os_w,
            os_h,
            0,
            0,
        ).0 + os_w),
{
}

/// Where the island sits across the monitor depends only on its column (left, centre or
/// right), and how far down only on its row (top or bottom); the bottom corners mirror
/// each other as the top ones do: without offsets, the left margin on a left dock equals the
/// right margin on the right dock of the same row, the centre docks are centred, and the
/// offsets move every dock by exactly their amount.
pub proof fn lemma_dock_columns_and_rows(
    mon_x: int,
    mon_y: int,
    mon_w: int,
    mon_h: int,
    os_w: int,
    os_h: int,
    x_offset: int,
    y_offset: int,
)
    ensures
        window_position_spec(DockPosition::BottomLeft, mon_x, mon_y, mon_w, mon_h, os_w, os_h, x_offset, y_offset).0
            == window_position_spec(DockPosition::TopLeft, mon_x, mon_y, mon_w, mon_h, os_w, os_h, x_offset, y_offset).0,
        window_position_spec(DockPosition::BottomCenter, mon_x, mon_y, mon_w, mon_h, os_w, os_h, x_offset, y_offset).0
            == window_position_spec(DockPosition::TopCenter, mon_x, mon_y, mon_w, mon_h, os_w, os_h, x_offset, y_offset).0,
        window_position_spec(DockPosition::BottomRight, mon_x, mon_y, mon_w, mon_h, os_w, os_h, x_offset, y_offset).0
            == window_position_spec(DockPosition::TopRight, mon_x, mon_y, mon_w, mon_h, os_w, os_h, x_offset, y_offset).0,
        window_position_spec(DockPosition::TopLeft, mon_x, mon_y, mon_w, mon_h, os_w, os_h, x_offset, y_offset).1
            == window_position_spec(DockPosition::TopCenter, mon_x, mon_y, mon_w, mon_h, os_w, os_h, x_offset, y_offset).1,
        window_position_spec(DockPosition::TopRight, mon_x, mon_y, mon_w, mon_h, os_w, os_h, x_offset, y_offset).1
            == window_position_spec(DockPosition::TopCenter, mon_x, mon_y, mon_w, mon_h, os_w, os_h, x_offset, y_offset).1,
        window_position_spec(DockPosition::BottomLeft, mon_x, mon_y, mon_w, mon_h, os_w, os_h, x_offset, y_offset).1
            == window_position_spec(DockPosition::BottomCenter, mon_x, mon_y, mon_w, mon_h, os_w, os_h, x_offset, y_offset).1,
        window_position_spec(DockPosition::BottomRight, mon_x, mon_y, mon_w, mon_h, os_w, os_h, x_offset, y_offset).1
            == window_position_spec(DockPosition::BottomCenter, mon_x, mon_y, mon_w, mon_h, os_w, os_h, x_offset, y_offset).1,
        window_position_spec(DockPosition::BottomLeft, mon_x, mon_y, mon_w, mon_h, os_w, os_h, 0, 0).0 - mon_x
            == (mon_x + mon_w) - (window_position_spec(DockPosition::BottomRight, mon_x, mon_y, mon_w, mon_h, os_w, os_h, 0, 0).0 + os_w),
        window_position_spec(DockPosition::BottomLeft, mon_x, mon_y, mon_w, mon_h, os_w, os_h, 0, 0).0 - mon_x
            == TOP_OFFSET - HALF_PADDING,
        window_position_spec(DockPosition::BottomCenter, mon_x, mon_y, mon_w, mon_h, os_w, os_h, 0, 0).0
            == mon_x + half(mon_w) - half(os_w),
        forall|d: DockPosition|
            #![trigger window_position_spec(d, mon_x, mon_y, mon_w, mon_h, os_w, os_h, x_offset, y_offset)]
            window_position_spec(d, mon_x, mon_y, mon_w, mon_h, os_w, os_h, x_offset, y_offset) == (
                window_position_spec(d, mon_x, mon_y, mon_w, mon_h, os_w, os_h, 0, 0).0 + x_offset,
                window_position_spec(d, mon_x, mon_y, mon_w, mon_h, os_w, os_h, 0, 0).1 + y_offset,
            ),
{
}

/// What the tray menu offers.
#[derive(Clone, Copy, Debug, PartialEq, Eq, Structural)]
pub enum TrayAction {
    ToggleVisibility,
    OpenSettings,
    Restart,
    Exit,
}

/// What a tray menu choice asks for: whether the island is visible afterwards, whether to
/// open the settings window, to close it, to start the program anew and to quit.
#[derive(Clone, Copy, Debug, PartialEq, Eq, Structural)]
pub struct TrayEffect {
    pub visible: bool,
    pub open_settings: bool,
    pub close_settings: bool,
    pub restart: bool,
    pub exit: bool,
}

/// What choosing `action` in the tray menu does while the island is `visible` or not.
pub open spec fn tray_effect_spec(action: TrayAction, visible: bool) -> TrayEffect {
    match action {
        TrayAction::ToggleVisibility => TrayEffect {
            visible: !visible,
            open_settings: false,
            close_settings: false,
            restart: false,
            exit: false,
        },
        TrayAction::OpenSettings => TrayEffect {
            visible,
            open_settings: true,
            close_settings: false,
            restart: false,
            exit: false,
        },
        TrayAction::Restart => TrayEffect {
            visible,
            open_settings: false,
            close_settings: true,
            restart: true,
            exit: true,
        },
        TrayAction::Exit => TrayEffect {
            visible,
            open_settings: false,
            close_settings: true,
            restart: false,
            exit: true,
        },
    }
}

/// What a tray menu choice does (see `tray_effect_spec`).
pub fn tray_effect(action: TrayAction, visible: bool) -> (r: TrayEffect)
    ensures
        r == tray_effect_spec(action, visible),
{
    match action {
        TrayAction::ToggleVisibility => TrayEffect {
            visible: !visible,
            open_settings: false,
            close_settings: false,
            restart: false,
            exit: false,
        },
        TrayAction::OpenSettings => TrayEffect {
            visible,
            open_settings: true,
            close_settings: false,
            restart: false,
            exit: false,
        },
        TrayAction::Restart => TrayEffect {
            visible,
            open_settings: false,
            close_settings: true,
            restart: true,
            exit: true,
        },
        TrayAction::Exit => TrayEffect {
            visible,
            open_settings: false,
            close_settings: true,
            restart: false,
            exit: true,
        },
    }
}

/// The lyric text on the island: the one shown now and the one fading out.
#[derive(Clone, Debug)]
pub struct LyricDisplay {
    pub current: String,
    pub old: String,
}

/// What the island shows while a track without a current line plays: `title - artist`.
pub open spec fn fallback_text(title: Seq<char>, artist: Seq<char>) -> Seq<char> {
    title + " - "@ + artist
}

/// The texts after a frame (current, fading out) and whether the change animation
/// restarts. A new line replaces the current one, which fades out. Without a line, a
/// playing track shows `title - artist` (the previous text fading out when there was
/// one), and with no track playing the text is cleared; a paused track keeps its text.
pub open spec fn lyric_display_spec(
    current: Seq<char>,
    old: Seq<char>,
    lyric: Option<Seq<char>>,
    is_paused: bool,
    music_active: bool,
    title: Seq<char>,
    artist: Seq<char>,
) -> (Seq<char>, Seq<char>, bool) {
    match lyric {
        Some(l) => if l != current {
            (l, current, true)
        } else {
            (current, old, false)
        },
        None => if !is_paused && music_active {
            let f = fallback_text(title, artist);
            if current != f {
                (
                    f,
                    if current.len() > 0 {
                        current
                    } else {
                        old
                    },
                    true,
                )
            } else {
                (current, old, false)
            }
        } else if !is_paused && current.len() > 0 {
            (Seq::empty(), current, true)
        } else {
            (current, old, false)
        },
    }
}

/// Brings the island's text up to date with the line to show (see `lyric_display_spec`);
/// returns whether the change animation restarts.
pub fn update_lyric_display(
    d: &mut LyricDisplay,
    lyric: Option<String>,
    is_paused: bool,
    music_active: bool,
    title: &str,
    artist: &str,
) -> (restarted: bool)
    ensures
        (final(d).current@, final(d).old@, restarted) == lyric_display_spec(
            old(d).current@,
            old(d).old@,
            opt_string_view(lyric),
            is_paused,
            music_active,
            title@,
            artist@,
        ),
{
    match lyric {
        Some(l) => {
            if !str_equal(l.as_str(), d.current.as_str()) {
                d.old = d.current.clone();
                d.current = l;
                true
            } else {
                false
            }
        },
        None => {
            if !is_paused && music_active {
                let mut f = String::from_str(title);
                f.append(" - ");
                f.append(artist);
                if !str_equal(d.current.as_str(), f.as_str()) {
                    if !d.current.as_str().is_empty() {
                        d.old = d.current.clone();
                    }
                    d.current = f;
                    true
                } else {
                    false
                }
            } else if !is_paused && !d.current.as_str().is_empty() {
                d.old = d.current.clone();
                d.current = String::new();
                true
            } else {
                false
            }
        },
    }
}

/// The track the island last showed: its title and the hash of its cover.
#[derive(Clone, Debug)]
pub struct TrackWatch {
    pub title: String,
    pub thumbnail_hash: u64,
}

/// What a new report does to the cover art.
#[derive(Clone, Copy, Debug, PartialEq, Eq, Structural)]
pub enum CoverChange {
    Unchanged,
    /// A new cover arrived: it flips in (and cached backgrounds are dropped).
    Flip,
    /// The cover went away: cached cover art and backgrounds are dropped.
    Cleared,
}

/// The cover change that the player's `title` and cover hash bring: with a title, the
/// watch takes both, and a different hash flips in a new cover or, for 0, clears it; with
/// no title nothing is watched.
pub open spec fn observe_track_spec(w_title: Seq<char>, w_hash: u64, title: Seq<char>, hash: u64) -> (
    Seq<char>,
    u64,
    CoverChange,
) {
    if title.len() == 0 {
        (w_title, w_hash, CoverChange::Unchanged)
    } else {
        (
            title,
            hash,
            if hash != w_hash {
                if hash != 0 {
                    CoverChange::Flip
                } else {
                    CoverChange::Cleared
                }
            } else {
                CoverChange::Unchanged
            },
        )
    }
}

/// Notes the player's current title and cover hash (see `observe_track_spec`).
pub fn observe_track(w: &mut TrackWatch, title: &str, thumbnail_hash: u64) -> (r: CoverChange)
    ensures
        (final(w).title@, final(w).thumbnail_hash, r) == observe_track_spec(
            old(w).title@,
            old(w).thumbnail_hash,
            title@,
            thumbnail_hash,
        ),
{
    if title.is_empty() {
        return CoverChange::Unchanged;
    }
    let change = if thumbnail_hash != w.thumbnail_hash {
        if thumbnail_hash != 0 {
            CoverChange::Flip
        } else {
            CoverChange::Cleared
        }
    } else {
        CoverChange::Unchanged
    };
    if !str_equal(title, w.title.as_str()) {
        w.title = title.to_string();
    }
    w.thumbnail_hash = thumbnail_hash;
    change
}

/// What the pointer is doing to the island.
#[derive(Clone, Copy, Debug, PartialEq, Eq, Structural)]
pub struct PointerState {
    /// The progress bar is held; `seeking_preview_ms` is where it points.
    pub seeking_progress: bool,
    pub seeking_duration_ms: u64,
    pub seeking_preview_ms: u64,
    /// The island is held (to drag it out of sight or to click it).
    pub is_dragging: bool,
    pub drag_has_moved: bool,
    pub auto_hidden: bool,
    pub manually_hidden: bool,
    pub expanded: bool,
}

/// What letting go asks for: a seek to send to the player, and whether the island slides
/// back into view (its idle timer restarting).
#[derive(Clone, Copy, Debug, PartialEq, Eq, Structural)]
pub struct ReleaseEffect {
    pub seek_to: Option<u64>,
    pub reveal: bool,
}

/// The pointer state and effect after letting go. Letting go of the progress bar seeks to
/// where it pointed (when the track has a length). Letting go of the island without moving
/// it brings a hidden island back or else expands it; after a drag the island stays hidden
/// when it was pulled past the threshold and comes back otherwise.
pub open spec fn release_spec(p: PointerState, hidden_past_threshold: bool) -> (PointerState, ReleaseEffect) {
    if p.seeking_progress {
        (
            PointerState { seeking_progress: false, ..p },
            ReleaseEffect {
                seek_to: if p.seeking_duration_ms > 0 {
                    Some(p.seeking_preview_ms)
                } else {
                    None
                },
                reveal: false,
            },
        )
    } else if p.is_dragging {
        let q = PointerState { is_dragging: false, ..p };
        if !p.drag_has_moved {
            if p.auto_hidden || p.manually_hidden {
                (
                    PointerState { auto_hidden: false, manually_hidden: false, ..q },
                    ReleaseEffect { seek_to: None, reveal: true },
                )
            } else {
                (PointerState { expanded: true, ..q }, ReleaseEffect { seek_to: None, reveal: false })
            }
        } else {
            (
                PointerState { manually_hidden: hidden_past_threshold, auto_hidden: false, ..q },
                ReleaseEffect { seek_to: None, reveal: false },
            )
        }
    } else {
        (p, ReleaseEffect { seek_to: None, reveal: false })
    }
}

/// Ends a seek on the progress bar: the position to send to the player, when the track
/// has a length.
pub fn finish_seek(p: &mut PointerState) -> (r: Option<u64>)
    requires
        old(p).seeking_progress,
    ensures
        *final(p) == (PointerState { seeking_progress: false, ..*old(p) }),
        r == (if old(p).seeking_duration_ms > 0 {
            Some(old(p).seeking_preview_ms)
        } else {
            None
        }),
{
    p.seeking_progress = false;
    if p.seeking_duration_ms > 0 {
        Some(p.seeking_preview_ms)
    } else {
        None
    }
}

/// Handles letting go of the pointer (see `release_spec`); `hidden_past_threshold` tells
/// whether the island was pulled more than the hiding threshold out of sight.
pub fn handle_release(p: &mut PointerState, hidden_past_threshold: bool) -> (r: ReleaseEffect)
    ensures
        (*final(p), r) == release_spec(*old(p), hidden_past_threshold),
{
    if p.seeking_progress {
        let seek_to = finish_seek(p);
        return ReleaseEffect { seek_to, reveal: false };
    }
    if p.is_dragging {
        p.is_dragging = false;
        if !p.drag_has_moved {
            if p.auto_hidden || p.manually_hidden {
                p.auto_hidden = false;
                p.manually_hidden = false;
                return ReleaseEffect { seek_to: None, reveal: true };
            } else {
                p.expanded = true;
            }
        } else if hidden_past_threshold {
            p.manually_hidden = true;
            p.auto_hidden = false;
        } else {
            p.manually_hidden = false;
            p.auto_hidden = false;
        }
    }
    ReleaseEffect { seek_to: None, reveal: false }
}

/// How hard the island is pushed back into view.
#[derive(Clone, Copy, Debug, PartialEq, Eq, Structural)]
pub enum HideKick {
    /// Not pushed.
    Still,
    /// The pointer came to the island.
    Gentle,
    /// Playback resumed.
    Strong,
}

/// What the frame sees that decides whether the island hides.
#[derive(Clone, Copy, Debug, PartialEq, Eq, Structural)]
pub struct HideInputs {
    pub hover_to_hide: bool,
    pub auto_hide: bool,
    pub expanded: bool,
    pub manually_hidden: bool,
    pub is_playing: bool,
    /// The pointer is on the island or on the handle of the hidden island.
    pub over_island: bool,
    /// The pointer is within the hover distance of the island.
    pub cursor_in_inner: bool,
    /// The pointer is within one and a half times the hover distance.
    pub cursor_in_outer: bool,
    /// The pointer has stayed away for the hover delay since the timer started.
    pub hover_delay_elapsed: bool,
    pub is_idle: bool,
    /// The island has been idle longer than the auto-hide delay.
    pub idle_expired: bool,
}

/// Whether the island hides itself, and whether the wait for the pointer to stay away has
/// begun.
#[derive(Clone, Copy, Debug, PartialEq, Eq, Structural)]
pub struct HideState {
    pub auto_hidden: bool,
    pub hover_timer_running: bool,
}

/// What a frame's hiding step asks of the caller.
#[derive(Clone, Copy, Debug, PartialEq, Eq, Structural)]
pub struct HideEffect {
    pub reset_idle_timer: bool,
    pub kick: HideKick,
    /// The hover timer starts now.
    pub start_hover_timer: bool,
}

/// The hiding step of a frame. With hover-to-hide (and the island neither expanded nor
/// hidden by hand) the island hides when the pointer comes near, and comes back once the
/// pointer has stayed away, beyond the outer distance, for the hover delay. Otherwise,
/// without auto-hide it never hides; playback brings it back; the pointer on it brings it
/// back; an idle island hides when the idle delay has passed; activity restarts the idle
/// timer.
pub open spec fn hide_step_spec(s: HideState, i: HideInputs) -> (HideState, HideEffect) {
    let none = HideEffect { reset_idle_timer: false, kick: HideKick::Still, start_hover_timer: false };
    if i.hover_to_hide {
        if i.expanded || i.manually_hidden {
            (s, none)
        } else if !s.auto_hidden {
            if i.cursor_in_inner {
                (HideState { auto_hidden: true, hover_timer_running: false }, none)
            } else {
                (s, none)
            }
        } else if !i.cursor_in_outer {
            if !s.hover_timer_running {
                (
                    HideState { hover_timer_running: true, ..s },
                    HideEffect { start_hover_timer: true, ..none },
                )
            } else if i.hover_delay_elapsed {
                (
                    HideState { auto_hidden: false, hover_timer_running: false },
                    HideEffect { reset_idle_timer: true, kick: HideKick::Gentle, ..none },
                )
            } else {
                (s, none)
            }
        } else {
            (HideState { hover_timer_running: false, ..s }, none)
        }
    } else if !i.auto_hide {
        (HideState { auto_hidden: false, ..s }, HideEffect { reset_idle_timer: true, ..none })
    } else if i.is_playing && s.auto_hidden && !i.manually_hidden {
        (
            HideState { auto_hidden: false, ..s },
            HideEffect { reset_idle_timer: true, kick: HideKick::Strong, ..none },
        )
    } else if s.auto_hidden {
        if i.over_island {
            (
                HideState { auto_hidden: false, ..s },
                HideEffect { reset_idle_timer: true, kick: HideKick::Gentle, ..none },
            )
        } else {
            (s, none)
        }
    } else if i.is_idle && !i.manually_hidden {
        if i.idle_expired {
            (HideState { auto_hidden: true, ..s }, none)
        } else {
            (s, none)
        }
    } else if !i.manually_hidden && !i.is_idle {
        (s, HideEffect { reset_idle_timer: true, ..none })
    } else {
        (s, none)
    }
}

/// One frame's hiding step (see `hide_step_spec`).
pub fn hide_step(s: &mut HideState, i: HideInputs) -> (r: HideEffect)
    ensures
        (*final(s), r) == hide_step_spec(*old(s), i),
{
    let none = HideEffect { reset_idle_timer: false, kick: HideKick::Still, start_hover_timer: false };
    if i.hover_to_hide {
        if i.expanded || i.manually_hidden {
            return none;
        }
        if !s.auto_hidden {
            if i.cursor_in_inner {
                s.auto_hidden = true;
                s.hover_timer_running = false;
            }
            none
        } else if !i.cursor_in_outer {
            if !s.hover_timer_running {
                s.hover_timer_running = true;
                HideEffect { reset_idle_timer: false, kick: HideKick::Still, start_hover_timer: true }
            } else if i.hover_delay_elapsed {
                s.auto_hidden = false;
                s.hover_timer_running = false;
                HideEffect { reset_idle_timer: true, kick: HideKick::Gentle, start_hover_timer: false }
            } else {
                none
            }
        } else {
            s.hover_timer_running = false;
            none
        }
    } else if !i.auto_hide {
        s.auto_hidden = false;
        HideEffect { reset_idle_timer: true, kick: HideKick::Still, start_hover_timer: false }
    } else if i.is_playing && s.auto_hidden && !i.manually_hidden {
        s.auto_hidden = false;
        HideEffect { reset_idle_timer: true, kick: HideKick::Strong, start_hover_timer: false }
    } else if s.auto_hidden {
        if i.over_island {
            s.auto_hidden = false;
            HideEffect { reset_idle_timer: true, kick: HideKick::Gentle, start_hover_timer: false }
        } else {
            none
        }
    } else if i.is_idle && !i.manually_hidden {
        if i.idle_expired {
            s.auto_hidden = true;
        }
        none
    } else if !i.manually_hidden && !i.is_idle {
        HideEffect { reset_idle_timer: true, kick: HideKick::Still, start_hover_timer: false }
    } else {
        none
    }
}

/// Where the island docks now and the foreground process it last looked at.
#[derive(Clone, Debug)]
pub struct DockTracker {
    pub effective: DockPosition,
    pub last_process: Option<String>,
}

/// The tracker after looking at the foreground process, and whether the window moves.
/// Without rules the configured position holds (the process is forgotten when that moves
/// the island). With rules, nothing happens while the same process stays in front; a new
/// one is noted and decides the position (see `resolve_dock_spec`).
pub open spec fn dock_update_spec(
    effective: DockPosition,
    last: Option<Seq<char>>,
    rules: Seq<ProcessDockRule>,
    configured: DockPosition,
    process: Option<Seq<char>>,
) -> (DockPosition, Option<Seq<char>>, bool) {
    if rules.len() == 0 {
        if effective != configured {
            (configured, None, true)
        } else {
            (effective, last, false)
        }
    } else if process == last {
        (effective, last, false)
    } else {
        let n = resolve_dock_spec(rules, process, configured);
        (n, process, n != effective)
    }
}

fn opt_str_equal(a: &Option<String>, b: Option<&str>) -> (r: bool)
    ensures
        r == (opt_string_view(*a) == opt_str_view(b)),
{
    match (a, b) {
        (Some(x), Some(y)) => str_equal(x.as_str(), y),
        (None, None) => true,
        _ => false,
    }
}

/// Follows the foreground process (see `dock_update_spec`); `process_name` is only read
/// when there are rules. Returns whether the window must move.
pub fn update_dock_from_process(
    t: &mut DockTracker,
    rules: &[ProcessDockRule],
    configured: DockPosition,
    process_name: Option<&str>,
) -> (moved: bool)
    ensures
        (final(t).effective, opt_string_view(final(t).last_process), moved) == dock_update_spec(
            old(t).effective,
            opt_string_view(old(t).last_process),
            rules@,
            configured,
            opt_str_view(process_name),
        ),
{
    if rules.len() == 0 {
        if t.effective != configured {
            t.effective = configured;
            t.last_process = None;
            return true;
        }
        return false;
    }
    if opt_str_equal(&t.last_process, process_name) {
        return false;
    }
    t.last_process = match process_name {
        Some(n) => Some(n.to_string()),
        None => None,
    };
    let n = resolve_dock_position(rules, process_name, configured);
    if n != t.effective {
        t.effective = n;
        true
    } else {
        false
    }
}

/// The djb2 hash of `bytes` (5381 to start; for each byte, times 33 plus the byte), taken
/// modulo 2^64.
pub open spec fn text_hash_spec(bytes: Seq<u8>) -> u64
    decreases bytes.len(),
{
    if bytes.len() == 0 {
        5381
    } else {
        ((text_hash_spec(bytes.drop_last()) as nat * 33 + bytes.last() as nat)
            % 0x1_0000_0000_0000_0000) as u64
    }
}

proof fn lemma_hash_step(h: u64, b: u8)
    ensures
        vstd::wrapping::u64_specs::wrapping_add(vstd::wrapping::u64_specs::wrapping_mul(h, 33), b as u64)
            == ((h as nat * 33 + b as nat) % 0x1_0000_0000_0000_0000) as u64,
{
    let r: int = 0x1_0000_0000_0000_0000;
    let x = (h as int * 33) % r;
    vstd::arithmetic::div_mod::lemma_add_mod_noop(h as int * 33, b as int, r);
    vstd::arithmetic::div_mod::lemma_small_mod(b as nat, r as nat);
    vstd::arithmetic::div_mod::lemma_mod_bound(h as int * 33, r);
    if x + b >= r {
        vstd::arithmetic::div_mod::lemma_mod_sub_multiples_vanish(x + b - r, r);
        vstd::arithmetic::div_mod::lemma_small_mod((x + b - r) as nat, r as nat);
    } else {
        vstd::arithmetic::div_mod::lemma_small_mod((x + b) as nat, r as nat);
    }
}

/// The hash the lyric views use to notice that a text changed (see `text_hash_spec`).
pub fn text_hash(text: &str) -> (h: u64)
    ensures
        h == text_hash_spec(text.spec_bytes()),
{
    let bytes = text.as_bytes();
    let mut h: u64 = 5381;
    let mut i: usize = 0;
    while i < bytes.len()
        invariant
            i <= bytes@.len(),
            h == text_hash_spec(bytes@.subrange(0, i as int)),
        decreases bytes.len() - i,
    {
        let ghost prefix = bytes@.subrange(0, i + 1);
        assert(prefix.drop_last() =~= bytes@.subrange(0, i as int));
        proof {
            lemma_hash_step(h, bytes[i as int]);
        }
        h = h.wrapping_mul(33).wrapping_add(bytes[i] as u64);
        i += 1;
    }
    assert(bytes@.subrange(0, bytes@.len() as int) =~= bytes@);
    h
}

/// Which lyric line the expanded view scrolls to, the one it scrolls away from, and the
/// song they belong to (by the hash of its title).
#[derive(Clone, Copy, Debug, PartialEq, Eq, Structural)]
pub struct LyricScroll {
    pub current_idx: usize,
    pub old_idx: usize,
    pub title_hash: u64,
}

/// What a frame does to the scroll animation.
#[derive(Clone, Copy, Debug, PartialEq, Eq, Structural)]
pub enum ScrollChange {
    Kept,
    /// A new song: the animation is finished at once.
    Reset,
    /// A new line: the animation starts over.
    Restarted,
}

/// The scroll state after a frame showing line `new_idx` of the song titled by
/// `title_hash`: a new song starts from line 0 with nothing to animate; then a line other
/// than the current one becomes current and the old one is remembered.
pub open spec fn lyric_scroll_spec(s: LyricScroll, new_idx: usize, title_hash: u64) -> (LyricScroll, ScrollChange) {
    let t = if title_hash != s.title_hash {
        LyricScroll { current_idx: 0, old_idx: 0, title_hash }
    } else {
        s
    };
    if t.current_idx != new_idx {
        (LyricScroll { old_idx: t.current_idx, current_idx: new_idx, ..t }, ScrollChange::Restarted)
    } else if title_hash != s.title_hash {
        (t, ScrollChange::Reset)
    } else {
        (t, ScrollChange::Kept)
    }
}

impl LyricScroll {
    /// No line yet.
    pub fn new() -> (r: LyricScroll)
        ensures
            r == (LyricScroll { current_idx: 0, old_idx: 0, title_hash: 0 }),
    {
        LyricScroll { current_idx: 0, old_idx: 0, title_hash: 0 }
    }

    /// Follows the line shown for the song titled `song_title` (see `lyric_scroll_spec`).
    pub fn update(&mut self, new_idx: usize, song_title: &str) -> (r: ScrollChange)
        ensures
            (*final(self), r) == lyric_scroll_spec(*old(self), new_idx, text_hash_spec(song_title.spec_bytes())),
    {
        let hash = text_hash(song_title);
        let mut change = ScrollChange::Kept;
        if hash != self.title_hash {
            self.title_hash = hash;
            self.current_idx = 0;
            self.old_idx = 0;
            change = ScrollChange::Reset;
        }
        if self.current_idx != new_idx {
            self.old_idx = self.current_idx;
            self.current_idx = new_idx;
            change = ScrollChange::Restarted;
        }
        change
    }
}

/// Which page of the expanded island shows: the player, the widgets, or neither while the
/// page slide is exactly half way.
#[derive(Clone, Copy, Debug, PartialEq, Eq, Structural)]
pub enum IslandPage {
    Player,
    Widgets,
    Between,
}

/// Which of the island's controls a press landed on (each false when the control is not
/// there).
#[derive(Clone, Copy, Debug, PartialEq, Eq, Structural)]
pub struct PressHits {
    pub pause: bool,
    pub prev: bool,
    pub next: bool,
    pub progress_bar: bool,
    pub music_info: bool,
    pub gear: bool,
    pub back_arrow: bool,
    pub forward_arrow: bool,
    /// The strip at the top of the expanded island that folds it.
    pub top_strip: bool,
    pub mini_prev: bool,
    pub mini_play: bool,
    pub mini_next: bool,
    /// The island itself, or the handle of the hidden island.
    pub island_or_handle: bool,
}

/// What pressing on the island does.
#[derive(Clone, Copy, Debug, PartialEq, Eq, Structural)]
pub enum PressAction {
    TogglePlay,
    Prev,
    Next,
    StartSeek,
    ShowMainWindow,
    OpenSettings,
    ShowPlayerPage,
    ShowWidgetPage,
    Collapse,
    StartDrag,
    Nothing,
}

/// The action of a press: on the expanded player page, the play, previous and next
/// buttons (with music), the progress bar, then the track info; on the widget page, the
/// gear, then the back arrow; on the player page the arrow to the widgets; then the top
/// strip folds the island. On the folded island, with music paused and mini controls on,
/// the mini buttons; otherwise a press on the island starts a drag.
pub open spec fn press_action_spec(
    expanded: bool,
    page: IslandPage,
    music_on: bool,
    is_playing: bool,
    mini_controls: bool,
    h: PressHits,
) -> PressAction {
    if expanded {
        if page == IslandPage::Player && music_on && h.pause {
            PressAction::TogglePlay
        } else if page == IslandPage::Player && music_on && h.prev {
            PressAction::Prev
        } else if page == IslandPage::Player && music_on && h.next {
            PressAction::Next
        } else if page == IslandPage::Player && h.progress_bar {
            PressAction::StartSeek
        } else if page == IslandPage::Player && h.music_info {
            PressAction::ShowMainWindow
        } else if page == IslandPage::Widgets && h.gear {
            PressAction::OpenSettings
        } else if page == IslandPage::Widgets && h.back_arrow {
            PressAction::ShowPlayerPage
        } else if page == IslandPage::Player && h.forward_arrow {
            PressAction::ShowWidgetPage
        } else if h.top_strip {
            PressAction::Collapse
        } else {
            PressAction::Nothing
        }
    } else if music_on && !is_playing && mini_controls && h.mini_prev {
        PressAction::Prev
    } else if music_on && !is_playing && mini_controls && h.mini_play {
        PressAction::TogglePlay
    } else if music_on && !is_playing && mini_controls && h.mini_next {
        PressAction::Next
    } else if h.island_or_handle {
        PressAction::StartDrag
    } else {
        PressAction::Nothing
    }
}

/// What a press on the island does (see `press_action_spec`).
pub fn press_action(
    expanded: bool,
    page: IslandPage,
    music_on: bool,
    is_playing: bool,
    mini_controls: bool,
    h: PressHits,
) -> (r: PressAction)
    ensures
        r == press_action_spec(expanded, page, music_on, is_playing, mini_controls, h),
{
    if expanded {
        if page == IslandPage::Player {
            if music_on && h.pause {
                return PressAction::TogglePlay;
            }
            if music_on && h.prev {
                return PressAction::Prev;
            }
            if music_on && h.next {
                return PressAction::Next;
            }
            if h.progress_bar {
                return PressAction::StartSeek;
            }
            if h.music_info {
                return PressAction::ShowMainWindow;
            }
        }
        if page == IslandPage::Widgets {
            if h.gear {
                return PressAction::OpenSettings;
            }
            if h.back_arrow {
                return PressAction::ShowPlayerPage;
            }
        }
        if page == IslandPage::Player && h.forward_arrow {
            return PressAction::ShowWidgetPage;
        }
        if h.top_strip {
            PressAction::Collapse
        } else {
            PressAction::Nothing
        }
    } else {
        if music_on && !is_playing && mini_controls {
            if h.mini_prev {
                return PressAction::Prev;
            }
            if h.mini_play {
                return PressAction::TogglePlay;
            }
            if h.mini_next {
                return PressAction::Next;
            }
        }
        if h.island_or_handle {
            PressAction::StartDrag
        } else {
            PressAction::Nothing
        }
    }
}

/// What a held button does in a frame: pressing outside the expanded island folds it;
/// pressing on the folded island keeps it from hiding (its idle timer restarts).
pub fn held_press_effect(expanded: bool, hovering: bool, pressed: bool) -> (r: (bool, bool))
    ensures
        r == (expanded && !hovering && pressed, !expanded && hovering && pressed),
{
    (expanded && !hovering && pressed, !expanded && hovering && pressed)
}

/// Which monitor the island goes to.
#[derive(Clone, Copy, Debug, PartialEq, Eq, Structural)]
pub enum MonitorChoice {
    /// The primary monitor (or, without one, the window's current monitor).
    Primary,
    /// The monitor at this index in the windowing system's list.
    Index(usize),
}

/// `s` without the leading repetitions of the non-empty `p` (`str::trim_start_matches`).
pub open spec fn strip_leading(s: Seq<char>, p: Seq<char>) -> Seq<char>
    decreases s.len(),
{
    if p.len() > 0 && starts_with(s, p) {
        strip_leading(s.subrange(p.len() as int, s.len() as int), p)
    } else {
        s
    }
}

/// The prefix that marks a display device path: `\\.\`.
pub open spec fn device_prefix() -> Seq<char> {
    seq!['\\', '\\', '.', '\\']
}

/// A monitor named `mon_name` is the display device `name` when its name contains the
/// device name without its `\\.\` prefixes, or the device name contains its name.
pub open spec fn monitor_is_device(mon_name: Seq<char>, name: Seq<char>) -> bool {
    contains(mon_name, strip_leading(name, device_prefix())) || contains(name, mon_name)
}

/// The index of the first monitor, from `start` on, that has a name and is the display
/// device `name`.
pub open spec fn first_monitor_of(monitors: Seq<Option<Seq<char>>>, name: Seq<char>, start: int) -> Option<int>
    decreases monitors.len() - start,
{
    if start < 0 || start >= monitors.len() {
        None
    } else if monitors[start] matches Some(m) && monitor_is_device(m, name) {
        Some(start)
    } else {
        first_monitor_of(monitors, name, start + 1)
    }
}

/// The monitor for the setting `monitor_index` (negative: the primary one), given the
/// active display devices' names `devices` and the windowing system's monitors (their
/// names, when known): the first monitor that is the chosen device, else the monitor at
/// that index, else the primary one.
pub open spec fn choose_monitor_spec(
    devices: Seq<Seq<char>>,
    monitors: Seq<Option<Seq<char>>>,
    monitor_index: i32,
) -> MonitorChoice {
    if monitor_index < 0 {
        MonitorChoice::Primary
    } else {
        let idx = monitor_index as int;
        let fallback = if idx < monitors.len() {
            MonitorChoice::Index(idx as usize)
        } else {
            MonitorChoice::Primary
        };
        if idx < devices.len() {
            match first_monitor_of(monitors, devices[idx], 0) {
                Some(i) => MonitorChoice::Index(i as usize),
                None => fallback,
            }
        } else {
            fallback
        }
    }
}

fn strip_leading_exec(s: &[char], p: &[char]) -> (r: Vec<char>)
    requires
        p@.len() > 0,
    ensures
        r@ == strip_leading(s@, p@),
{
    let mut start: usize = 0;
    assert(s@.subrange(0, s@.len() as int) =~= s@);
    loop
        invariant
            start <= s@.len(),
            p@.len() > 0,
            strip_leading(s@, p@) == strip_leading(s@.subrange(start as int, s@.len() as int), p@),
        ensures
            start <= s@.len(),
            strip_leading(s@, p@) == s@.subrange(start as int, s@.len() as int),
        decreases s.len() - start,
    {
        let ghost rest = s@.subrange(start as int, s@.len() as int);
        if p.len() > s.len() - start || !occurs_at_exec(s, p, start) {
            assert(!starts_with(rest, p@)) by {
                if starts_with(rest, p@) {
                    assert(s@.subrange(start as int, start + p@.len()) =~= rest.subrange(0, p@.len() as int));
                }
            }
            break;
        }
        assert(s@.subrange(start as int, start + p@.len()) =~= rest.subrange(0, p@.len() as int));
        assert(s@.subrange(start + p.len(), s@.len() as int) =~= rest.subrange(p@.len() as int, rest.len() as int));
        start = start + p.len();
    }
    let mut r: Vec<char> = Vec::new();
    let mut i = start;
    while i < s.len()
        invariant
            start <= i <= s@.len(),
            r@ == s@.subrange(start as int, i as int),
        decreases s.len() - i,
    {
        r.push(s[i]);
        assert(r@ =~= s@.subrange(start as int, i + 1));
        i += 1;
    }
    r
}

/// Chooses the monitor for the island (see `choose_monitor_spec`).
pub fn choose_monitor(devices: &[String], monitors: &[Option<String>], monitor_index: i32) -> (r: MonitorChoice)
    ensures
        r == choose_monitor_spec(
            devices@.map_values(|d: String| d@),
            monitors@.map_values(|m: Option<String>| opt_string_view(m)),
            monitor_index,
        ),
{
    let ghost dv = devices@.map_values(|d: String| d@);
    let ghost mv = monitors@.map_values(|m: Option<String>| opt_string_view(m));
    if monitor_index < 0 {
        return MonitorChoice::Primary;
    }
    let idx = monitor_index as usize;
    let fallback = if idx < monitors.len() {
        MonitorChoice::Index(idx)
    } else {
        MonitorChoice::Primary
    };
    if idx >= devices.len() {
        return fallback;
    }
    let name = chars_of(devices[idx].as_str());
    assert(name@ == dv[idx as int]);
    let prefix: Vec<char> = vec!['\\', '\\', '.', '\\'];
    assert(prefix@ =~= device_prefix());
    let bare = strip_leading_exec(name.as_slice(), prefix.as_slice());
    let mut i: usize = 0;
    while i < monitors.len()
        invariant
            i <= monitors@.len(),
            dv == devices@.map_values(|d: String| d@),
            mv == monitors@.map_values(|m: Option<String>| opt_string_view(m)),
            idx < devices@.len(),
            0 <= monitor_index,
            idx as int == monitor_index as int,
            fallback == (if (idx as int) < monitors@.len() {
                MonitorChoice::Index(idx)
            } else {
                MonitorChoice::Primary
            }),
            name@ == dv[idx as int],
            bare@ == strip_leading(name@, device_prefix()),
            first_monitor_of(mv, name@, 0) == first_monitor_of(mv, name@, i as int),
        decreases monitors.len() - i,
    {
        assert(mv[i as int] == opt_string_view(monitors@[i as int]));
        match &monitors[i] {
            Some(m) => {
                let mc = chars_of(m.as_str());
                if chars_contains(mc.as_slice(), bare.as_slice()) || chars_contains(name.as_slice(), mc.as_slice()) {
                    assert(mv[i as int] == Some(mc@));
                    assert(monitor_is_device(mc@, name@));
                    assert(first_monitor_of(mv, name@, i as int) == Some(i as int));
                    return MonitorChoice::Index(i);
                }
            },
            None => {},
        }
        i += 1;
    }
    fallback
}

/// The tray menu entry whose identifier is `id`, given the identifiers of the four entries.
pub open spec fn tray_action_spec(
    id: Seq<char>,
    toggle: Seq<char>,
    settings: Seq<char>,
    restart: Seq<char>,
    quit: Seq<char>,
) -> Option<TrayAction> {
    if id == toggle {
        Some(TrayAction::ToggleVisibility)
    } else if id == settings {
        Some(TrayAction::OpenSettings)
    } else if id == restart {
        Some(TrayAction::Restart)
    } else if id == quit {
        Some(TrayAction::Exit)
    } else {
        None
    }
}

/// The tray action of the menu entry `id` (see `tray_action_spec`).
pub fn tray_action_for(id: &str, toggle: &str, settings: &str, restart: &str, quit: &str) -> (r: Option<TrayAction>)
    ensures
        r == tray_action_spec(id@, toggle@, settings@, restart@, quit@),
{
    if str_equal(id, toggle) {
        Some(TrayAction::ToggleVisibility)
    } else if str_equal(id, settings) {
        Some(TrayAction::OpenSettings)
    } else if str_equal(id, restart) {
        Some(TrayAction::Restart)
    } else if str_equal(id, quit) {
        Some(TrayAction::Exit)
    } else {
        None
    }
}

/// What taking up changed settings asks of the island besides new sizes and position.
#[derive(Clone, Copy, Debug, PartialEq, Eq, Structural)]
pub struct ReloadEffects {
    /// The island style changed: cached backgrounds and glass effects are dropped.
    pub style_changed: bool,
    /// Mica was the old style: it is switched off.
    pub disable_mica: bool,
    /// The window is to be kept out of (`Some(true)`) or let into (`Some(false)`) screen
    /// capture; liquid glass needs it out.
    pub exclude_from_capture: Option<bool>,
    /// A cover shape changed: cached cover art is dropped.
    pub clear_cover_cache: bool,
    /// The custom font changed: it is loaded again.
    pub refresh_font: bool,
}

/// The effects of new settings on the island: a style change drops caches, leaves mica,
/// and takes the window out of screen capture exactly while the style is liquid glass (the
/// last decision of the two counting); a cover shape change drops cached covers; a font
/// change reloads the font.
pub open spec fn reload_effects_spec(
    old_style: Seq<char>,
    new_style: Seq<char>,
    shapes_changed: bool,
    font_changed: bool,
) -> ReloadEffects {
    let changed = old_style != new_style;
    ReloadEffects {
        style_changed: changed,
        disable_mica: changed && old_style == "mica"@,
        exclude_from_capture: if changed && new_style == "liquid_glass"@ {
            Some(true)
        } else if changed && old_style == "liquid_glass"@ {
            Some(false)
        } else {
            None
        },
        clear_cover_cache: shapes_changed,
        refresh_font: font_changed,
    }
}

/// What the island does when its settings changed (see `reload_effects_spec`).
pub fn reload_effects(
    old_style: &str,
    new_style: &str,
    old_mini_shape: &str,
    new_mini_shape: &str,
    old_expanded_shape: &str,
    new_expanded_shape: &str,
    old_font: Option<&str>,
    new_font: Option<&str>,
) -> (r: ReloadEffects)
    ensures
        r == reload_effects_spec(
            old_style@,
            new_style@,
            old_mini_shape@ != new_mini_shape@ || old_expanded_shape@ != new_expanded_shape@,
            opt_str_view(old_font) != opt_str_view(new_font),
        ),
{
    let changed = !str_equal(old_style, new_style);
    let mut exclude: Option<bool> = None;
    let mut disable_mica = false;
    if changed {
        if str_equal(old_style, "mica") {
            disable_mica = true;
        }
        if str_equal(old_style, "liquid_glass") {
            exclude = Some(false);
        }
        if str_equal(new_style, "liquid_glass") {
            exclude = Some(true);
        }
    }
    let shapes_changed = !str_equal(old_mini_shape, new_mini_shape) || !str_equal(
        old_expanded_shape,
        new_expanded_shape,
    );
    let font_changed = match (old_font, new_font) {
        (Some(a), Some(b)) => !str_equal(a, b),
        (None, None) => false,
        _ => true,
    };
    ReloadEffects {
        style_changed: changed,
        disable_mica,
        exclude_from_capture: exclude,
        clear_cover_cache: shapes_changed,
        refresh_font: font_changed,
    }
}

impl DockTracker {
    /// New settings were taken up: the configured position holds again and the foreground
    /// process is looked at afresh.
    pub fn reset_for_config(&mut self, configured: DockPosition)
        ensures
            final(self).effective == configured,
            final(self).last_process is None,
    {
        self.effective = configured;
        self.last_process = None;
    }
}

/// What a frame of the island's loop does besides drawing.
#[derive(Clone, Copy, Debug, PartialEq, Eq, Structural)]
pub struct FrameDecision {
    /// The plugin was disabled or an update asked the program to end: the loop stops.
    pub quit: bool,
    /// Every 30th frame: read the settings file again.
    pub reload_config: bool,
    /// Every 10th frame: look whether a full-screen window or a hidden cursor hides the island.
    pub check_fullscreen: bool,
    /// Every 30th frame: look at the foreground process for the dock rules.
    pub follow_process: bool,
    /// The filter follows its pattern while its scope is not `Off`.
    pub refresh_filter: bool,
}

/// What frame number `frame_count` does (see `FrameDecision`); nothing but stopping once
/// the loop is to end.
pub open spec fn frame_decision_spec(
    frame_count: u64,
    disabled: bool,
    exit_requested: bool,
    scope: LyricsFilterScope,
) -> FrameDecision {
    let quit = disabled || exit_requested;
    FrameDecision {
        quit,
        reload_config: !quit && frame_count % 30 == 0,
        check_fullscreen: !quit && frame_count % 10 == 0,
        follow_process: !quit && frame_count % 30 == 0,
        refresh_filter: !quit && !(scope is Off),
    }
}

/// Decides what frame number `frame_count` does (see `frame_decision_spec`).
pub fn frame_decision(
    frame_count: u64,
    disabled: bool,
    exit_requested: bool,
    scope: LyricsFilterScope,
) -> (r: FrameDecision)
    ensures
        r == frame_decision_spec(frame_count, disabled, exit_requested, scope),
{
    let quit = disabled || exit_requested;
    let off = match scope {
        LyricsFilterScope::Off => true,
        _ => false,
    };
    FrameDecision {
        quit,
        reload_config: !quit && frame_count % 30 == 0,
        check_fullscreen: !quit && frame_count % 10 == 0,
        follow_process: !quit && frame_count % 30 == 0,
        refresh_filter: !quit && !off,
    }
}

} // verus!
