use std::hash::BuildHasher;
use std::sync::Arc;

use echomusic_lyrics_winisland::config::LyricsFilterScope;
use echomusic_lyrics_winisland::lyric_filter::LyricsFilter;
use echomusic_lyrics_winisland::lyrics::{
    filtered_lyric_text, LyricCharacter, LyricLine, MusicData, MusicMetadata,
};
use echomusic_lyrics_winisland::media_state::{
    apply_favorite_request, apply_music_data, apply_seek, artist_matches, current_filtered_lyric,
    current_line_filtered, desktop_lyric, effective_position, favorite_target_matches,
    highlighted_characters,
    handle_ws_event, is_image, should_poll_playback, text_matches,
    EventOutcome, MediaEvent, MediaState, PlayAction, PlayerRequest,
};

#[test]
fn favorite_target_matches_same_track_id() {
    let current = Some("123456".to_string());
    assert!(favorite_target_matches(&current, Some("123456")));
}

#[test]
fn favorite_target_rejects_different_track_id() {
    let current = Some("123456".to_string());
    assert!(!favorite_target_matches(&current, Some("654321")));
}

#[test]
fn favorite_target_allows_missing_track_id() {
    let current = Some("123456".to_string());
    assert!(favorite_target_matches(&current, None));
    assert!(favorite_target_matches(&None, Some("123456")));
}

fn line_at(time_ms: u64, text: &str) -> LyricLine {
    LyricLine { time_ms, text: text.to_string(), characters: None }
}

fn track(title: &str, artist: &str, lines: Vec<LyricLine>, cover: Option<Vec<u8>>) -> MusicData {
    MusicData {
        metadata: MusicMetadata {
            track_id: Some("42".to_string()),
            title: title.to_string(),
            artist: artist.to_string(),
            artists: vec![],
            cover: cover.map(Arc::new),
            is_favorite: true,
        },
        lyrics: Arc::new(lines),
    }
}

const PNG: [u8; 9] = [0x89, 0x50, 0x4E, 0x47, 0x0D, 0x0A, 0x1A, 0x0A, 7];

#[test]
fn new_state_knows_nothing() {
    let s = MediaState::new();
    assert!(s.title.is_empty() && s.track_id.is_none() && s.lyrics.is_none());
    assert_eq!(s.play_mode, "list");
    assert_eq!(s.effective_duration_ms(), 0);
    assert!(!should_poll_playback(&s));
}

#[test]
fn first_track_is_taken_whole_and_asks_for_playback_state() {
    let mut s = MediaState::new();
    let out = handle_ws_event(
        &mut s,
        MediaEvent::MusicData(track("Song", "Singer", vec![line_at(0, "a")], Some(PNG.to_vec()))),
    );
    assert_eq!(
        out,
        EventOutcome { publish: true, touch_clock: false, request: Some(PlayerRequest::GetPlaybackState) }
    );
    assert_eq!(s.title, "Song");
    assert_eq!(s.track_id.as_deref(), Some("42"));
    assert!(s.is_favorite);
    let expected = std::hash::BuildHasherDefault::<std::collections::hash_map::DefaultHasher>::default()
        .hash_one(&PNG[..]);
    assert_eq!(s.thumbnail_hash, expected);
}

#[test]
fn lyrics_for_another_song_are_dropped() {
    let mut s = MediaState::new();
    s.title = "Song".to_string();
    s.artist = "Singer".to_string();
    let before_hash = s.thumbnail_hash;
    let published = apply_music_data(&mut s, track("Other", "Singer", vec![line_at(0, "x")], None));
    assert!(!published);
    assert!(s.lyrics.is_none());
    assert_eq!(s.thumbnail_hash, before_hash);
    let wrong_artist = apply_music_data(&mut s, track("Song", "Nobody", vec![line_at(0, "x")], None));
    assert!(!wrong_artist);
    let published = apply_music_data(&mut s, track(" song (live) ", "SINGER", vec![line_at(0, "x")], None));
    assert!(published);
    assert_eq!(s.lyrics.as_ref().unwrap().len(), 1);
    assert_eq!(s.title, "Song");
}

#[test]
fn matching_report_replaces_cover_only_when_it_is_an_image() {
    let mut s = MediaState::new();
    s.title = "Song".to_string();
    apply_music_data(&mut s, track("Song", "", vec![], Some(PNG.to_vec())));
    assert!(s.thumbnail.is_some());
    assert_ne!(s.thumbnail_hash, 0);
    apply_music_data(&mut s, track("Song", "", vec![], Some(vec![1, 2, 3, 4, 5])));
    assert!(s.thumbnail.is_none());
    assert_eq!(s.thumbnail_hash, 0);
}

#[test]
fn image_signatures() {
    assert!(is_image(&[0xFF, 0xD8, 0xFF, 0xE0, 0]));
    assert!(is_image(&PNG));
    assert!(is_image(b"GIF89a.."));
    assert!(is_image(b"RIFF\0\0\0\0WEBPVP8 "));
    assert!(!is_image(b"RIFF\0\0\0\0WAVEfmt "));
    assert!(!is_image(&[0xFF, 0xD8, 0xFF, 0xE0]));
}

#[test]
fn text_and_artist_matching() {
    assert!(text_matches("ABC", "abc"));
    assert!(text_matches("Hello  World", "hello world (live)"));
    assert!(!text_matches("", "abc"));
    assert!(!text_matches("abc", "xyz"));
    assert!(artist_matches("", &[], "Anyone"));
    assert!(artist_matches("A", &["Singer B".to_string()], "singer b"));
    assert!(!artist_matches("A", &["B".to_string()], "C"));
    assert!(artist_matches("A", &[], "   "));
}

#[test]
fn playback_events_update_the_clock() {
    let mut s = MediaState::new();
    let out = handle_ws_event(
        &mut s,
        MediaEvent::PlaybackState { position_ms: 1000, duration_ms: 5000, is_playing: true },
    );
    assert_eq!(out, EventOutcome { publish: true, touch_clock: true, request: None });
    assert_eq!((s.position_ms, s.duration_ms, s.is_playing), (1000, 5000, true));
    let out = handle_ws_event(
        &mut s,
        MediaEvent::PlaybackState { position_ms: 0, duration_ms: 0, is_playing: false },
    );
    assert_eq!(out, EventOutcome { publish: true, touch_clock: false, request: None });
    assert_eq!((s.position_ms, s.duration_ms, s.is_playing), (1000, 5000, false));
    handle_ws_event(&mut s, MediaEvent::PlaybackAction { action: PlayAction::Play, position_ms: 7 });
    assert!(s.is_playing && s.position_ms == 7);
    handle_ws_event(&mut s, MediaEvent::PlaybackAction { action: PlayAction::Seek, position_ms: 9 });
    assert!(s.is_playing && s.position_ms == 9);
    let out = handle_ws_event(&mut s, MediaEvent::Connected);
    assert_eq!(out.request, Some(PlayerRequest::RequestTrackLyrics));
}

#[test]
fn track_change_clears_the_track() {
    let mut s = MediaState::new();
    handle_ws_event(&mut s, MediaEvent::MusicData(track("Song", "", vec![line_at(0, "a")], Some(PNG.to_vec()))));
    s.duration_ms = 3000;
    handle_ws_event(&mut s, MediaEvent::PlaybackAction { action: PlayAction::Next, position_ms: 55 });
    assert!(s.title.is_empty() && s.track_id.is_none() && s.lyrics.is_none());
    assert!(s.thumbnail.is_none() && s.thumbnail_hash == 0 && !s.is_favorite);
    assert_eq!(s.position_ms, 0);
    assert_eq!(s.duration_ms, 3000);
}

#[test]
fn foreign_favorite_is_ignored() {
    let mut s = MediaState::new();
    s.track_id = Some("1".to_string());
    let out = handle_ws_event(
        &mut s,
        MediaEvent::FavoriteState { is_favorite: true, track_id: Some("2".to_string()) },
    );
    assert!(!out.publish);
    assert!(!s.is_favorite);
    let out = handle_ws_event(
        &mut s,
        MediaEvent::FavoriteState { is_favorite: true, track_id: Some("1".to_string()) },
    );
    assert!(out.publish && s.is_favorite);
    let mut t = MediaState::new();
    handle_ws_event(&mut t, MediaEvent::FavoriteState { is_favorite: true, track_id: Some("9".to_string()) });
    assert_eq!(t.track_id.as_deref(), Some("9"));
    assert!(!apply_favorite_request(&mut s, false, Some("3")));
    assert!(s.is_favorite);
    assert!(apply_favorite_request(&mut s, false, None));
    assert!(!s.is_favorite);
    apply_seek(&mut s, 1234);
    assert_eq!(s.position_ms, 1234);
}

#[test]
fn position_follows_the_clock() {
    assert_eq!(effective_position(1000, true, 500, 0), 1500);
    assert_eq!(effective_position(1000, false, 500, 0), 1000);
    assert_eq!(effective_position(1000, false, 99_999, 0), 1000);
    assert_eq!(effective_position(1000, true, 500, -2000), 0);
    assert_eq!(effective_position(1000, true, 500, 250), 1750);
    assert_eq!(effective_position(u64::MAX - 1, true, 10, 0), 0);
}

fn lines() -> Vec<LyricLine> {
    vec![line_at(0, "intro: credits"), line_at(1000, " one "), line_at(2000, "作曲：someone"), line_at(3000, "three")]
}

#[test]
fn current_lyric_and_characters() {
    let mut s = MediaState::new();
    s.title = "Song".to_string();
    let mut l = lines();
    l[1].characters = Some(vec![
        LyricCharacter { s: 1000, e: 1100, t: "o".to_string() },
        LyricCharacter { s: 1100, e: 1200, t: "ne".to_string() },
    ]);
    s.lyrics = Some(Arc::new(l));
    s.position_ms = 1000;
    assert_eq!(s.current_lyric(0, 0).as_deref(), Some(" one "));
    assert_eq!(s.effective_position_ms(150, 0), 1000);
    s.is_playing = true;
    assert_eq!(s.effective_position_ms(150, 0), 1150);
    let (chars, k) = s.current_character_data(150, 0).unwrap();
    assert_eq!(chars.len(), 2);
    assert_eq!(k, 1);
    assert!(s.current_character_data(2000, 0).is_none());
    s.position_ms = 0;
    s.is_playing = false;
    assert_eq!(s.current_lyric(0, -1).as_deref(), Some("intro: credits"));
    s.lyrics = Some(Arc::new(vec![line_at(500, "later")]));
    assert_eq!(s.current_lyric(0, 499).as_deref(), None);
    assert_eq!(s.current_lyric(0, 500).as_deref(), Some("later"));
    assert!(s.current_character_data(0, 500).is_none());
    s.lyrics = None;
    assert_eq!(s.current_lyric(0, 0), None);
}

#[test]
fn filtered_lyric_falls_back_to_earlier_lines_and_title() {
    let mut f = LyricsFilter::new();
    f.refresh("^([^：]*)：.*$|^([^:]*):.*$");
    let re = f.regex().as_ref().unwrap();
    let l = lines();
    assert_eq!(filtered_lyric_text(&l, 3, "Song", re), "three");
    assert_eq!(filtered_lyric_text(&l, 2, "Song", re), "one");
    assert_eq!(filtered_lyric_text(&l, 0, "Song", re), "Song");
    assert_eq!(filtered_lyric_text(&l, 9, "Song", re), "Song");

    let mut s = MediaState::new();
    s.title = "Song".to_string();
    s.lyrics = Some(Arc::new(l));
    s.position_ms = 2500;
    assert_eq!(current_filtered_lyric(&s, 0, 0, &f).as_deref(), Some("one"));
    assert!(current_line_filtered(&s, 0, 0, &f));
    s.position_ms = 3000;
    assert!(!current_line_filtered(&s, 0, 0, &f));
    s.position_ms = 2500;
    assert_eq!(
        desktop_lyric(&s, 0, 0, &f, LyricsFilterScope::Desktop, true, false).as_deref(),
        Some("one")
    );
    assert_eq!(
        desktop_lyric(&s, 0, 0, &f, LyricsFilterScope::Off, true, false).as_deref(),
        Some("作曲：someone")
    );
    assert_eq!(desktop_lyric(&s, 0, 0, &f, LyricsFilterScope::All, false, false), None);
    assert_eq!(desktop_lyric(&s, 0, 0, &f, LyricsFilterScope::All, true, true), None);
}

#[test]
fn lyrics_filter_refresh() {
    let mut f = LyricsFilter::new();
    assert!(f.regex().is_none());
    f.refresh("   ");
    assert!(f.regex().is_none());
    f.refresh("(unclosed");
    assert!(f.regex().is_none());
    f.refresh("a+");
    assert!(f.regex().is_some());
    f.refresh("a+");
    assert!(f.regex().is_some());
    f.refresh("");
    assert!(f.regex().is_none());
}

#[test]
fn highlighted_characters_respect_settings_and_filter() {
    let mut f = LyricsFilter::new();
    f.refresh("：");
    let mut s = MediaState::new();
    s.title = "Song".to_string();
    let chars = vec![LyricCharacter { s: 0, e: 10, t: "作".to_string() }];
    let mut hidden = line_at(0, "作曲：x");
    hidden.characters = Some(chars.clone());
    let mut shown = line_at(100, "ok");
    shown.characters = Some(chars);
    s.lyrics = Some(Arc::new(vec![hidden, shown]));
    s.position_ms = 5;
    assert!(highlighted_characters(&s, 0, 0, &f, LyricsFilterScope::Desktop, true, true).is_none());
    assert!(highlighted_characters(&s, 0, 0, &f, LyricsFilterScope::Off, true, true).is_some());
    assert!(highlighted_characters(&s, 0, 0, &f, LyricsFilterScope::Off, false, true).is_none());
    assert!(highlighted_characters(&s, 0, 0, &f, LyricsFilterScope::Off, true, false).is_none());
    s.position_ms = 150;
    let (cs, k) = highlighted_characters(&s, 0, 0, &f, LyricsFilterScope::All, true, true).unwrap();
    assert_eq!((cs.len(), k), (1, 0));
}

#[test]
fn no_lyrics_means_no_position_arithmetic() {
    let mut s = MediaState::new();
    s.position_ms = u64::MAX - 1;
    s.is_playing = true;
    assert_eq!(s.current_character_data(10, i64::MIN), None);
    s.lyrics = Some(Arc::new(vec![]));
    assert_eq!(s.current_lyric(10, i64::MIN), None);
}
