use vstd::prelude::*;

use std::sync::Arc;

use crate::config::LyricsFilterScope;
use crate::lyric_filter::{regex_is_match, spec_regex_is_match, LyricsFilter};
use crate::json::JsonValue;
use crate::lyrics::{
    current_character_index, current_lyric_index, filtered_lyric_text, filtered_text_spec,
    is_current_character, is_current_line, lemma_payload_lines_sorted, lines_sorted, lines_view,
    music_payload_spec, opt_string_view, views_sorted, LyricCharacter, LyricLine, LyricLineView,
    MusicData, MusicDataView,
};
use crate::text::{
    chars_contains, chars_equal, contains, normalize_match_text, normalize_match_text_spec, trim,
    trimmed,
};

verus! {

broadcast use vstd::string::group_string_axioms;

/// The player's state as the island shows it (the playback clock aside).
#[derive(Clone, Debug)]
pub struct MediaState {
    pub track_id: Option<String>,
    pub title: String,
    pub artist: String,
    pub album: String,
    pub is_playing: bool,
    pub is_favorite: bool,
    pub thumbnail: Option<Arc<Vec<u8>>>,
    pub thumbnail_hash: u64,
    pub position_ms: u64,
    pub lyrics: Option<Arc<Vec<LyricLine>>>,
    pub duration_ms: u64,
    pub play_mode: String,
}

pub struct MediaStateView {
    pub track_id: Option<Seq<char>>,
    pub title: Seq<char>,
    pub artist: Seq<char>,
    pub album: Seq<char>,
    pub is_playing: bool,
    pub is_favorite: bool,
    pub thumbnail: Option<Seq<u8>>,
    pub thumbnail_hash: u64,
    pub position_ms: u64,
    pub lyrics: Option<Seq<LyricLineView>>,
    pub duration_ms: u64,
    pub play_mode: Seq<char>,
}

impl View for MediaState {
    type V = MediaStateView;

    open spec fn view(&self) -> MediaStateView {
        MediaStateView {
            track_id: opt_string_view(self.track_id),
            title: self.title@,
            artist: self.artist@,
            album: self.album@,
            is_playing: self.is_playing,
            is_favorite: self.is_favorite,
            thumbnail: match self.thumbnail {
                Some(t) => Some(t@),
                None => None,
            },
            thumbnail_hash: self.thumbnail_hash,
            position_ms: self.position_ms,
            lyrics: match self.lyrics {
                Some(l) => Some(lines_view(l@)),
                None => None,
            },
            duration_ms: self.duration_ms,
            play_mode: self.play_mode@,
        }
    }
}

impl MediaState {
    /// The state before any player has reported: nothing playing, play mode `list`.
    pub fn new() -> (s: MediaState)
        ensures
            s@.track_id is None,
            s@.title.len() == 0,
            s@.artist.len() == 0,
            s@.album.len() == 0,
            !s@.is_playing,
            !s@.is_favorite,
            s@.thumbnail is None,
            s@.thumbnail_hash == 0,
            s@.position_ms == 0,
            s@.lyrics is None,
            s@.duration_ms == 0,
            s@.play_mode == "list"@,
    {
        MediaState {
            track_id: None,
            title: String::new(),
            artist: String::new(),
            album: String::new(),
            is_playing: false,
            is_favorite: false,
            thumbnail: None,
            thumbnail_hash: 0,
            position_ms: 0,
            lyrics: None,
            duration_ms: 0,
            play_mode: "list".to_string(),
        }
    }

    /// The track's length as last reported.
    pub fn effective_duration_ms(&self) -> (r: u64)
        ensures
            r == self.duration_ms,
    {
        self.duration_ms
    }
}

/// The playback position `elapsed_ms` after the last report, shifted by `delay_ms` and
/// clamped at zero: a playing track advances (saturating), a paused one stands still.
/// The position goes through `i64` as a two's complement reinterpretation.
pub open spec fn effective_position_spec(position_ms: u64, is_playing: bool, elapsed_ms: u64, delay_ms: i64) -> u64 {
    let raw = if is_playing {
        if position_ms + elapsed_ms > u64::MAX {
            u64::MAX
        } else {
            (position_ms + elapsed_ms) as u64
        }
    } else {
        position_ms
    };
    let shifted = (raw as i64) + delay_ms;
    if shifted < 0 {
        0
    } else {
        shifted as u64
    }
}

/// The signed sum `effective_position_spec` forms stays within `i64`.
pub open spec fn position_in_range(position_ms: u64, is_playing: bool, elapsed_ms: u64, delay_ms: i64) -> bool {
    let raw = if is_playing {
        if position_ms + elapsed_ms > u64::MAX {
            u64::MAX
        } else {
            (position_ms + elapsed_ms) as u64
        }
    } else {
        position_ms
    };
    i64::MIN <= (raw as i64) + delay_ms <= i64::MAX
}

/// The current playback position (see `effective_position_spec`).
pub fn effective_position(position_ms: u64, is_playing: bool, elapsed_ms: u64, delay_ms: i64) -> (r: u64)
    requires
        position_in_range(position_ms, is_playing, elapsed_ms, delay_ms),
    ensures
        r == effective_position_spec(position_ms, is_playing, elapsed_ms, delay_ms),
{
    let raw = if is_playing {
        position_ms.saturating_add(elapsed_ms)
    } else {
        position_ms
    };
    let shifted = raw as i64 + delay_ms;
    if shifted < 0 {
        0
    } else {
        shifted as u64
    }
}

/// No character of the line playing at `pos` has started: there is no such line, it has
/// no timed characters, or they all start later.
pub open spec fn no_character_reached(l: Seq<LyricLine>, pos: u64) -> bool {
    forall|i: int|
        #[trigger] is_current_line(l, pos, i) ==> (l[i].characters matches Some(v) ==> forall|j: int|
            0 <= j < v@.len() ==> pos < #[trigger] v@[j].s)
}

/// Two lines cannot both be the one playing.
proof fn lemma_current_line_unique(l: Seq<LyricLine>, pos: u64, i: int, j: int)
    requires
        is_current_line(l, pos, i),
        is_current_line(l, pos, j),
    ensures
        i == j,
{
    if i < j {
        assert(pos < l[j].time_ms);
    } else if j < i {
        assert(pos < l[i].time_ms);
    }
}

impl MediaState {
    /// The position `elapsed_ms` after the last report, shifted by `delay_ms`.
    pub fn effective_position_ms(&self, elapsed_ms: u64, delay_ms: i64) -> (r: u64)
        requires
            position_in_range(self.position_ms, self.is_playing, elapsed_ms, delay_ms),
        ensures
            r == effective_position_spec(self.position_ms, self.is_playing, elapsed_ms, delay_ms),
    {
        effective_position(self.position_ms, self.is_playing, elapsed_ms, delay_ms)
    }

    /// The text of the line playing at that position; `None` without lyrics or before the
    /// first line.
    pub fn current_lyric(&self, elapsed_ms: u64, delay_ms: i64) -> (r: Option<String>)
        requires
            self.lyrics is Some && self.lyrics->0@.len() > 0 ==> position_in_range(
                self.position_ms,
                self.is_playing,
                elapsed_ms,
                delay_ms,
            ),
        ensures
            self.lyrics is None ==> r is None,
            self.lyrics matches Some(l) ==> {
                let pos = effective_position_spec(self.position_ms, self.is_playing, elapsed_ms, delay_ms);
                lines_sorted(l@) ==> match r {
                    Some(t) => exists|i: int| is_current_line(l@, pos, i) && t@ == l@[i].text@,
                    None => forall|j: int| 0 <= j < l@.len() ==> pos < #[trigger] l@[j].time_ms,
                }
            },
    {
        let lyrics = match &self.lyrics {
            Some(l) => l,
            None => {
                return None;
            },
        };
        if lyrics.len() == 0 {
            return None;
        }
        let pos = self.effective_position_ms(elapsed_ms, delay_ms);
        match current_lyric_index(lyrics.as_slice(), pos) {
            Some(i) => Some(lyrics[i].text.clone()),
            None => None,
        }
    }

    /// The timed characters of the line playing at that position and the index of the
    /// character reached; `None` without lyrics, before the first line, for a line without
    /// timed characters, or before its first character.
    pub fn current_character_data(&self, elapsed_ms: u64, delay_ms: i64) -> (r: Option<(&[LyricCharacter], usize)>)
        requires
            self.lyrics is Some ==> position_in_range(self.position_ms, self.is_playing, elapsed_ms, delay_ms),
        ensures
            self.lyrics is None ==> r is None,
            r matches Some((cs, k)) ==> {
                let pos = effective_position_spec(self.position_ms, self.is_playing, elapsed_ms, delay_ms);
                &&& self.lyrics is Some
                &&& exists|i: int| #![trigger self.lyrics->0@[i]] {
                    &&& 0 <= i < self.lyrics->0@.len()
                    &&& self.lyrics->0@[i].time_ms <= pos
                    &&& (lines_sorted(self.lyrics->0@) ==> is_current_line(self.lyrics->0@, pos, i))
                    &&& self.lyrics->0@[i].characters matches Some(v) && v@ == cs@
                }
                &&& is_current_character(cs@, pos, k as int)
            },
            self.lyrics is Some && lines_sorted(self.lyrics->0@) && r is None ==> no_character_reached(
                self.lyrics->0@,
                effective_position_spec(self.position_ms, self.is_playing, elapsed_ms, delay_ms),
            ),
    {
        let lyrics = match &self.lyrics {
            Some(l) => l,
            None => {
                return None;
            },
        };
        let pos = self.effective_position_ms(elapsed_ms, delay_ms);
        let line_idx = match current_lyric_index(lyrics.as_slice(), pos) {
            Some(i) => i,
            None => {
                return None;
            },
        };
        let line = &lyrics[line_idx];
        proof {
            if lines_sorted(lyrics@) {
                assert forall|i: int| #[trigger] is_current_line(lyrics@, pos, i) implies i == line_idx by {
                    lemma_current_line_unique(lyrics@, pos, i, line_idx as int);
                }
            }
        }
        let characters = match &line.characters {
            Some(c) => c,
            None => {
                return None;
            },
        };
        match current_character_index(characters.as_slice(), pos) {
            Some(k) => {
                let cs = characters.as_slice();
                let ghost i = line_idx as int;
                assert(cs@ == characters@);
                assert(0 <= i < self.lyrics->0@.len() && self.lyrics->0@[i].time_ms <= pos && (
                lines_sorted(self.lyrics->0@) ==> is_current_line(self.lyrics->0@, pos, i)) && (
                self.lyrics->0@[i].characters matches Some(v) && v@ == cs@));
                assert(is_current_character(cs@, pos, k as int));
                Some((cs, k))
            },
            None => None,
        }
    }
}

/// Whether a favourite change for `incoming` concerns the current track `current`: it does
/// unless both ids are known and differ.
pub open spec fn favorite_target_spec(current: Option<Seq<char>>, incoming: Option<Seq<char>>) -> bool {
    match (current, incoming) {
        (Some(c), Some(i)) => c == i,
        _ => true,
    }
}

/// Whether a favourite change for `incoming_track_id` concerns the current track.
pub fn favorite_target_matches(current_track_id: &Option<String>, incoming_track_id: Option<&str>) -> (r: bool)
    ensures
        r == favorite_target_spec(
            opt_string_view(*current_track_id),
            match incoming_track_id {
                Some(s) => Some(s@),
                None => None,
            },
        ),
{
    match (current_track_id, incoming_track_id) {
        (Some(current), Some(incoming)) => crate::text::str_equal(current.as_str(), incoming),
        _ => true,
    }
}

/// Whether two titles (or artists) name the same thing: once normalised, neither is empty
/// and one contains the other.
pub open spec fn text_matches_spec(left: Seq<char>, right: Seq<char>) -> bool {
    let l = normalize_match_text_spec(left);
    let r = normalize_match_text_spec(right);
    l.len() > 0 && r.len() > 0 && (l == r || contains(l, r) || contains(r, l))
}

/// Whether `left` and `right` name the same thing (see `text_matches_spec`).
pub fn text_matches(left: &str, right: &str) -> (r: bool)
    ensures
        r == text_matches_spec(left@, right@),
{
    let l = normalize_match_text(left);
    let r = normalize_match_text(right);
    if l.len() == 0 || r.len() == 0 {
        return false;
    }
    chars_equal(l.as_slice(), r.as_slice()) || chars_contains(l.as_slice(), r.as_slice())
        || chars_contains(r.as_slice(), l.as_slice())
}

/// Whether lyrics metadata with `artist` and `artists` fits the player's artist `media`:
/// always when either side has no artist; else when the artist line or one of the
/// artists matches.
pub open spec fn artist_matches_spec(artist: Seq<char>, artists: Seq<Seq<char>>, media: Seq<char>) -> bool {
    ||| trim(media).len() == 0
    ||| (trim(artist).len() == 0 && artists.len() == 0)
    ||| text_matches_spec(artist, media)
    ||| exists|k: int| 0 <= k < artists.len() && text_matches_spec(#[trigger] artists[k], media)
}

/// Whether the metadata's artists fit the player's artist (see `artist_matches_spec`).
pub fn artist_matches(metadata_artist: &str, metadata_artists: &[String], media_artist: &str) -> (r: bool)
    ensures
        r == artist_matches_spec(
            metadata_artist@,
            metadata_artists@.map_values(|a: String| a@),
            media_artist@,
        ),
{
    let ghost names = metadata_artists@.map_values(|a: String| a@);
    let media_t = trimmed(media_artist);
    let meta_t = trimmed(metadata_artist);
    if media_t.as_str().is_empty() || (meta_t.as_str().is_empty() && metadata_artists.len() == 0) {
        return true;
    }
    if text_matches(metadata_artist, media_artist) {
        return true;
    }
    let mut i: usize = 0;
    while i < metadata_artists.len()
        invariant
            i <= metadata_artists@.len(),
            names == metadata_artists@.map_values(|a: String| a@),
            forall|k: int| 0 <= k < i ==> !text_matches_spec(#[trigger] names[k], media_artist@),
        decreases metadata_artists.len() - i,
    {
        if text_matches(metadata_artists[i].as_str(), media_artist) {
            assert(names[i as int] == metadata_artists@[i as int]@);
            return true;
        }
        i += 1;
    }
    false
}

/// What `DefaultHasher::new()` makes of a byte slice (length prefix, then the bytes).
/// Its keys are fixed, so for one build of the program the hash depends on the bytes
/// alone; the algorithm may differ between Rust releases and targets.
pub uninterp spec fn spec_hash_bytes(bytes: Seq<u8>) -> u64;

/// The hash that tells cover images apart (`DefaultHasher` over the byte slice).
#[verifier::external_body]
pub(crate) fn hash_thumbnail_bytes(bytes: &[u8]) -> (h: u64)
    ensures
        h == spec_hash_bytes(bytes@),
{
    std::hash::BuildHasher::hash_one(
        &std::hash::BuildHasherDefault::<std::collections::hash_map::DefaultHasher>::default(),
        bytes,
    )
}

/// Whether `b` begins with `p`.
pub open spec fn bytes_start_with(b: Seq<u8>, p: Seq<u8>) -> bool {
    p.len() <= b.len() && b.subrange(0, p.len() as int) == p
}

/// Whether `b` looks like an image the island can show: longer than four bytes and
/// starting like a JPEG, PNG, GIF or WebP file.
pub open spec fn is_image_spec(b: Seq<u8>) -> bool {
    &&& b.len() > 4
    &&& {
        ||| bytes_start_with(b, seq![0xFFu8, 0xD8u8, 0xFFu8])
        ||| bytes_start_with(b, seq![0x89u8, 0x50u8, 0x4Eu8, 0x47u8, 0x0Du8, 0x0Au8, 0x1Au8, 0x0Au8])
        ||| bytes_start_with(b, seq![0x47u8, 0x49u8, 0x46u8, 0x38u8, 0x37u8, 0x61u8])
        ||| bytes_start_with(b, seq![0x47u8, 0x49u8, 0x46u8, 0x38u8, 0x39u8, 0x61u8])
        ||| (b.len() >= 12 && bytes_start_with(b, seq![0x52u8, 0x49u8, 0x46u8, 0x46u8])
            && b.subrange(8, 12) == seq![0x57u8, 0x45u8, 0x42u8, 0x50u8])
    }
}

fn bytes_start_with_exec(b: &[u8], p: &[u8]) -> (r: bool)
    ensures
        r == bytes_start_with(b@, p@),
{
    if p.len() > b.len() {
        return false;
    }
    let mut k: usize = 0;
    while k < p.len()
        invariant
            p@.len() <= b@.len(),
            k <= p.len(),
            forall|m: int| 0 <= m < k ==> b@[m] == p@[m],
        decreases p.len() - k,
    {
        if b[k] != p[k] {
            assert(b@.subrange(0, p@.len() as int)[k as int] != p@[k as int]);
            return false;
        }
        k += 1;
    }
    assert(b@.subrange(0, p@.len() as int) =~= p@);
    true
}

/// Whether `b` looks like an image (see `is_image_spec`).
pub fn is_image(b: &[u8]) -> (r: bool)
    ensures
        r == is_image_spec(b@),
{
    if b.len() <= 4 {
        return false;
    }
    let jpeg: [u8; 3] = [0xFF, 0xD8, 0xFF];
    let png: [u8; 8] = [0x89, 0x50, 0x4E, 0x47, 0x0D, 0x0A, 0x1A, 0x0A];
    let gif87: [u8; 6] = [0x47, 0x49, 0x46, 0x38, 0x37, 0x61];
    let gif89: [u8; 6] = [0x47, 0x49, 0x46, 0x38, 0x39, 0x61];
    let riff: [u8; 4] = [0x52, 0x49, 0x46, 0x46];
    assert(jpeg@ =~= seq![0xFFu8, 0xD8u8, 0xFFu8]);
    assert(png@ =~= seq![0x89u8, 0x50u8, 0x4Eu8, 0x47u8, 0x0Du8, 0x0Au8, 0x1Au8, 0x0Au8]);
    assert(gif87@ =~= seq![0x47u8, 0x49u8, 0x46u8, 0x38u8, 0x37u8, 0x61u8]);
    assert(gif89@ =~= seq![0x47u8, 0x49u8, 0x46u8, 0x38u8, 0x39u8, 0x61u8]);
    assert(riff@ =~= seq![0x52u8, 0x49u8, 0x46u8, 0x46u8]);
    if bytes_start_with_exec(b, &jpeg) || bytes_start_with_exec(b, &png) || bytes_start_with_exec(
        b,
        &gif87,
    ) || bytes_start_with_exec(b, &gif89) {
        return true;
    }
    if b.len() >= 12 && bytes_start_with_exec(b, &riff) {
        let webp = b[8] == 0x57 && b[9] == 0x45 && b[10] == 0x42 && b[11] == 0x50;
        if webp {
            assert(b@.subrange(8, 12) =~= seq![0x57u8, 0x45u8, 0x42u8, 0x50u8]);
        } else {
            assert(b@.subrange(8, 12) != seq![0x57u8, 0x45u8, 0x42u8, 0x50u8]) by {
                let w = seq![0x57u8, 0x45u8, 0x42u8, 0x50u8];
                if b@.subrange(8, 12) == w {
                    assert(b@.subrange(8, 12)[0] == b@[8]);
                    assert(b@.subrange(8, 12)[1] == b@[9]);
                    assert(b@.subrange(8, 12)[2] == b@[10]);
                    assert(b@.subrange(8, 12)[3] == b@[11]);
                }
            }
        }
        return webp;
    }
    false
}

/// How a `MusicData` report changes the state, and whether the change is published.
/// With no current title it is taken whole; otherwise it must match the current title and
/// artist, or it is dropped; a matching report brings lyrics, track id and favourite state,
/// and its cover when that looks like an image (else the cover is cleared).
pub open spec fn apply_music_spec(s: MediaStateView, d: MusicDataView) -> (MediaStateView, bool) {
    if trim(s.title).len() == 0 {
        (
            MediaStateView {
                track_id: d.metadata.track_id,
                title: d.metadata.title,
                artist: d.metadata.artist,
                lyrics: Some(d.lyrics),
                is_favorite: d.metadata.is_favorite,
                thumbnail: d.metadata.cover,
                thumbnail_hash: match d.metadata.cover {
                    Some(c) => spec_hash_bytes(c),
                    None => 0,
                },
                ..s
            },
            true,
        )
    } else if !text_matches_spec(d.metadata.title, s.title) || !artist_matches_spec(
        d.metadata.artist,
        d.metadata.artists,
        s.artist,
    ) {
        (s, false)
    } else {
        let keep = match d.metadata.cover {
            Some(c) => is_image_spec(c) && s.thumbnail_hash == spec_hash_bytes(c),
            None => false,
        };
        let image = match d.metadata.cover {
            Some(c) => is_image_spec(c),
            None => false,
        };
        (
            MediaStateView {
                lyrics: Some(d.lyrics),
                track_id: d.metadata.track_id,
                is_favorite: d.metadata.is_favorite,
                thumbnail: if keep {
                    s.thumbnail
                } else if image {
                    d.metadata.cover
                } else {
                    None
                },
                thumbnail_hash: if keep {
                    s.thumbnail_hash
                } else if image {
                    spec_hash_bytes(d.metadata.cover->0)
                } else {
                    0
                },
                ..s
            },
            true,
        )
    }
}

/// Applies a `MusicData` report to the state (see `apply_music_spec`); returns whether
/// the state is to be published.
pub fn apply_music_data(state: &mut MediaState, music_data: MusicData) -> (published: bool)
    ensures
        (final(state)@, published) == apply_music_spec(old(state)@, music_data@),
{
    let MusicData { metadata, lyrics } = music_data;
    let title_t = trimmed(state.title.as_str());
    if title_t.as_str().is_empty() {
        state.track_id = metadata.track_id;
        state.title = metadata.title;
        state.artist = metadata.artist;
        state.lyrics = Some(lyrics);
        state.is_favorite = metadata.is_favorite;
        match metadata.cover {
            Some(cover) => {
                let h = hash_thumbnail_bytes(cover.as_slice());
                state.thumbnail = Some(cover);
                state.thumbnail_hash = h;
            },
            None => {
                state.thumbnail = None;
                state.thumbnail_hash = 0;
            },
        }
        return true;
    }
    if !text_matches(metadata.title.as_str(), state.title.as_str()) {
        return false;
    }
    if !artist_matches(metadata.artist.as_str(), metadata.artists.as_slice(), state.artist.as_str()) {
        return false;
    }
    state.lyrics = Some(lyrics);
    state.track_id = metadata.track_id;
    state.is_favorite = metadata.is_favorite;
    match metadata.cover {
        Some(cover) => {
            if is_image(cover.as_slice()) {
                let h = hash_thumbnail_bytes(cover.as_slice());
                if state.thumbnail_hash != h {
                    state.thumbnail = Some(cover);
                    state.thumbnail_hash = h;
                }
            } else {
                state.thumbnail = None;
                state.thumbnail_hash = 0;
            }
        },
        None => {
            state.thumbnail = None;
            state.thumbnail_hash = 0;
        },
    }
    true
}

/// What the player reports or asks through the lyrics connection.
#[derive(Clone, Copy, Debug, PartialEq, Eq, Structural)]
pub enum PlayAction {
    Play,
    Pause,
    Seek,
    Next,
    Prev,
}

/// An event from the lyrics connection that changes what the island shows.
pub enum MediaEvent {
    Connected,
    Subscribe,
    MusicData(MusicData),
    PlaybackState { position_ms: u64, duration_ms: u64, is_playing: bool },
    PlaybackAction { action: PlayAction, position_ms: u64 },
    FavoriteState { is_favorite: bool, track_id: Option<String> },
}

/// A request to send back to the player.
#[derive(Clone, Copy, Debug, PartialEq, Eq, Structural)]
pub enum PlayerRequest {
    RequestTrackLyrics,
    GetPlaybackState,
}

/// What handling an event asks of the caller: to publish the new state, to restart the
/// playback clock from now, and a request to send to the player.
#[derive(Clone, Copy, Debug, PartialEq, Eq, Structural)]
pub struct EventOutcome {
    pub publish: bool,
    pub touch_clock: bool,
    pub request: Option<PlayerRequest>,
}

/// The state after a track change: nothing known of the new track, at its start.
pub open spec fn cleared_track(s: MediaStateView) -> MediaStateView {
    MediaStateView {
        track_id: None,
        title: Seq::empty(),
        artist: Seq::empty(),
        lyrics: None,
        thumbnail: None,
        thumbnail_hash: 0,
        is_favorite: false,
        position_ms: 0,
        ..s
    }
}

/// How an event changes the state and what it asks of the caller.
pub open spec fn ws_event_spec(s: MediaStateView, e: MediaEvent) -> (MediaStateView, EventOutcome) {
    match e {
        MediaEvent::Connected | MediaEvent::Subscribe => (
            s,
            EventOutcome {
                publish: false,
                touch_clock: false,
                request: Some(PlayerRequest::RequestTrackLyrics),
            },
        ),
        MediaEvent::MusicData(d) => {
            let (n, published) = apply_music_spec(s, d@);
            (
                n,
                EventOutcome {
                    publish: published,
                    touch_clock: false,
                    request: if trim(s.title).len() == 0 {
                        Some(PlayerRequest::GetPlaybackState)
                    } else {
                        None
                    },
                },
            )
        },
        MediaEvent::PlaybackState { position_ms, duration_ms, is_playing } => (
            MediaStateView {
                position_ms: if position_ms > 0 || duration_ms > 0 {
                    position_ms
                } else {
                    s.position_ms
                },
                duration_ms: if duration_ms > 0 {
                    duration_ms
                } else {
                    s.duration_ms
                },
                is_playing,
                ..s
            },
            EventOutcome {
                publish: true,
                touch_clock: position_ms > 0 || duration_ms > 0,
                request: None,
            },
        ),
        MediaEvent::PlaybackAction { action, position_ms } => (
            match action {
                PlayAction::Play => MediaStateView { is_playing: true, position_ms, ..s },
                PlayAction::Pause => MediaStateView { is_playing: false, position_ms, ..s },
                PlayAction::Seek => MediaStateView { position_ms, ..s },
                PlayAction::Next | PlayAction::Prev => cleared_track(s),
            },
            EventOutcome { publish: true, touch_clock: true, request: None },
        ),
        MediaEvent::FavoriteState { is_favorite, track_id } => if favorite_target_spec(
            s.track_id,
            opt_string_view(track_id),
        ) {
            (
                MediaStateView {
                    track_id: if s.track_id is None {
                        opt_string_view(track_id)
                    } else {
                        s.track_id
                    },
                    is_favorite,
                    ..s
                },
                EventOutcome { publish: true, touch_clock: false, request: None },
            )
        } else {
            (s, EventOutcome { publish: false, touch_clock: false, request: None })
        },
    }
}

/// Applies an event from the lyrics connection to the state (see `ws_event_spec`).
pub fn handle_ws_event(state: &mut MediaState, event: MediaEvent) -> (r: EventOutcome)
    ensures
        (final(state)@, r) == ws_event_spec(old(state)@, event),
{
    match event {
        MediaEvent::Connected | MediaEvent::Subscribe => EventOutcome {
            publish: false,
            touch_clock: false,
            request: Some(PlayerRequest::RequestTrackLyrics),
        },
        MediaEvent::MusicData(music_data) => {
            let was_empty = trimmed(state.title.as_str()).as_str().is_empty();
            let published = apply_music_data(state, music_data);
            EventOutcome {
                publish: published,
                touch_clock: false,
                request: if was_empty {
                    Some(PlayerRequest::GetPlaybackState)
                } else {
                    None
                },
            }
        },
        MediaEvent::PlaybackState { position_ms, duration_ms, is_playing } => {
            let touch = position_ms > 0 || duration_ms > 0;
            if touch {
                state.position_ms = position_ms;
            }
            if duration_ms > 0 {
                state.duration_ms = duration_ms;
            }
            state.is_playing = is_playing;
            EventOutcome { publish: true, touch_clock: touch, request: None }
        },
        MediaEvent::PlaybackAction { action, position_ms } => {
            match action {
                PlayAction::Play => {
                    state.is_playing = true;
                    state.position_ms = position_ms;
                },
                PlayAction::Pause => {
                    state.is_playing = false;
                    state.position_ms = position_ms;
                },
                PlayAction::Seek => {
                    state.position_ms = position_ms;
                },
                PlayAction::Next | PlayAction::Prev => {
                    state.track_id = None;
                    state.title = String::new();
                    state.artist = String::new();
                    state.lyrics = None;
                    state.thumbnail = None;
                    state.thumbnail_hash = 0;
                    state.is_favorite = false;
                    state.position_ms = 0;
                },
            }
            EventOutcome { publish: true, touch_clock: true, request: None }
        },
        MediaEvent::FavoriteState { is_favorite, track_id } => {
            let matches = match &track_id {
                Some(t) => favorite_target_matches(&state.track_id, Some(t.as_str())),
                None => favorite_target_matches(&state.track_id, None),
            };
            if matches {
                if state.track_id.is_none() {
                    state.track_id = track_id;
                }
                state.is_favorite = is_favorite;
                EventOutcome { publish: true, touch_clock: false, request: None }
            } else {
                EventOutcome { publish: false, touch_clock: false, request: None }
            }
        },
    }
}

/// A seek the user asked for: the position moves there at once (the clock restarts and the
/// state is published; the player is told to seek).
pub fn apply_seek(state: &mut MediaState, position_ms: u64)
    ensures
        final(state)@ == (MediaStateView { position_ms, ..old(state)@ }),
{
    state.position_ms = position_ms;
}

/// A favourite change the user asked for: applied (and to be sent to the player and
/// published) only when it concerns the current track; returns whether it was.
pub fn apply_favorite_request(state: &mut MediaState, is_favorite: bool, track_id: Option<&str>) -> (applied: bool)
    ensures
        applied == favorite_target_spec(
            opt_string_view(old(state).track_id),
            match track_id {
                Some(t) => Some(t@),
                None => None,
            },
        ),
        final(state)@ == (if applied {
            MediaStateView { is_favorite, ..old(state)@ }
        } else {
            old(state)@
        }),
{
    if favorite_target_matches(&state.track_id, track_id) {
        state.is_favorite = is_favorite;
        true
    } else {
        false
    }
}

/// Whether the periodic poll asks the player for its position: only while a known track
/// plays.
pub fn should_poll_playback(state: &MediaState) -> (r: bool)
    ensures
        r == (state.title@.len() > 0 && state.is_playing),
{
    !state.title.as_str().is_empty() && state.is_playing
}

/// `r` is the lyric text to show `elapsed_ms` after the last report, shifted by
/// `delay_ms`, under the filter expression `active`: none without lyrics or before the
/// first line; otherwise (for lines ordered by start time) the text that
/// `filtered_text_spec` gives for the line playing, or that line's text without a filter.
pub open spec fn shown_line_spec(
    state: MediaState,
    elapsed_ms: u64,
    delay_ms: i64,
    active: Option<Seq<char>>,
    r: Option<String>,
) -> bool {
    &&& (state.lyrics is None ==> r is None)
    &&& (state.lyrics matches Some(l) ==> {
        let pos = effective_position_spec(state.position_ms, state.is_playing, elapsed_ms, delay_ms);
        lines_sorted(l@) ==> match r {
            None => forall|j: int| 0 <= j < l@.len() ==> pos < #[trigger] l@[j].time_ms,
            Some(t) => exists|i: int|
                is_current_line(l@, pos, i) && t@ == match active {
                    Some(p) => filtered_text_spec(l@, i, state.title@, p),
                    None => l@[i].text@,
                },
        }
    })
}

/// The lyric line to show now: the line playing, or, when the filter matches it, the
/// nearest earlier line it does not match (else the title); `None` without lyrics or
/// before the first line (see `shown_line_spec`).
pub fn current_filtered_lyric(
    state: &MediaState,
    elapsed_ms: u64,
    delay_ms: i64,
    filter: &LyricsFilter,
) -> (r: Option<String>)
    requires
        state.lyrics is Some ==> position_in_range(state.position_ms, state.is_playing, elapsed_ms, delay_ms),
    ensures
        shown_line_spec(*state, elapsed_ms, delay_ms, filter.active(), r),
{
    let lyrics = match &state.lyrics {
        Some(l) => l,
        None => {
            return None;
        },
    };
    let pos = state.effective_position_ms(elapsed_ms, delay_ms);
    let idx = match current_lyric_index(lyrics.as_slice(), pos) {
        Some(i) => i,
        None => {
            return None;
        },
    };
    match filter.regex() {
        Some(re) => Some(filtered_lyric_text(lyrics.as_slice(), idx, state.title.as_str(), re)),
        None => Some(lyrics[idx].text.clone()),
    }
}

/// Whether the filter expression `active` hides a line with text `text` (it matches the
/// trimmed text).
pub open spec fn hidden_by(active: Option<Seq<char>>, text: Seq<char>) -> bool {
    match active {
        Some(p) => spec_regex_is_match(p, trim(text)),
        None => false,
    }
}

/// The timed characters to highlight on the desktop island now, with the index of the
/// character reached: none unless highlighting and lyrics are both on, and none when the
/// filter's scope covers the desktop island and the filter hides the line playing;
/// otherwise those of `current_character_data`.
pub fn highlighted_characters<'a>(
    state: &'a MediaState,
    elapsed_ms: u64,
    delay_ms: i64,
    filter: &LyricsFilter,
    scope: LyricsFilterScope,
    char_highlight: bool,
    show_lyrics: bool,
) -> (r: Option<(&'a [LyricCharacter], usize)>)
    requires
        char_highlight && show_lyrics && state.lyrics is Some ==> position_in_range(
            state.position_ms,
            state.is_playing,
            elapsed_ms,
            delay_ms,
        ),
    ensures
        !(char_highlight && show_lyrics) ==> r is None,
        r matches Some((cs, k)) ==> {
            let pos = effective_position_spec(state.position_ms, state.is_playing, elapsed_ms, delay_ms);
            &&& state.lyrics is Some
            &&& exists|i: int| #![trigger state.lyrics->0@[i]] {
                &&& 0 <= i < state.lyrics->0@.len()
                &&& state.lyrics->0@[i].time_ms <= pos
                &&& (lines_sorted(state.lyrics->0@) ==> is_current_line(state.lyrics->0@, pos, i))
                &&& state.lyrics->0@[i].characters matches Some(v) && v@ == cs@
                &&& (lines_sorted(state.lyrics->0@) && (scope is Desktop || scope is All)
                    ==> !hidden_by(filter.active(), state.lyrics->0@[i].text@))
            }
            &&& is_current_character(cs@, pos, k as int)
        },
        char_highlight && show_lyrics && state.lyrics is Some && lines_sorted(state.lyrics->0@)
            && r is None ==> {
            let pos = effective_position_spec(state.position_ms, state.is_playing, elapsed_ms, delay_ms);
            ||| no_character_reached(state.lyrics->0@, pos)
            ||| ((scope is Desktop || scope is All) && exists|i: int|
                is_current_line(state.lyrics->0@, pos, i) && hidden_by(
                    filter.active(),
                    state.lyrics->0@[i].text@,
                ))
        },
{
    if !(char_highlight && show_lyrics) {
        return None;
    }
    let data = state.current_character_data(elapsed_ms, delay_ms);
    if data.is_some() && scope.filters_desktop() && current_line_filtered(state, elapsed_ms, delay_ms, filter) {
        return None;
    }
    proof {
        if data is Some && (scope is Desktop || scope is All) && lines_sorted(state.lyrics->0@) {
            let pair = data->0;
            let cs = pair.0;
            let pos = effective_position_spec(state.position_ms, state.is_playing, elapsed_ms, delay_ms);
            let l = state.lyrics->0@;
            let i = choose|i: int| #![trigger l[i]] {
                &&& 0 <= i < l.len()
                &&& l[i].time_ms <= pos
                &&& (lines_sorted(l) ==> is_current_line(l, pos, i))
                &&& l[i].characters matches Some(v) && v@ == cs@
            };
            assert(is_current_line(l, pos, i));
            assert(!hidden_by(filter.active(), l[i].text@));
        }
    }
    data
}

/// The lyric line the desktop island shows now: none when lyrics are switched off or the
/// track is paused; otherwise the line playing, filtered when the filter's scope covers the
/// desktop island.
pub fn desktop_lyric(
    state: &MediaState,
    elapsed_ms: u64,
    delay_ms: i64,
    filter: &LyricsFilter,
    scope: LyricsFilterScope,
    show_lyrics: bool,
    is_paused: bool,
) -> (r: Option<String>)
    requires
        show_lyrics && !is_paused && state.lyrics is Some ==> position_in_range(
            state.position_ms,
            state.is_playing,
            elapsed_ms,
            delay_ms,
        ),
    ensures
        !show_lyrics || is_paused ==> r is None,
        show_lyrics && !is_paused ==> shown_line_spec(
            *state,
            elapsed_ms,
            delay_ms,
            if scope is Desktop || scope is All {
                filter.active()
            } else {
                None
            },
            r,
        ),
{
    if !show_lyrics || is_paused {
        return None;
    }
    if scope.filters_desktop() {
        current_filtered_lyric(state, elapsed_ms, delay_ms, filter)
    } else {
        let r = state.current_lyric(elapsed_ms, delay_ms);
        r
    }
}

/// Whether the filter hides the line playing now (timed-character highlighting is then
/// dropped): there is an expression, a line is playing and the expression matches its
/// trimmed text.
pub fn current_line_filtered(state: &MediaState, elapsed_ms: u64, delay_ms: i64, filter: &LyricsFilter) -> (r: bool)
    requires
        filter.active() is Some && state.lyrics is Some ==> position_in_range(
            state.position_ms,
            state.is_playing,
            elapsed_ms,
            delay_ms,
        ),
    ensures
        r ==> filter.active() is Some && state.lyrics is Some,
        state.lyrics matches Some(l) ==> {
            let pos = effective_position_spec(state.position_ms, state.is_playing, elapsed_ms, delay_ms);
            lines_sorted(l@) ==> (r <==> (filter.active() matches Some(p) && exists|i: int|
                is_current_line(l@, pos, i) && spec_regex_is_match(p, trim(l@[i].text@))))
        },
{
    let re = match filter.regex() {
        Some(re) => re,
        None => {
            return false;
        },
    };
    let lyrics = match &state.lyrics {
        Some(l) => l,
        None => {
            return false;
        },
    };
    let pos = state.effective_position_ms(elapsed_ms, delay_ms);
    let idx = match current_lyric_index(lyrics.as_slice(), pos) {
        Some(i) => i,
        None => {
            return false;
        },
    };
    let text = trimmed(lyrics[idx].text.as_str());
    let r = regex_is_match(re, text.as_str());
    proof {
        if lines_sorted(lyrics@) && !r {
            assert forall|i: int| is_current_line(lyrics@, pos, i) implies !spec_regex_is_match(
                re@,
                trim(lyrics@[i].text@),
            ) by {
                if i != idx {
                    if i < idx {
                        assert(pos < lyrics@[idx as int].time_ms);
                    } else {
                        assert(pos < lyrics@[i].time_ms);
                    }
                }
            }
        }
    }
    r
}

/// While a track is paused its position stands still, however much time passes.
pub proof fn lemma_paused_position_stands_still(position_ms: u64, e1: u64, e2: u64, delay_ms: i64)
    ensures
        effective_position_spec(position_ms, false, e1, delay_ms) == effective_position_spec(
            position_ms,
            false,
            e2,
            delay_ms,
        ),
{
}

/// While a track plays its position never goes back as time passes (as long as the
/// position stays within `i64`).
pub proof fn lemma_playing_position_advances(position_ms: u64, e1: u64, e2: u64, delay_ms: i64)
    requires
        e1 <= e2,
        position_ms + e2 <= i64::MAX,
    ensures
        effective_position_spec(position_ms, true, e1, delay_ms) <= effective_position_spec(
            position_ms,
            true,
            e2,
            delay_ms,
        ),
{
    let r1 = (position_ms + e1) as u64;
    let r2 = (position_ms + e2) as u64;
    assert(r1 as i64 == r1 && r2 as i64 == r2);
}

/// A favourite report for another track (both ids known and different) changes nothing
/// and is not published.
pub proof fn lemma_foreign_favorite_ignored(s: MediaStateView, is_favorite: bool, track_id: Option<String>)
    requires
        s.track_id is Some,
        track_id is Some,
        s.track_id->0 != track_id->0@,
    ensures
        ws_event_spec(s, MediaEvent::FavoriteState { is_favorite, track_id }) == (
            s,
            EventOutcome { publish: false, touch_clock: false, request: None },
        ),
{
}

/// Skipping to another track forgets everything known of the current one and restarts at
/// its beginning; what the player reported of its duration, play state and mode stays.
pub proof fn lemma_track_change_clears(s: MediaStateView, action: PlayAction, position_ms: u64)
    requires
        action == PlayAction::Next || action == PlayAction::Prev,
    ensures
        ws_event_spec(s, MediaEvent::PlaybackAction { action, position_ms }).0 == cleared_track(s),
        cleared_track(s).title.len() == 0 && cleared_track(s).lyrics is None
            && cleared_track(s).position_ms == 0,
        cleared_track(s).duration_ms == s.duration_ms && cleared_track(s).is_playing
            == s.is_playing,
{
}

/// Lyrics for another track (a current title that the report's title does not match) are
/// dropped: the state stays as it was and nothing is published.
pub proof fn lemma_unrelated_music_data_dropped(s: MediaStateView, d: MusicDataView)
    requires
        trim(s.title).len() > 0,
        !text_matches_spec(d.metadata.title, s.title),
    ensures
        apply_music_spec(s, d) == (s, false),
{
}

/// A track reported to an island that shows none is taken as read: its title, artist,
/// track id, favourite state and lyrics (in time order) become the island's, and the change
/// is published.
pub proof fn lemma_first_report_taken(s: MediaStateView, payload: JsonValue)
    requires
        trim(s.title).len() == 0,
        music_payload_spec(payload) is Some,
    ensures
        ({
            let d = music_payload_spec(payload)->0;
            let (n, published) = apply_music_spec(s, d);
            &&& published
            &&& n.title == d.metadata.title
            &&& n.artist == d.metadata.artist
            &&& n.track_id == d.metadata.track_id
            &&& n.is_favorite == d.metadata.is_favorite
            &&& n.lyrics == Some(d.lyrics)
            &&& views_sorted(d.lyrics)
        }),
{
    lemma_payload_lines_sorted(payload);
}


/// The track that `n` describes is the one `s` described: same id, title, artist, album,
/// cover, favourite state, lyrics, duration and play mode.
pub open spec fn same_track(s: MediaStateView, n: MediaStateView) -> bool {
    &&& n.track_id == s.track_id
    &&& n.title == s.title
    &&& n.artist == s.artist
    &&& n.album == s.album
    &&& n.thumbnail == s.thumbnail
    &&& n.thumbnail_hash == s.thumbnail_hash
    &&& n.is_favorite == s.is_favorite
    &&& n.lyrics == s.lyrics
    &&& n.duration_ms == s.duration_ms
    &&& n.play_mode == s.play_mode
}

/// Play, pause and seek actions keep the track and move it to the reported position: after
/// a pause it stands still (not playing), after a play it runs, and a seek leaves its
/// playing state as it was. Each is published and restarts the position clock.
pub proof fn lemma_play_pause_seek_keep_track(s: MediaStateView, position_ms: u64)
    ensures
        ({
            let (n, o) = ws_event_spec(
                s,
                MediaEvent::PlaybackAction { action: PlayAction::Pause, position_ms },
            );
            &&& !n.is_playing
            &&& n.position_ms == position_ms
            &&& same_track(s, n)
            &&& o.publish && o.touch_clock
        }),
        ({
            let (n, o) = ws_event_spec(
                s,
                MediaEvent::PlaybackAction { action: PlayAction::Play, position_ms },
            );
            &&& n.is_playing
            &&& n.position_ms == position_ms
            &&& same_track(s, n)
            &&& o.publish && o.touch_clock
        }),
        ({
            let (n, o) = ws_event_spec(
                s,
                MediaEvent::PlaybackAction { action: PlayAction::Seek, position_ms },
            );
            &&& n.is_playing == s.is_playing
            &&& n.position_ms == position_ms
            &&& same_track(s, n)
            &&& o.publish && o.touch_clock
        }),
{
}

} // verus!
