use vstd::prelude::*;

use std::sync::Arc;

use crate::cover::{cover_spec, decode_cover_base64};
use crate::json::JsonValue;
use crate::lyric_filter::{regex_is_match, spec_regex_is_match, CompiledRegex};
use crate::text::{trim, trimmed};

verus! {

broadcast use vstd::string::group_string_axioms;

/// One character (or syllable) of a lyric line with its start and end times.
#[derive(Clone, Debug, PartialEq)]
pub struct LyricCharacter {
    pub s: u64,
    pub e: u64,
    pub t: String,
}

/// A lyric line: its start time, its text and, when known, its timed characters.
#[derive(Clone, Default, Debug)]
pub struct LyricLine {
    pub time_ms: u64,
    pub text: String,
    pub characters: Option<Vec<LyricCharacter>>,
}

pub struct LyricCharacterView {
    pub s: u64,
    pub e: u64,
    pub t: Seq<char>,
}

pub struct LyricLineView {
    pub time_ms: u64,
    pub text: Seq<char>,
    pub characters: Option<Seq<LyricCharacterView>>,
}

impl View for LyricCharacter {
    type V = LyricCharacterView;

    open spec fn view(&self) -> LyricCharacterView {
        LyricCharacterView { s: self.s, e: self.e, t: self.t@ }
    }
}

impl View for LyricLine {
    type V = LyricLineView;

    open spec fn view(&self) -> LyricLineView {
        LyricLineView {
            time_ms: self.time_ms,
            text: self.text@,
            characters: match self.characters {
                Some(cs) => Some(cs@.map_values(|c: LyricCharacter| c@)),
                None => None,
            },
        }
    }
}

/// Lines ordered by start time.
pub open spec fn lines_sorted(lines: Seq<LyricLine>) -> bool {
    forall|i: int, j: int| 0 <= i <= j < lines.len() ==> lines[i].time_ms <= lines[j].time_ms
}

/// Line `i` is the one playing at `pos`: it has started and no later line has.
pub open spec fn is_current_line(lines: Seq<LyricLine>, pos: u64, i: int) -> bool {
    &&& 0 <= i < lines.len()
    &&& lines[i].time_ms <= pos
    &&& forall|j: int| i < j < lines.len() ==> pos < #[trigger] lines[j].time_ms
}

/// No line has started at `pos`.
pub open spec fn before_first_line(lines: Seq<LyricLine>, pos: u64) -> bool {
    forall|j: int| 0 <= j < lines.len() ==> pos < #[trigger] lines[j].time_ms
}

/// The index of the line playing at `pos` in lines ordered by start time: the last line
/// that starts at or before `pos`, or `None` when none has started yet.
/// On lines out of order the index is only known to be in range and started.
pub fn current_lyric_index(lyrics: &[LyricLine], current_pos: u64) -> (r: Option<usize>)
    ensures
        lines_sorted(lyrics@) ==> (match r {
            Some(i) => is_current_line(lyrics@, current_pos, i as int),
            None => before_first_line(lyrics@, current_pos),
        }),
        r matches Some(i) ==> i < lyrics@.len() && lyrics@[i as int].time_ms <= current_pos,
{
    if lyrics.len() == 0 {
        return None;
    }
    let mut lo: usize = 0;
    let mut hi: usize = lyrics.len();
    while lo < hi
        invariant
            lo <= hi <= lyrics@.len(),
            lo > 0 ==> lyrics@[lo - 1].time_ms <= current_pos,
            lines_sorted(lyrics@) ==> forall|j: int| 0 <= j < lo ==> lyrics@[j].time_ms <= current_pos,
            lines_sorted(lyrics@) ==> forall|j: int|
                hi <= j < lyrics@.len() ==> current_pos < #[trigger] lyrics@[j].time_ms,
        decreases hi - lo,
    {
        let mid = lo + (hi - lo) / 2;
        if lyrics[mid].time_ms <= current_pos {
            lo = mid + 1;
        } else {
            hi = mid;
        }
    }
    if lo == 0 {
        None
    } else {
        Some(lo - 1)
    }
}

/// Character `i` is the last one that has started at `pos`.
pub open spec fn is_current_character(chars: Seq<LyricCharacter>, pos: u64, i: int) -> bool {
    &&& 0 <= i < chars.len()
    &&& chars[i].s <= pos
    &&& forall|j: int| i < j < chars.len() ==> pos < #[trigger] chars[j].s
}

/// The index of the last character that has started at `current_pos`, or `None` when
/// none has.
pub fn current_character_index(characters: &[LyricCharacter], current_pos: u64) -> (r: Option<usize>)
    ensures
        match r {
            Some(i) => is_current_character(characters@, current_pos, i as int),
            None => forall|j: int| 0 <= j < characters@.len() ==> current_pos < #[trigger] characters@[j].s,
        },
{
    let mut i: usize = characters.len();
    while i > 0
        invariant
            i <= characters@.len(),
            forall|j: int| i <= j < characters@.len() ==> current_pos < #[trigger] characters@[j].s,
        decreases i,
    {
        if current_pos >= characters[i - 1].s {
            return Some(i - 1);
        }
        i -= 1;
    }
    None
}

/// The trimmed text of line `k` shows: it is not empty and the filter does not match it.
pub open spec fn line_shown(lines: Seq<LyricLine>, k: int, pattern: Seq<char>) -> bool {
    trim(lines[k].text@).len() > 0 && !spec_regex_is_match(pattern, trim(lines[k].text@))
}

/// The last line before `end` whose trimmed text shows.
pub open spec fn last_shown_before(lines: Seq<LyricLine>, end: int, pattern: Seq<char>) -> Option<int>
    decreases end,
{
    if end <= 0 {
        None
    } else if line_shown(lines, end - 1, pattern) {
        Some(end - 1)
    } else {
        last_shown_before(lines, end - 1, pattern)
    }
}

/// The text shown for line `idx` under the filter `pattern`: the line itself (trimmed)
/// unless the filter matches it; then the nearest earlier line that shows, else the title.
/// An index past the end shows the title.
pub open spec fn filtered_text_spec(
    lines: Seq<LyricLine>,
    idx: int,
    title: Seq<char>,
    pattern: Seq<char>,
) -> Seq<char> {
    if idx >= lines.len() {
        title
    } else if !spec_regex_is_match(pattern, trim(lines[idx].text@)) {
        trim(lines[idx].text@)
    } else {
        match last_shown_before(lines, idx, pattern) {
            Some(k) => trim(lines[k].text@),
            None => title,
        }
    }
}

proof fn lemma_last_shown_before_shows(lines: Seq<LyricLine>, end: int, pattern: Seq<char>)
    ensures
        last_shown_before(lines, end, pattern) matches Some(k) ==> 0 <= k < end && line_shown(
            lines,
            k,
            pattern,
        ),
    decreases end,
{
    if end > 0 && !line_shown(lines, end - 1, pattern) {
        lemma_last_shown_before_shows(lines, end - 1, pattern);
    }
}

/// The filter never shows a line it matches: the text shown is the title or a trimmed line
/// that the filter does not match.
pub proof fn lemma_filtered_text_not_matched(
    lines: Seq<LyricLine>,
    idx: int,
    title: Seq<char>,
    pattern: Seq<char>,
)
    ensures
        filtered_text_spec(lines, idx, title, pattern) == title || !spec_regex_is_match(
            pattern,
            filtered_text_spec(lines, idx, title, pattern),
        ),
{
    if idx < lines.len() {
        lemma_last_shown_before_shows(lines, idx, pattern);
    }
}

/// The lyric text to show for line `current_idx` when lines that `matcher` matches are
/// hidden (see `filtered_text_spec`).
pub fn filtered_lyric_text(
    lyrics: &[LyricLine],
    current_idx: usize,
    title: &str,
    matcher: &CompiledRegex,
) -> (r: String)
    ensures
        r@ == filtered_text_spec(lyrics@, current_idx as int, title@, matcher@),
{
    if current_idx >= lyrics.len() {
        return title.to_string();
    }
    let current = trimmed(lyrics[current_idx].text.as_str());
    if !regex_is_match(matcher, current.as_str()) {
        return current;
    }
    let mut k: usize = current_idx;
    while k > 0
        invariant
            k <= current_idx < lyrics@.len(),
            spec_regex_is_match(matcher@, trim(lyrics@[current_idx as int].text@)),
            last_shown_before(lyrics@, current_idx as int, matcher@) == last_shown_before(
                lyrics@,
                k as int,
                matcher@,
            ),
        decreases k,
    {
        let text = trimmed(lyrics[k - 1].text.as_str());
        if !text.as_str().is_empty() && !regex_is_match(matcher, text.as_str()) {
            return text;
        }
        k -= 1;
    }
    title.to_string()
}

/// The views of a sequence of lines.
pub open spec fn lines_view(s: Seq<LyricLine>) -> Seq<LyricLineView> {
    s.map_values(|l: LyricLine| l@)
}

/// Line views ordered by start time.
pub open spec fn views_sorted(s: Seq<LyricLineView>) -> bool {
    forall|i: int, j: int| 0 <= i <= j < s.len() ==> s[i].time_ms <= s[j].time_ms
}

/// `s` with `x` placed after every line that starts no later than it and before the
/// later ones that follow them: one step of a stable sort by start time.
pub open spec fn insert_by_time(s: Seq<LyricLineView>, x: LyricLineView) -> Seq<LyricLineView>
    decreases s.len(),
{
    if s.len() == 0 || s.last().time_ms <= x.time_ms {
        s.push(x)
    } else {
        insert_by_time(s.drop_last(), x).push(s.last())
    }
}

/// `s` stably sorted by start time (what `sort_by_key(|l| l.time_ms)` gives).
pub open spec fn sort_by_time(s: Seq<LyricLineView>) -> Seq<LyricLineView>
    decreases s.len(),
{
    if s.len() == 0 {
        s
    } else {
        insert_by_time(sort_by_time(s.drop_last()), s.last())
    }
}

proof fn lemma_insert_by_time_at(s: Seq<LyricLineView>, x: LyricLineView, p: int)
    requires
        0 <= p <= s.len(),
        forall|k: int| p <= k < s.len() ==> x.time_ms < #[trigger] s[k].time_ms,
        p == 0 || s[p - 1].time_ms <= x.time_ms,
    ensures
        insert_by_time(s, x) == s.insert(p, x),
    decreases s.len() - p,
{
    if p == s.len() {
        assert(s.insert(p, x) =~= s.push(x));
    } else {
        let d = s.drop_last();
        assert(x.time_ms < s[s.len() - 1].time_ms);
        assert forall|k: int| p <= k < d.len() implies x.time_ms < #[trigger] d[k].time_ms by {
            assert(d[k] == s[k]);
        }
        if p > 0 {
            assert(d[p - 1] == s[p - 1]);
        }
        lemma_insert_by_time_at(d, x, p);
        assert(d.insert(p, x).push(s.last()) =~= s.insert(p, x));
    }
}

/// Inserting into sorted lines keeps them sorted.
pub proof fn lemma_insert_by_time_sorted(s: Seq<LyricLineView>, x: LyricLineView)
    requires
        views_sorted(s),
    ensures
        views_sorted(insert_by_time(s, x)),
        insert_by_time(s, x).len() == s.len() + 1,
    decreases s.len(),
{
    if s.len() == 0 || s.last().time_ms <= x.time_ms {
    } else {
        let d = s.drop_last();
        lemma_insert_by_time_sorted(d, x);
        let r = insert_by_time(d, x);
        lemma_insert_by_time_members(d, x);
        assert forall|i: int, j: int| 0 <= i <= j < r.len() + 1 implies r.push(s.last())[i].time_ms
            <= r.push(s.last())[j].time_ms by {
            if j == r.len() && i < r.len() {
                let e = r[i];
                if e == x {
                } else {
                    let k = choose|k: int| 0 <= k < d.len() && d[k] == e;
                    assert(d[k] == s[k]);
                }
            }
        }
    }
}

proof fn lemma_insert_by_time_members(s: Seq<LyricLineView>, x: LyricLineView)
    ensures
        forall|i: int|
            0 <= i < insert_by_time(s, x).len() ==> (#[trigger] insert_by_time(s, x)[i] == x || exists|
                k: int,
            | 0 <= k < s.len() && s[k] == insert_by_time(s, x)[i]),
        insert_by_time(s, x).len() == s.len() + 1,
    decreases s.len(),
{
    if s.len() == 0 || s.last().time_ms <= x.time_ms {
        assert forall|i: int| 0 <= i < insert_by_time(s, x).len() implies (#[trigger] insert_by_time(
            s,
            x,
        )[i] == x || exists|k: int| 0 <= k < s.len() && s[k] == insert_by_time(s, x)[i]) by {
            if i < s.len() {
                assert(s[i] == insert_by_time(s, x)[i]);
            }
        }
    } else {
        let d = s.drop_last();
        lemma_insert_by_time_members(d, x);
        let r = insert_by_time(d, x);
        assert forall|i: int| 0 <= i < insert_by_time(s, x).len() implies (#[trigger] insert_by_time(
            s,
            x,
        )[i] == x || exists|k: int| 0 <= k < s.len() && s[k] == insert_by_time(s, x)[i]) by {
            if i < r.len() {
                assert(insert_by_time(s, x)[i] == r[i]);
                if r[i] != x {
                    let k = choose|k: int| 0 <= k < d.len() && d[k] == r[i];
                    assert(s[k] == d[k]);
                }
            } else {
                assert(insert_by_time(s, x)[i] == s[s.len() - 1]);
            }
        }
    }
}

/// Stable sorting by start time yields lines ordered by start time.
pub proof fn lemma_sort_by_time_sorted(s: Seq<LyricLineView>)
    ensures
        views_sorted(sort_by_time(s)),
        sort_by_time(s).len() == s.len(),
    decreases s.len(),
{
    if s.len() > 0 {
        lemma_sort_by_time_sorted(s.drop_last());
        lemma_insert_by_time_sorted(sort_by_time(s.drop_last()), s.last());
    }
}

proof fn lemma_insert_by_time_multiset(s: Seq<LyricLineView>, x: LyricLineView)
    ensures
        insert_by_time(s, x).to_multiset() =~= s.to_multiset().insert(x),
    decreases s.len(),
{
    broadcast use vstd::seq_lib::group_to_multiset_ensures;

    if s.len() == 0 || s.last().time_ms <= x.time_ms {
    } else {
        let d = s.drop_last();
        lemma_insert_by_time_multiset(d, x);
        assert(s =~= d.push(s.last()));
    }
}

/// Sorting by start time only reorders the lines: the same lines, as often, come out.
pub proof fn lemma_sort_by_time_permutes(s: Seq<LyricLineView>)
    ensures
        sort_by_time(s).to_multiset() =~= s.to_multiset(),
    decreases s.len(),
{
    broadcast use vstd::seq_lib::group_to_multiset_ensures;

    if s.len() > 0 {
        let d = s.drop_last();
        lemma_sort_by_time_permutes(d);
        lemma_insert_by_time_multiset(sort_by_time(d), s.last());
        assert(s =~= d.push(s.last()));
    }
}

/// Inserts `x` into `out` as one step of a stable sort by start time.
fn insert_line_by_time(out: &mut Vec<LyricLine>, x: LyricLine)
    ensures
        lines_view(final(out)@) == insert_by_time(lines_view(old(out)@), x@),
{
    let ghost before = lines_view(out@);
    let mut p: usize = out.len();
    while p > 0 && out[p - 1].time_ms > x.time_ms
        invariant
            p <= out@.len(),
            before == lines_view(out@),
            forall|k: int| p <= k < out@.len() ==> x.time_ms < #[trigger] out@[k].time_ms,
        decreases p,
    {
        p -= 1;
    }
    proof {
        assert forall|k: int| p <= k < before.len() implies x@.time_ms < #[trigger] before[k].time_ms by {
            assert(before[k] == out@[k]@);
        }
        if p > 0 {
            assert(before[p - 1] == out@[p - 1]@);
        }
        lemma_insert_by_time_at(before, x@, p as int);
    }
    let ghost xv = x@;
    out.insert(p, x);
    assert(lines_view(out@) =~= before.insert(p as int, xv));
}

/// What a track's metadata holds.
#[derive(Clone, Default, Debug)]
pub struct MusicMetadata {
    pub track_id: Option<String>,
    pub title: String,
    pub artist: String,
    pub artists: Vec<String>,
    pub cover: Option<Arc<Vec<u8>>>,
    pub is_favorite: bool,
}

/// A track's metadata with its lyric lines (ordered by start time).
#[derive(Clone, Default, Debug)]
pub struct MusicData {
    pub metadata: MusicMetadata,
    pub lyrics: Arc<Vec<LyricLine>>,
}

pub struct MusicMetadataView {
    pub track_id: Option<Seq<char>>,
    pub title: Seq<char>,
    pub artist: Seq<char>,
    pub artists: Seq<Seq<char>>,
    pub cover: Option<Seq<u8>>,
    pub is_favorite: bool,
}

pub struct MusicDataView {
    pub metadata: MusicMetadataView,
    pub lyrics: Seq<LyricLineView>,
}

/// The characters of an optional string.
pub open spec fn opt_string_view(o: Option<String>) -> Option<Seq<char>> {
    match o {
        Some(s) => Some(s@),
        None => None,
    }
}

impl View for MusicMetadata {
    type V = MusicMetadataView;

    open spec fn view(&self) -> MusicMetadataView {
        MusicMetadataView {
            track_id: opt_string_view(self.track_id),
            title: self.title@,
            artist: self.artist@,
            artists: self.artists@.map_values(|a: String| a@),
            cover: match self.cover {
                Some(c) => Some(c@),
                None => None,
            },
            is_favorite: self.is_favorite,
        }
    }
}

impl View for MusicData {
    type V = MusicDataView;

    open spec fn view(&self) -> MusicDataView {
        MusicDataView { metadata: self.metadata@, lyrics: lines_view(self.lyrics@) }
    }
}

/// The text of member `key` of `v`, when it is a string.
pub open spec fn str_member(v: JsonValue, key: Seq<char>) -> Option<Seq<char>> {
    match v.spec_get(key) {
        Some(m) => m.spec_as_str(),
        None => None,
    }
}

/// Member `key` of `v` as a non-negative number, rounded.
pub open spec fn rounded_member(v: JsonValue, key: Seq<char>) -> Option<u64> {
    match v.spec_get(key) {
        Some(m) => m.spec_rounded_u64(),
        None => None,
    }
}

/// The elements of member `key` of `v`, when it is an array.
pub open spec fn array_member(v: JsonValue, key: Seq<char>) -> Option<Seq<JsonValue>> {
    match v.spec_get(key) {
        Some(m) => m.spec_as_array(),
        None => None,
    }
}

/// The track id: member `id`, trimmed, when it is a non-blank string.
pub open spec fn track_id_spec(meta: JsonValue) -> Option<Seq<char>> {
    match str_member(meta, "id"@) {
        Some(s) => if trim(s).len() > 0 {
            Some(trim(s))
        } else {
            None
        },
        None => None,
    }
}

/// The artist line: member `artist`, trimmed; empty when it is not a string.
pub open spec fn artist_spec(meta: JsonValue) -> Seq<char> {
    match str_member(meta, "artist"@) {
        Some(s) => trim(s),
        None => Seq::<char>::empty(),
    }
}

/// The string elements of `a`, trimmed, the blank ones left out.
pub open spec fn artist_names(a: Seq<JsonValue>) -> Seq<Seq<char>>
    decreases a.len(),
{
    if a.len() == 0 {
        seq![]
    } else {
        let r = artist_names(a.drop_last());
        match a.last().spec_as_str() {
            Some(s) => if trim(s).len() > 0 {
                r.push(trim(s))
            } else {
                r
            },
            None => r,
        }
    }
}

/// The artists: the names in member `artists` when it is an array, else none.
pub open spec fn artists_spec(meta: JsonValue) -> Seq<Seq<char>> {
    match array_member(meta, "artists"@) {
        Some(a) => artist_names(a),
        None => seq![],
    }
}

/// The cover image that Base64 text decodes to; none when it is blank or refused.
pub open spec fn cover_from_text(text: Seq<char>) -> Option<Seq<u8>> {
    match cover_spec(text, vstd::utf8::encode_utf8(text)) {
        Ok(Some(b)) => Some(b),
        _ => None,
    }
}

/// The cover: member `cover_base64`, decoded, when it is a string that decodes.
pub open spec fn cover_member_spec(meta: JsonValue) -> Option<Seq<u8>> {
    match str_member(meta, "cover_base64"@) {
        Some(t) => cover_from_text(t),
        None => None,
    }
}

/// Whether the track is a favourite: member `is_favorite` when it is a boolean, else false.
pub open spec fn favorite_spec(meta: JsonValue) -> bool {
    match meta.spec_get("is_favorite"@) {
        Some(m) => match m.spec_as_bool() {
            Some(b) => b,
            None => false,
        },
        None => false,
    }
}

/// A timed character: members `s` and `e` as non-negative numbers (rounded) and `t` as a
/// string; `None` when one of them is missing or invalid.
pub open spec fn character_entry(c: JsonValue) -> Option<LyricCharacterView> {
    match (rounded_member(c, "s"@), rounded_member(c, "e"@), str_member(c, "t"@)) {
        (Some(s), Some(e), Some(t)) => Some(LyricCharacterView { s, e, t }),
        _ => None,
    }
}

/// The valid timed characters of `a`, in order.
pub open spec fn character_entries(a: Seq<JsonValue>) -> Seq<LyricCharacterView>
    decreases a.len(),
{
    if a.len() == 0 {
        seq![]
    } else {
        let r = character_entries(a.drop_last());
        match character_entry(a.last()) {
            Some(c) => r.push(c),
            None => r,
        }
    }
}

/// The timed characters of a line: those of member `characters`; none when it is not an
/// array or holds no valid character.
pub open spec fn line_characters(v: JsonValue) -> Option<Seq<LyricCharacterView>> {
    match array_member(v, "characters"@) {
        Some(a) => if character_entries(a).len() > 0 {
            Some(character_entries(a))
        } else {
            None
        },
        None => None,
    }
}

/// A lyric line: member `text` (a string, trimmed) and `time_ms` (a non-negative number,
/// rounded), with its timed characters; `None` when `text` or `time_ms` is missing or invalid.
pub open spec fn line_entry(v: JsonValue) -> Option<LyricLineView> {
    match (str_member(v, "text"@), rounded_member(v, "time_ms"@)) {
        (Some(t), Some(time)) => Some(
            LyricLineView { time_ms: time, text: trim(t), characters: line_characters(v) },
        ),
        _ => None,
    }
}

/// The valid lyric lines of `a`, in document order.
pub open spec fn line_entries(a: Seq<JsonValue>) -> Seq<LyricLineView>
    decreases a.len(),
{
    if a.len() == 0 {
        seq![]
    } else {
        let r = line_entries(a.drop_last());
        match line_entry(a.last()) {
            Some(l) => r.push(l),
            None => r,
        }
    }
}

/// The track a `MusicData` payload describes: it needs a `Metadata` object with a
/// non-blank `title` string and a `lyrics` array; the lines come stably sorted by start time.
pub open spec fn music_payload_spec(payload: JsonValue) -> Option<MusicDataView> {
    match payload.spec_get("Metadata"@) {
        None => None,
        Some(meta) => match str_member(meta, "title"@) {
            None => None,
            Some(t) => if trim(t).len() == 0 {
                None
            } else {
                match array_member(payload, "lyrics"@) {
                    None => None,
                    Some(a) => Some(
                        MusicDataView {
                            metadata: MusicMetadataView {
                                track_id: track_id_spec(meta),
                                title: trim(t),
                                artist: artist_spec(meta),
                                artists: artists_spec(meta),
                                cover: cover_member_spec(meta),
                                is_favorite: favorite_spec(meta),
                            },
                            lyrics: sort_by_time(line_entries(a)),
                        },
                    ),
                }
            },
        },
    }
}

fn str_member_exec<'a>(v: &'a JsonValue, key: &str) -> (r: Option<&'a str>)
    ensures
        match r {
            Some(s) => str_member(*v, key@) == Some(s@),
            None => str_member(*v, key@) is None,
        },
{
    match v.get(key) {
        Some(m) => m.as_str(),
        None => None,
    }
}

fn rounded_member_exec(v: &JsonValue, key: &str) -> (r: Option<u64>)
    ensures
        r == rounded_member(*v, key@),
{
    match v.get(key) {
        Some(m) => m.rounded_u64(),
        None => None,
    }
}

fn array_member_exec<'a>(v: &'a JsonValue, key: &str) -> (r: Option<&'a Vec<JsonValue>>)
    ensures
        match r {
            Some(a) => array_member(*v, key@) == Some(a@),
            None => array_member(*v, key@) is None,
        },
{
    match v.get(key) {
        Some(m) => m.as_array(),
        None => None,
    }
}

fn parse_character(c: &JsonValue) -> (r: Option<LyricCharacter>)
    ensures
        match r {
            Some(ch) => character_entry(*c) == Some(ch@),
            None => character_entry(*c) is None,
        },
{
    let s = match rounded_member_exec(c, "s") {
        Some(s) => s,
        None => {
            return None;
        },
    };
    let e = match rounded_member_exec(c, "e") {
        Some(e) => e,
        None => {
            return None;
        },
    };
    let t = match str_member_exec(c, "t") {
        Some(t) => t,
        None => {
            return None;
        },
    };
    Some(LyricCharacter { s, e, t: t.to_string() })
}

fn parse_characters(v: &JsonValue) -> (r: Option<Vec<LyricCharacter>>)
    ensures
        match r {
            Some(cs) => line_characters(*v) == Some(cs@.map_values(|c: LyricCharacter| c@)),
            None => line_characters(*v) is None,
        },
{
    let a = match array_member_exec(v, "characters") {
        Some(a) => a,
        None => {
            return None;
        },
    };
    let mut out: Vec<LyricCharacter> = Vec::new();
    let mut i: usize = 0;
    while i < a.len()
        invariant
            i <= a@.len(),
            out@.map_values(|c: LyricCharacter| c@) == character_entries(a@.subrange(0, i as int)),
        decreases a.len() - i,
    {
        assert(a@.subrange(0, i + 1).drop_last() =~= a@.subrange(0, i as int));
        let ghost before = out@;
        match parse_character(&a[i]) {
            Some(ch) => {
                out.push(ch);
                assert(out@.map_values(|c: LyricCharacter| c@) =~= before.map_values(
                    |c: LyricCharacter| c@,
                ).push(ch@));
            },
            None => {},
        }
        i += 1;
    }
    assert(a@.subrange(0, a@.len() as int) =~= a@);
    if out.len() == 0 {
        None
    } else {
        Some(out)
    }
}

fn parse_line(v: &JsonValue) -> (r: Option<LyricLine>)
    ensures
        match r {
            Some(l) => line_entry(*v) == Some(l@),
            None => line_entry(*v) is None,
        },
{
    let text = match str_member_exec(v, "text") {
        Some(t) => t,
        None => {
            return None;
        },
    };
    let time_ms = match rounded_member_exec(v, "time_ms") {
        Some(t) => t,
        None => {
            return None;
        },
    };
    let characters = parse_characters(v);
    Some(LyricLine { time_ms, text: trimmed(text), characters })
}

fn parse_artists(meta: &JsonValue) -> (r: Vec<String>)
    ensures
        r@.map_values(|a: String| a@) == artists_spec(*meta),
{
    let mut out: Vec<String> = Vec::new();
    let a = match array_member_exec(meta, "artists") {
        Some(a) => a,
        None => {
            assert(out@.map_values(|a: String| a@) =~= Seq::<Seq<char>>::empty());
            return out;
        },
    };
    let mut i: usize = 0;
    assert(out@.map_values(|a: String| a@) =~= artist_names(a@.subrange(0, 0)));
    while i < a.len()
        invariant
            i <= a@.len(),
            out@.map_values(|a: String| a@) == artist_names(a@.subrange(0, i as int)),
        decreases a.len() - i,
    {
        assert(a@.subrange(0, i + 1).drop_last() =~= a@.subrange(0, i as int));
        let ghost before = out@;
        match a[i].as_str() {
            Some(s) => {
                let t = trimmed(s);
                if !t.as_str().is_empty() {
                    out.push(t);
                    assert(out@.map_values(|a: String| a@) =~= before.map_values(|a: String| a@).push(
                        trim(s@),
                    ));
                }
            },
            None => {},
        }
        i += 1;
    }
    assert(a@.subrange(0, a@.len() as int) =~= a@);
    out
}

/// Reads a `MusicData` payload (see `music_payload_spec`).
pub fn parse_music_data_payload(payload: &JsonValue) -> (r: Option<MusicData>)
    ensures
        match r {
            Some(d) => music_payload_spec(*payload) == Some(d@),
            None => music_payload_spec(*payload) is None,
        },
        r matches Some(d) ==> lines_sorted(d.lyrics@),
{
    let metadata = match payload.get("Metadata") {
        Some(m) => m,
        None => {
            return None;
        },
    };
    let title = match str_member_exec(metadata, "title") {
        Some(t) => trimmed(t),
        None => {
            return None;
        },
    };
    if title.as_str().is_empty() {
        return None;
    }
    let track_id = match str_member_exec(metadata, "id") {
        Some(s) => {
            let t = trimmed(s);
            if t.as_str().is_empty() {
                None
            } else {
                Some(t)
            }
        },
        None => None,
    };
    let artist = match str_member_exec(metadata, "artist") {
        Some(s) => trimmed(s),
        None => String::new(),
    };
    let artists = parse_artists(metadata);
    let cover = match str_member_exec(metadata, "cover_base64") {
        Some(text) => match decode_cover_base64(text) {
            Ok(Some(bytes)) => Some(Arc::new(bytes)),
            _ => None,
        },
        None => None,
    };
    let is_favorite = match metadata.get("is_favorite") {
        Some(m) => match m.as_bool() {
            Some(b) => b,
            None => false,
        },
        None => false,
    };
    let lines = match array_member_exec(payload, "lyrics") {
        Some(a) => a,
        None => {
            return None;
        },
    };
    let mut lyrics: Vec<LyricLine> = Vec::new();
    let mut i: usize = 0;
    while i < lines.len()
        invariant
            i <= lines@.len(),
            lines_view(lyrics@) == sort_by_time(line_entries(lines@.subrange(0, i as int))),
        decreases lines.len() - i,
    {
        let ghost prefix = lines@.subrange(0, i + 1);
        assert(prefix.drop_last() =~= lines@.subrange(0, i as int));
        assert(prefix.last() == lines@[i as int]);
        let ghost before = line_entries(lines@.subrange(0, i as int));
        match parse_line(&lines[i]) {
            Some(line) => {
                let ghost lv = line@;
                insert_line_by_time(&mut lyrics, line);
                assert(before.push(lv).drop_last() =~= before);
                assert(line_entries(prefix) == before.push(lv));
            },
            None => {
                assert(line_entries(prefix) == before);
            },
        }
        i += 1;
    }
    assert(lines@.subrange(0, lines@.len() as int) =~= lines@);
    proof {
        lemma_sort_by_time_sorted(line_entries(lines@));
        assert forall|p: int, q: int| 0 <= p <= q < lyrics@.len() implies lyrics@[p].time_ms
            <= lyrics@[q].time_ms by {
            assert(lines_view(lyrics@)[p] == lyrics@[p]@);
            assert(lines_view(lyrics@)[q] == lyrics@[q]@);
        }
    }
    Some(
        MusicData {
            metadata: MusicMetadata { track_id, title, artist, artists, cover, is_favorite },
            lyrics: Arc::new(lyrics),
        },
    )
}

/// The lines of a track read from a payload are ordered by start time, and they are the
/// payload's valid lines, each as often as it occurs there.
pub proof fn lemma_payload_lines_sorted(payload: JsonValue)
    ensures
        music_payload_spec(payload) matches Some(d) ==> {
            &&& views_sorted(d.lyrics)
            &&& array_member(payload, "lyrics"@) matches Some(a)
            &&& d.lyrics.to_multiset() =~= line_entries(a).to_multiset()
        },
{
    if let Some(a) = array_member(payload, "lyrics"@) {
        lemma_sort_by_time_sorted(line_entries(a));
        lemma_sort_by_time_permutes(line_entries(a));
    }
}


proof fn lemma_last_shown_before_nearest(lines: Seq<LyricLine>, end: int, pattern: Seq<char>)
    requires
        end <= lines.len(),
    ensures
        match last_shown_before(lines, end, pattern) {
            Some(k) => forall|j: int|
                k < j < end ==> !(trim(#[trigger] lines[j].text@).len() > 0
                    && !spec_regex_is_match(pattern, trim(lines[j].text@))),
            None => forall|j: int|
                0 <= j < end ==> !(trim(#[trigger] lines[j].text@).len() > 0
                    && !spec_regex_is_match(pattern, trim(lines[j].text@))),
        },
    decreases end,
{
    if end > 0 && !line_shown(lines, end - 1, pattern) {
        lemma_last_shown_before_nearest(lines, end - 1, pattern);
    }
}

/// The text shown for the line playing: past the last line, the title; a line the filter
/// does not match, its own trimmed text; a line the filter matches, the trimmed text of the
/// nearest earlier line that is not blank and not matched, or the title when there is none.
pub proof fn lemma_filtered_text_nearest_shown(
    lines: Seq<LyricLine>,
    idx: int,
    title: Seq<char>,
    pattern: Seq<char>,
)
    requires
        0 <= idx,
    ensures
        idx >= lines.len() ==> filtered_text_spec(lines, idx, title, pattern) == title,
        idx < lines.len() && !spec_regex_is_match(pattern, trim(lines[idx].text@))
            ==> filtered_text_spec(lines, idx, title, pattern) == trim(lines[idx].text@),
        idx < lines.len() && spec_regex_is_match(pattern, trim(lines[idx].text@)) ==> {
            let r = filtered_text_spec(lines, idx, title, pattern);
            ||| (exists|k: int|
                #![trigger lines[k]]
                0 <= k < idx && r == trim(lines[k].text@) && trim(lines[k].text@).len() > 0
                    && !spec_regex_is_match(pattern, trim(lines[k].text@)) && forall|j: int|
                    k < j < idx ==> !(trim(#[trigger] lines[j].text@).len() > 0
                        && !spec_regex_is_match(pattern, trim(lines[j].text@))))
            ||| (r == title && forall|j: int|
                0 <= j < idx ==> !(trim(#[trigger] lines[j].text@).len() > 0
                    && !spec_regex_is_match(pattern, trim(lines[j].text@))))
        },
{
    if idx < lines.len() {
        lemma_last_shown_before_shows(lines, idx, pattern);
        lemma_last_shown_before_nearest(lines, idx, pattern);
        if spec_regex_is_match(pattern, trim(lines[idx].text@)) {
            match last_shown_before(lines, idx, pattern) {
                Some(k) => {
                    assert(filtered_text_spec(lines, idx, title, pattern) == trim(lines[k].text@));
                },
                None => {},
            }
        }
    }
}

} // verus!
