use vstd::prelude::*;

use crate::text::{
    chars_eq_ignore_ascii_case, chars_of, eq_ignore_ascii_case, str_equal, trim, trim_bounds,
};

verus! {

broadcast use vstd::string::group_string_axioms;

pub const APP_AUTHOR: &'static str = "xiaotian2333";

pub const APP_HOMEPAGE: &'static str = "https://github.com/xiaotian2333/EchoMusic-Lyrics-WinIsland";

pub const WINDOW_TITLE: &'static str = "EchoMusic-Lyrics-WinIsland";

/// Distance in pixels between the island and the monitor edge it docks to.
pub const TOP_OFFSET: i32 = 10;

/// Half of the transparent margin that surrounds the island inside its window.
pub const HALF_PADDING: i32 = 40;

pub const DEFAULT_LYRICS_FILTER_REGEX: &'static str = r"^([^：]*)：.*$|^([^:]*):.*$|^([^翻唱]*)翻唱.*$|^([^许可]*)许可.*$|^([^音乐人]*)音乐人.*$|^([^国风]*)国风.*$|^([^纯音乐]*)纯音乐.*$|^([^星曜计划]*)星曜计划.*$";

/// Where on the monitor the island docks.
#[derive(Clone, Copy, Debug, PartialEq, Eq, Structural)]
pub enum DockPosition {
    TopCenter,
    TopLeft,
    TopRight,
    BottomCenter,
    BottomLeft,
    BottomRight,
}

/// The configuration name of a dock position.
pub open spec fn dock_name(d: DockPosition) -> Seq<char> {
    match d {
        DockPosition::TopCenter => "top_center"@,
        DockPosition::TopLeft => "top_left"@,
        DockPosition::TopRight => "top_right"@,
        DockPosition::BottomCenter => "bottom_center"@,
        DockPosition::BottomLeft => "bottom_left"@,
        DockPosition::BottomRight => "bottom_right"@,
    }
}

/// The dock position a configuration name stands for, if any.
pub open spec fn parse_dock_name(s: Seq<char>) -> Option<DockPosition> {
    if s == "top_center"@ {
        Some(DockPosition::TopCenter)
    } else if s == "top_left"@ {
        Some(DockPosition::TopLeft)
    } else if s == "top_right"@ {
        Some(DockPosition::TopRight)
    } else if s == "bottom_center"@ {
        Some(DockPosition::BottomCenter)
    } else if s == "bottom_left"@ {
        Some(DockPosition::BottomLeft)
    } else if s == "bottom_right"@ {
        Some(DockPosition::BottomRight)
    } else {
        None
    }
}

impl DockPosition {
    pub open spec fn spec_is_bottom(self) -> bool {
        self is BottomCenter || self is BottomLeft || self is BottomRight
    }

    pub open spec fn spec_is_left(self) -> bool {
        self is TopLeft || self is BottomLeft
    }

    pub open spec fn spec_is_right(self) -> bool {
        self is TopRight || self is BottomRight
    }

    /// Whether the island docks to the bottom edge.
    pub fn is_bottom(&self) -> (r: bool)
        ensures
            r == self.spec_is_bottom(),
    {
        match self {
            DockPosition::BottomCenter | DockPosition::BottomLeft | DockPosition::BottomRight => true,
            _ => false,
        }
    }

    /// Whether the island docks to the left edge.
    pub fn is_left(&self) -> (r: bool)
        ensures
            r == self.spec_is_left(),
    {
        match self {
            DockPosition::TopLeft | DockPosition::BottomLeft => true,
            _ => false,
        }
    }

    /// Whether the island docks to the right edge.
    pub fn is_right(&self) -> (r: bool)
        ensures
            r == self.spec_is_right(),
    {
        match self {
            DockPosition::TopRight | DockPosition::BottomRight => true,
            _ => false,
        }
    }

    /// The configuration name of this position.
    pub fn as_str(&self) -> (r: &'static str)
        ensures
            r@ == dock_name(*self),
    {
        match self {
            DockPosition::TopCenter => "top_center",
            DockPosition::TopLeft => "top_left",
            DockPosition::TopRight => "top_right",
            DockPosition::BottomCenter => "bottom_center",
            DockPosition::BottomLeft => "bottom_left",
            DockPosition::BottomRight => "bottom_right",
        }
    }

    /// The position named `s`, or `None` for an unknown name.
    pub fn from_name(s: &str) -> (r: Option<DockPosition>)
        ensures
            r == parse_dock_name(s@),
    {
        if str_equal(s, "top_center") {
            Some(DockPosition::TopCenter)
        } else if str_equal(s, "top_left") {
            Some(DockPosition::TopLeft)
        } else if str_equal(s, "top_right") {
            Some(DockPosition::TopRight)
        } else if str_equal(s, "bottom_center") {
            Some(DockPosition::BottomCenter)
        } else if str_equal(s, "bottom_left") {
            Some(DockPosition::BottomLeft)
        } else if str_equal(s, "bottom_right") {
            Some(DockPosition::BottomRight)
        } else {
            None
        }
    }

    /// The position named `s`; an unknown name gives the default, `TopCenter`.
    pub fn from_name_or_default(s: &str) -> (r: DockPosition)
        ensures
            r == (match parse_dock_name(s@) {
                Some(d) => d,
                None => DockPosition::TopCenter,
            }),
    {
        match Self::from_name(s) {
            Some(d) => d,
            None => DockPosition::TopCenter,
        }
    }
}

impl Default for DockPosition {
    fn default() -> (r: Self)
        ensures
            r == DockPosition::TopCenter,
    {
        DockPosition::TopCenter
    }
}

impl std::str::FromStr for DockPosition {
    type Err = ();

    fn from_str(s: &str) -> (r: Result<Self, Self::Err>)
        ensures
            r == (match parse_dock_name(s@) {
                Some(d) => Ok::<DockPosition, ()>(d),
                None => Err::<DockPosition, ()>(()),
            }),
    {
        match Self::from_name(s) {
            Some(d) => Ok(d),
            None => Err(()),
        }
    }
}

impl From<String> for DockPosition {
    fn from(value: String) -> (r: Self) {
        Self::from_name_or_default(value.as_str())
    }
}

impl vstd::std_specs::convert::FromSpecImpl<String> for DockPosition {
    open spec fn obeys_from_spec() -> bool {
        true
    }

    open spec fn from_spec(v: String) -> Self {
        match parse_dock_name(v@) {
            Some(d) => d,
            None => DockPosition::TopCenter,
        }
    }
}

/// A dock position written as its configuration name.
impl From<DockPosition> for String {
    fn from(value: DockPosition) -> (r: String)
        ensures
            r@ == dock_name(value),
    {
        value.as_str().to_string()
    }
}

/// vstd does not tie a `String` to its characters, so no `String` value can be named in
/// spec code for `from` to equal; what `from` gives is stated by its own `ensures` (the
/// name's characters) instead of through `from_spec`.
impl vstd::std_specs::convert::FromSpecImpl<DockPosition> for String {
    open spec fn obeys_from_spec() -> bool {
        false
    }

    open spec fn from_spec(v: DockPosition) -> String {
        choose|s: String| s@ == dock_name(v)
    }
}

/// Every dock position is read back from its own name.
pub proof fn lemma_dock_name_round_trip(d: DockPosition)
    ensures
        parse_dock_name(dock_name(d)) == Some(d),
{
    reveal_strlit("top_center");
    reveal_strlit("top_left");
    reveal_strlit("top_right");
    reveal_strlit("bottom_center");
    reveal_strlit("bottom_left");
    reveal_strlit("bottom_right");
    match d {
        DockPosition::TopCenter => {},
        DockPosition::TopLeft => {
            assert("top_center"@[4] != "top_left"@[4]);
        },
        DockPosition::TopRight => {
            assert("top_center"@[4] != "top_right"@[4]);
            assert("top_left"@.len() != "top_right"@.len());
        },
        DockPosition::BottomCenter => {
            assert("top_center"@[0] != "bottom_center"@[0]);
            assert("top_left"@[0] != "bottom_center"@[0]);
            assert("top_right"@[0] != "bottom_center"@[0]);
        },
        DockPosition::BottomLeft => {
            assert("top_center"@[0] != "bottom_left"@[0]);
            assert("top_left"@[0] != "bottom_left"@[0]);
            assert("top_right"@[0] != "bottom_left"@[0]);
            assert("bottom_center"@[7] != "bottom_left"@[7]);
        },
        DockPosition::BottomRight => {
            assert("top_center"@[0] != "bottom_right"@[0]);
            assert("top_left"@[0] != "bottom_right"@[0]);
            assert("top_right"@[0] != "bottom_right"@[0]);
            assert("bottom_center"@[7] != "bottom_right"@[7]);
            assert("bottom_left"@.len() != "bottom_right"@.len());
        },
    }
}

/// Which lyrics the filter expression applies to.
#[derive(Clone, Copy, Debug, PartialEq, Eq, Structural)]
pub enum LyricsFilterScope {
    Off,
    Desktop,
    All,
}

/// The configuration name of a filter scope.
pub open spec fn scope_name(s: LyricsFilterScope) -> Seq<char> {
    match s {
        LyricsFilterScope::Off => "off"@,
        LyricsFilterScope::Desktop => "desktop"@,
        LyricsFilterScope::All => "all"@,
    }
}

/// The filter scope a configuration name stands for, if any.
pub open spec fn parse_scope_name(s: Seq<char>) -> Option<LyricsFilterScope> {
    if s == "desktop"@ {
        Some(LyricsFilterScope::Desktop)
    } else if s == "all"@ {
        Some(LyricsFilterScope::All)
    } else if s == "off"@ {
        Some(LyricsFilterScope::Off)
    } else {
        None
    }
}

impl LyricsFilterScope {
    /// The configuration name of this scope.
    pub fn as_str(&self) -> (r: &'static str)
        ensures
            r@ == scope_name(*self),
    {
        match self {
            LyricsFilterScope::Off => "off",
            LyricsFilterScope::Desktop => "desktop",
            LyricsFilterScope::All => "all",
        }
    }

    /// Whether lyrics shown on the desktop island are filtered.
    pub fn filters_desktop(&self) -> (r: bool)
        ensures
            r == (*self is Desktop || *self is All),
    {
        match self {
            LyricsFilterScope::Desktop | LyricsFilterScope::All => true,
            _ => false,
        }
    }

    /// Whether every lyric view is filtered.
    pub fn filters_all(&self) -> (r: bool)
        ensures
            r == (*self is All),
    {
        match self {
            LyricsFilterScope::All => true,
            _ => false,
        }
    }

    /// The scope named `s`, or `None` for an unknown name.
    pub fn from_name(s: &str) -> (r: Option<LyricsFilterScope>)
        ensures
            r == parse_scope_name(s@),
    {
        if str_equal(s, "desktop") {
            Some(LyricsFilterScope::Desktop)
        } else if str_equal(s, "all") {
            Some(LyricsFilterScope::All)
        } else if str_equal(s, "off") {
            Some(LyricsFilterScope::Off)
        } else {
            None
        }
    }

    /// The scope named `s`; an unknown name gives the default, `Off`.
    pub fn from_name_or_default(s: &str) -> (r: LyricsFilterScope)
        ensures
            r == (match parse_scope_name(s@) {
                Some(d) => d,
                None => LyricsFilterScope::Off,
            }),
    {
        match Self::from_name(s) {
            Some(d) => d,
            None => LyricsFilterScope::Off,
        }
    }
}

impl Default for LyricsFilterScope {
    fn default() -> (r: Self)
        ensures
            r == LyricsFilterScope::Off,
    {
        LyricsFilterScope::Off
    }
}

impl std::str::FromStr for LyricsFilterScope {
    type Err = ();

    fn from_str(s: &str) -> (r: Result<Self, Self::Err>)
        ensures
            r == (match parse_scope_name(s@) {
                Some(d) => Ok::<LyricsFilterScope, ()>(d),
                None => Err::<LyricsFilterScope, ()>(()),
            }),
    {
        match Self::from_name(s) {
            Some(d) => Ok(d),
            None => Err(()),
        }
    }
}

impl From<String> for LyricsFilterScope {
    fn from(value: String) -> (r: Self) {
        Self::from_name_or_default(value.as_str())
    }
}

impl vstd::std_specs::convert::FromSpecImpl<String> for LyricsFilterScope {
    open spec fn obeys_from_spec() -> bool {
        true
    }

    open spec fn from_spec(v: String) -> Self {
        match parse_scope_name(v@) {
            Some(d) => d,
            None => LyricsFilterScope::Off,
        }
    }
}

/// A filter scope written as its configuration name.
impl From<LyricsFilterScope> for String {
    fn from(value: LyricsFilterScope) -> (r: String)
        ensures
            r@ == scope_name(value),
    {
        value.as_str().to_string()
    }
}

/// vstd does not tie a `String` to its characters, so no `String` value can be named in
/// spec code for `from` to equal; what `from` gives is stated by its own `ensures` (the
/// name's characters) instead of through `from_spec`.
impl vstd::std_specs::convert::FromSpecImpl<LyricsFilterScope> for String {
    open spec fn obeys_from_spec() -> bool {
        false
    }

    open spec fn from_spec(v: LyricsFilterScope) -> String {
        choose|s: String| s@ == scope_name(v)
    }
}

/// Every filter scope is read back from its own name.
pub proof fn lemma_scope_name_round_trip(s: LyricsFilterScope)
    ensures
        parse_scope_name(scope_name(s)) == Some(s),
{
    reveal_strlit("off");
    reveal_strlit("desktop");
    reveal_strlit("all");
    match s {
        LyricsFilterScope::Off => {
            assert("desktop"@.len() != "off"@.len());
            assert("all"@[0] != "off"@[0]);
        },
        LyricsFilterScope::Desktop => {},
        LyricsFilterScope::All => {
            assert("desktop"@.len() != "all"@.len());
        },
    }
}

/// A rule that docks the island elsewhere while a given process is in front.
#[derive(Clone, Debug)]
pub struct ProcessDockRule {
    pub process_name: String,
    pub dock_position: DockPosition,
}

/// Whether `rule` applies to the foreground process named `name`: its trimmed process
/// name is not empty and equals `name` ignoring ASCII case.
pub open spec fn rule_applies(rule: ProcessDockRule, name: Seq<char>) -> bool {
    trim(rule.process_name@).len() > 0 && eq_ignore_ascii_case(trim(rule.process_name@), name)
}

/// The dock position for the foreground process `name`: that of the first rule that
/// applies to it, else `fallback`.
pub open spec fn resolve_dock_spec(
    rules: Seq<ProcessDockRule>,
    name: Option<Seq<char>>,
    fallback: DockPosition,
) -> DockPosition
    decreases rules.len(),
{
    match name {
        None => fallback,
        Some(n) => if rules.len() == 0 {
            fallback
        } else if rule_applies(rules[0], n) {
            rules[0].dock_position
        } else {
            resolve_dock_spec(rules.drop_first(), name, fallback)
        },
    }
}

/// The first rule that applies to the foreground process decides where the island docks.
pub proof fn lemma_first_matching_rule_decides(
    rules: Seq<ProcessDockRule>,
    name: Seq<char>,
    fallback: DockPosition,
    i: int,
)
    requires
        0 <= i < rules.len(),
        rule_applies(rules[i], name),
        forall|j: int| 0 <= j < i ==> !rule_applies(#[trigger] rules[j], name),
    ensures
        resolve_dock_spec(rules, Some(name), fallback) == rules[i].dock_position,
    decreases i,
{
    if i > 0 {
        assert(!rule_applies(rules[0], name));
        let t = rules.drop_first();
        assert forall|j: int| 0 <= j < i - 1 implies !rule_applies(#[trigger] t[j], name) by {
            assert(t[j] == rules[j + 1]);
        }
        lemma_first_matching_rule_decides(t, name, fallback, i - 1);
    }
}

/// When no rule applies to the foreground process, the configured position stands.
pub proof fn lemma_no_matching_rule(rules: Seq<ProcessDockRule>, name: Seq<char>, fallback: DockPosition)
    requires
        forall|j: int| 0 <= j < rules.len() ==> !rule_applies(#[trigger] rules[j], name),
    ensures
        resolve_dock_spec(rules, Some(name), fallback) == fallback,
    decreases rules.len(),
{
    if rules.len() > 0 {
        assert(!rule_applies(rules[0], name));
        let t = rules.drop_first();
        assert forall|j: int| 0 <= j < t.len() implies !rule_applies(#[trigger] t[j], name) by {
            assert(t[j] == rules[j + 1]);
        }
        lemma_no_matching_rule(t, name, fallback);
    }
}

/// The characters of an optional string.
pub open spec fn opt_str_view(o: Option<&str>) -> Option<Seq<char>> {
    match o {
        Some(s) => Some(s@),
        None => None,
    }
}

fn rule_applies_exec(rule: &ProcessDockRule, name: &[char]) -> (r: bool)
    ensures
        r == rule_applies(*rule, name@),
{
    let v = chars_of(rule.process_name.as_str());
    let (a, b) = trim_bounds(v.as_slice());
    if a == b {
        return false;
    }
    let t = slice_range(v.as_slice(), a, b);
    chars_eq_ignore_ascii_case(t.as_slice(), name)
}

fn slice_range(v: &[char], a: usize, b: usize) -> (r: Vec<char>)
    requires
        a <= b <= v@.len(),
    ensures
        r@ == v@.subrange(a as int, b as int),
{
    let mut r: Vec<char> = Vec::new();
    let mut i = a;
    while i < b
        invariant
            a <= i <= b <= v@.len(),
            r@ == v@.subrange(a as int, i as int),
        decreases b - i,
    {
        r.push(v[i]);
        assert(r@ =~= v@.subrange(a as int, i + 1));
        i += 1;
    }
    r
}

/// The dock position while the process `process_name` is in front: the first rule whose
/// trimmed, non-empty process name matches it ignoring ASCII case decides; with no match,
/// or no foreground process, the configured `fallback` stands.
pub fn resolve_dock_position(
    rules: &[ProcessDockRule],
    process_name: Option<&str>,
    fallback: DockPosition,
) -> (r: DockPosition)
    ensures
        r == resolve_dock_spec(rules@, opt_str_view(process_name), fallback),
{
    let ghost name = opt_str_view(process_name);
    let n = match process_name {
        None => {
            return fallback;
        },
        Some(n) => chars_of(n),
    };
    let mut i: usize = 0;
    assert(rules@.subrange(0, rules@.len() as int) =~= rules@);
    while i < rules.len()
        invariant
            i <= rules@.len(),
            name == Some(n@),
            name == opt_str_view(process_name),
            resolve_dock_spec(rules@, name, fallback) == resolve_dock_spec(
                rules@.subrange(i as int, rules@.len() as int),
                name,
                fallback,
            ),
        decreases rules.len() - i,
    {
        let ghost tail = rules@.subrange(i as int, rules@.len() as int);
        assert(tail[0] == rules@[i as int]);
        if rule_applies_exec(&rules[i], n.as_slice()) {
            assert(resolve_dock_spec(tail, name, fallback) == tail[0].dock_position);
            return rules[i].dock_position;
        }
        assert(tail.drop_first() =~= rules@.subrange(i + 1, rules@.len() as int));
        i += 1;
    }
    fallback
}

/// A configured colour: `auto` (any ASCII case), or six hexadecimal digits with an
/// optional leading `#`; white space around it is ignored.
pub open spec fn valid_color_spec(s: Seq<char>) -> bool {
    eq_ignore_ascii_case(trim(s), "auto"@) || six_hex_digits(strip_hash(trim(s)))
}

/// `t` without one leading `#`.
pub open spec fn strip_hash(t: Seq<char>) -> Seq<char> {
    if t.len() > 0 && t[0] == '#' {
        t.drop_first()
    } else {
        t
    }
}

/// Exactly six ASCII hexadecimal digits.
pub open spec fn six_hex_digits(h: Seq<char>) -> bool {
    h.len() == 6 && forall|k: int| 0 <= k < 6 ==> is_hex_digit(#[trigger] h[k])
}

/// An ASCII hexadecimal digit.
pub open spec fn is_hex_digit(c: char) -> bool {
    ('0' <= c && c <= '9') || ('a' <= c && c <= 'f') || ('A' <= c && c <= 'F')
}

/// Whether `s` is an accepted colour setting.
pub fn is_valid_color(s: &str) -> (r: bool)
    ensures
        r == valid_color_spec(s@),
{
    let v = chars_of(s);
    let (a, b) = trim_bounds(v.as_slice());
    let t = slice_range(v.as_slice(), a, b);
    let auto = chars_of("auto");
    if chars_eq_ignore_ascii_case(t.as_slice(), auto.as_slice()) {
        return true;
    }
    let start: usize = if t.len() > 0 && t[0] == '#' {
        1
    } else {
        0
    };
    let ghost hex = strip_hash(t@);
    assert(hex =~= t@.subrange(start as int, t@.len() as int));
    assert(t@ == trim(s@));
    assert(!eq_ignore_ascii_case(t@, "auto"@));
    if t.len() - start != 6 {
        assert(hex.len() != 6);
        return false;
    }
    let mut k: usize = 0;
    while k < 6
        invariant
            k <= 6,
            start <= 1,
            t@.len() == start + 6,
            t@ == trim(s@),
            !eq_ignore_ascii_case(t@, "auto"@),
            hex == strip_hash(t@),
            hex =~= t@.subrange(start as int, t@.len() as int),
            forall|m: int| 0 <= m < k ==> is_hex_digit(#[trigger] hex[m]),
        decreases 6 - k,
    {
        let c = t[start + k];
        assert(c == hex[k as int]);
        if !(('0' <= c && c <= '9') || ('a' <= c && c <= 'f') || ('A' <= c && c <= 'F')) {
            assert(!is_hex_digit(hex[k as int]));
            return false;
        }
        k += 1;
    }
    true
}


/* Defaults of the settings that a configuration file may leave out. */

/// Default of the `island_style` setting.
pub fn default_island_style() -> (r: String)
    ensures
        r@ == "default"@,
{
    "default".to_string()
}

/// Default of the `show_lyrics` setting.
pub fn default_show_lyrics() -> (r: bool)
    ensures
        r == true,
{
    true
}

/// Default of the `custom_font_path` setting: no custom font.
pub fn default_custom_font() -> (r: Option<String>)
    ensures
        r is None,
{
    None
}

/// Default of the `auto_start` setting.
pub fn default_auto_start() -> (r: bool)
    ensures
        r == false,
{
    false
}

/// Default of the `auto_hide` setting.
pub fn default_auto_hide() -> (r: bool)
    ensures
        r == false,
{
    false
}

/// Default of the `hover_to_hide` setting.
pub fn default_hover_to_hide() -> (r: bool)
    ensures
        r == false,
{
    false
}

/// Default of the `check_for_updates` setting.
pub fn default_check_for_updates() -> (r: bool)
    ensures
        r == true,
{
    true
}

/// Default of the `language` setting.
pub fn default_language() -> (r: String)
    ensures
        r@ == "auto"@,
{
    "auto".to_string()
}

/// Default of the `lyrics_scroll` setting.
pub fn default_lyrics_scroll() -> (r: bool)
    ensures
        r == false,
{
    false
}

/// Default of the `lyrics_scroll_infinite_loop` setting.
pub fn default_lyrics_scroll_infinite_loop() -> (r: bool)
    ensures
        r == false,
{
    false
}

/// Default of the `lyrics_filter_scope` setting.
pub fn default_lyrics_filter_scope() -> (r: LyricsFilterScope)
    ensures
        r == LyricsFilterScope::Desktop,
{
    LyricsFilterScope::Desktop
}

/// Default of the `lyrics_filter_regex` setting.
pub fn default_lyrics_filter_regex() -> (r: String)
    ensures
        r@ == DEFAULT_LYRICS_FILTER_REGEX@,
{
    DEFAULT_LYRICS_FILTER_REGEX.to_string()
}

/// Default of the `position_x_offset` setting.
pub fn default_position_x_offset() -> (r: i32)
    ensures
        r == 0,
{
    0
}

/// Default of the `position_y_offset` setting.
pub fn default_position_y_offset() -> (r: i32)
    ensures
        r == 0,
{
    0
}

/// Default of the `dock_position` setting.
pub fn default_dock_position() -> (r: DockPosition)
    ensures
        r == DockPosition::TopCenter,
{
    DockPosition::TopCenter
}

/// Default of the `process_dock_rules` setting: no rules.
pub fn default_process_dock_rules() -> (r: Vec<ProcessDockRule>)
    ensures
        r@.len() == 0,
{
    Vec::new()
}

/// Default of the `monitor_index` setting.
pub fn default_monitor_index() -> (r: i32)
    ensures
        r == 0,
{
    0
}

/// Default of the `settings_theme` setting.
pub fn default_settings_theme() -> (r: String)
    ensures
        r@ == "system"@,
{
    "system".to_string()
}

/// Default of the `mini_cover_shape` setting.
pub fn default_mini_cover_shape() -> (r: String)
    ensures
        r@ == "square"@,
{
    "square".to_string()
}

/// Default of the `expanded_cover_shape` setting.
pub fn default_expanded_cover_shape() -> (r: String)
    ensures
        r@ == "square"@,
{
    "square".to_string()
}

/// Default of the `cover_rotate` setting.
pub fn default_cover_rotate() -> (r: bool)
    ensures
        r == false,
{
    false
}

/// Default of the `audio_gate` setting.
pub fn default_audio_gate() -> (r: bool)
    ensures
        r == true,
{
    true
}

/// Default of the `mini_controls` setting.
pub fn default_mini_controls() -> (r: bool)
    ensures
        r == false,
{
    false
}

/// Default of the `show_favorite_button` setting.
pub fn default_show_favorite_button() -> (r: bool)
    ensures
        r == false,
{
    false
}

/// Default of the `lyrics_char_highlight` setting.
pub fn default_lyrics_char_highlight() -> (r: bool)
    ensures
        r == true,
{
    true
}

/// Default of the `lyrics_char_lift_animation` setting.
pub fn default_lyrics_char_lift_animation() -> (r: bool)
    ensures
        r == true,
{
    true
}

/// Default of the `lyrics_char_color_unplayed` setting.
pub fn default_lyrics_char_color_unplayed() -> (r: String)
    ensures
        r@ == "auto"@,
{
    "auto".to_string()
}

/// Default of the `lyrics_char_color_played` setting.
pub fn default_lyrics_char_color_played() -> (r: String)
    ensures
        r@ == "auto"@,
{
    "auto".to_string()
}

/// The settings kept as free text: the choices that must name a known option, and the two
/// lyric colours.
#[derive(Clone, Debug)]
pub struct TextSettings {
    pub language: String,
    pub settings_theme: String,
    pub island_style: String,
    pub mini_cover_shape: String,
    pub expanded_cover_shape: String,
    pub lyrics_char_color_unplayed: String,
    pub lyrics_char_color_played: String,
}

pub open spec fn known_language(s: Seq<char>) -> bool {
    s == "auto"@ || s == "en"@ || s == "zh"@
}

pub open spec fn known_settings_theme(s: Seq<char>) -> bool {
    s == "system"@ || s == "light"@ || s == "dark"@
}

pub open spec fn known_island_style(s: Seq<char>) -> bool {
    s == "default"@ || s == "glass"@ || s == "mica"@ || s == "dynamic"@ || s == "liquid_glass"@
}

pub open spec fn known_cover_shape(s: Seq<char>) -> bool {
    s == "square"@ || s == "circle"@
}

/// `s` when it is acceptable, else `default`.
pub open spec fn or_default(ok: bool, s: Seq<char>, default: Seq<char>) -> Seq<char> {
    if ok {
        s
    } else {
        default
    }
}

fn choice_or_default(value: &mut String, ok: bool, default: &str)
    ensures
        final(value)@ == or_default(ok, old(value)@, default@),
{
    if !ok {
        *value = default.to_string();
    }
}

/// Puts every text setting that names no known option (or no valid colour) back to its
/// default: language `auto`, settings theme `system`, island style `default`, cover shapes
/// `square`, colours `auto`.
pub fn normalize_text_settings(t: &mut TextSettings)
    ensures
        final(t).language@ == or_default(known_language(old(t).language@), old(t).language@, "auto"@),
        final(t).settings_theme@ == or_default(
            known_settings_theme(old(t).settings_theme@),
            old(t).settings_theme@,
            "system"@,
        ),
        final(t).island_style@ == or_default(
            known_island_style(old(t).island_style@),
            old(t).island_style@,
            "default"@,
        ),
        final(t).mini_cover_shape@ == or_default(
            known_cover_shape(old(t).mini_cover_shape@),
            old(t).mini_cover_shape@,
            "square"@,
        ),
        final(t).expanded_cover_shape@ == or_default(
            known_cover_shape(old(t).expanded_cover_shape@),
            old(t).expanded_cover_shape@,
            "square"@,
        ),
        final(t).lyrics_char_color_unplayed@ == or_default(
            valid_color_spec(old(t).lyrics_char_color_unplayed@),
            old(t).lyrics_char_color_unplayed@,
            "auto"@,
        ),
        final(t).lyrics_char_color_played@ == or_default(
            valid_color_spec(old(t).lyrics_char_color_played@),
            old(t).lyrics_char_color_played@,
            "auto"@,
        ),
{
    let l = t.language.as_str();
    let ok = str_equal(l, "auto") || str_equal(l, "en") || str_equal(l, "zh");
    choice_or_default(&mut t.language, ok, "auto");
    let th = t.settings_theme.as_str();
    let ok = str_equal(th, "system") || str_equal(th, "light") || str_equal(th, "dark");
    choice_or_default(&mut t.settings_theme, ok, "system");
    let st = t.island_style.as_str();
    let ok = str_equal(st, "default") || str_equal(st, "glass") || str_equal(st, "mica") || str_equal(
        st,
        "dynamic",
    ) || str_equal(st, "liquid_glass");
    choice_or_default(&mut t.island_style, ok, "default");
    let m = t.mini_cover_shape.as_str();
    let ok = str_equal(m, "square") || str_equal(m, "circle");
    choice_or_default(&mut t.mini_cover_shape, ok, "square");
    let e = t.expanded_cover_shape.as_str();
    let ok = str_equal(e, "square") || str_equal(e, "circle");
    choice_or_default(&mut t.expanded_cover_shape, ok, "square");
    let ok = is_valid_color(t.lyrics_char_color_unplayed.as_str());
    choice_or_default(&mut t.lyrics_char_color_unplayed, ok, "auto");
    let ok = is_valid_color(t.lyrics_char_color_played.as_str());
    choice_or_default(&mut t.lyrics_char_color_played, ok, "auto");
}

/// Normalising text settings a second time changes nothing: whatever the first pass
/// leaves, kept value or default, is accepted.
pub proof fn lemma_normalize_text_settings_idempotent(
    language: Seq<char>,
    theme: Seq<char>,
    style: Seq<char>,
    shape: Seq<char>,
    color: Seq<char>,
)
    ensures
        known_language(or_default(known_language(language), language, "auto"@)),
        known_settings_theme(or_default(known_settings_theme(theme), theme, "system"@)),
        known_island_style(or_default(known_island_style(style), style, "default"@)),
        known_cover_shape(or_default(known_cover_shape(shape), shape, "square"@)),
        valid_color_spec(or_default(valid_color_spec(color), color, "auto"@)),
{
    reveal_strlit("auto");
    assert(trim("auto"@) == "auto"@);
}

/// What saving new settings sets off besides writing them: the interface language is
/// loaded again, start at login is updated, and the custom font is loaded again, each when
/// its setting changed.
#[derive(Clone, Copy, Debug, PartialEq, Eq, Structural)]
pub struct ConfigSideEffects {
    pub reload_language: bool,
    pub update_autostart: bool,
    pub refresh_font: bool,
}

/// The side effects of going from the old settings to the new ones.
pub fn config_side_effects(
    old_language: &str,
    new_language: &str,
    old_auto_start: bool,
    new_auto_start: bool,
    old_font: Option<&str>,
    new_font: Option<&str>,
) -> (r: ConfigSideEffects)
    ensures
        r.reload_language == (old_language@ != new_language@),
        r.update_autostart == (old_auto_start != new_auto_start),
        r.refresh_font == (opt_str_view(old_font) != opt_str_view(new_font)),
{
    let fonts_equal = match (old_font, new_font) {
        (Some(a), Some(b)) => str_equal(a, b),
        (None, None) => true,
        _ => false,
    };
    ConfigSideEffects {
        reload_language: !str_equal(old_language, new_language),
        update_autostart: old_auto_start != new_auto_start,
        refresh_font: !fonts_equal,
    }
}

} // verus!
