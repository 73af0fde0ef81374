use vstd::prelude::*;

use crate::text::{chars_of, trim, trim_bounds};

verus! {

#[verifier::external_type_specification]
#[verifier::external_body]
pub struct ExRegex(regex::Regex);

/// Whether `regex::Regex::new` accepts `pattern` (it is valid and within the default size limits).
pub uninterp spec fn spec_regex_compiles(pattern: Seq<char>) -> bool;

/// What `regex::Regex::is_match` answers for the expression compiled from `pattern` on `text`.
pub uninterp spec fn spec_regex_is_match(pattern: Seq<char>, text: Seq<char>) -> bool;

/// A regular expression together with the pattern it was compiled from.
pub struct CompiledRegex {
    pattern: String,
    regex: regex::Regex,
}

impl View for CompiledRegex {
    type V = Seq<char>;

    /// The pattern the expression was compiled from.
    closed spec fn view(&self) -> Seq<char> {
        self.pattern@
    }
}

/// Compiles `pattern` with `regex::Regex::new`; `None` when the crate rejects it.
/// The contract claims only that the outcome depends on the pattern alone.
#[verifier::external_body]
pub(crate) fn compile_regex(pattern: &str) -> (r: Option<CompiledRegex>)
    ensures
        r is Some <==> spec_regex_compiles(pattern@),
        r matches Some(c) ==> c@ == pattern@,
{
    regex::Regex::new(pattern).ok().map(|regex| CompiledRegex { pattern: pattern.to_string(), regex })
}

/// `regex::Regex::is_match`: whether the expression matches anywhere in `text`.
/// The contract names the answer as a function of the pattern and the text.
#[verifier::external_body]
pub(crate) fn regex_is_match(re: &CompiledRegex, text: &str) -> (b: bool)
    ensures
        b == spec_regex_is_match(re@, text@),
{
    re.regex.is_match(text)
}

/// The expression that a lyrics filter pattern gives: none for a blank pattern or one
/// the regex crate rejects.
pub open spec fn filter_for(pattern: Seq<char>) -> Option<Seq<char>> {
    if trim(pattern).len() == 0 || !spec_regex_compiles(pattern) {
        None
    } else {
        Some(pattern)
    }
}

/// The lyrics filter of the island: the last pattern it was given and the expression
/// compiled from it.
pub struct LyricsFilter {
    pattern: String,
    regex: Option<CompiledRegex>,
}

impl LyricsFilter {
    /// The pattern the filter was last refreshed with.
    pub closed spec fn pattern(&self) -> Seq<char> {
        self.pattern@
    }

    /// The pattern of the compiled expression, if any.
    pub closed spec fn active(&self) -> Option<Seq<char>> {
        match self.regex {
            Some(r) => Some(r@),
            None => None,
        }
    }

    /// The compiled expression always is the one that the stored pattern gives.
    pub closed spec fn wf(&self) -> bool {
        self.active() == filter_for(self.pattern@)
    }

    /// A filter with an empty pattern, which filters nothing.
    pub fn new() -> (f: LyricsFilter)
        ensures
            f.wf(),
            f.pattern() == Seq::<char>::empty(),
            f.active() is None,
    {
        let f = LyricsFilter { pattern: String::new(), regex: None };
        assert(trim(f.pattern@) =~= Seq::<char>::empty());
        f
    }

    /// Brings the filter up to date with `pattern`, compiling it only when it changed.
    pub fn refresh(&mut self, pattern: &str)
        requires
            old(self).wf(),
        ensures
            final(self).wf(),
            final(self).pattern() == pattern@,
            final(self).active() == filter_for(pattern@),
            old(self).pattern() == pattern@ ==> final(self).active() == old(self).active(),
    {
        let current = chars_of(self.pattern.as_str());
        let next = chars_of(pattern);
        if crate::text::chars_equal(current.as_slice(), next.as_slice()) {
            return;
        }
        self.pattern = pattern.to_string();
        let (a, b) = trim_bounds(next.as_slice());
        if a == b {
            self.regex = None;
        } else {
            self.regex = compile_regex(pattern);
        }
    }

    /// The compiled expression, if any.
    pub fn regex(&self) -> (r: &Option<CompiledRegex>)
        ensures
            (match *r {
                Some(c) => Some(c@),
                None => None,
            }) == self.active(),
    {
        &self.regex
    }
}

/// Whether the regex crate accepts `pattern` (what the settings page shows next to the
/// filter expression).
pub fn regex_pattern_valid(pattern: &str) -> (r: bool)
    ensures
        r == spec_regex_compiles(pattern@),
{
    compile_regex(pattern).is_some()
}

} // verus!
