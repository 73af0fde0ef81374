use vstd::prelude::*;

use vstd::string::StringExecFns;

use crate::text::{chars_eq_ignore_ascii_case, chars_of, eq_ignore_ascii_case, str_equal, trim, trim_bounds};

verus! {

broadcast use vstd::string::group_string_axioms;

/// An ASCII decimal digit.
pub open spec fn is_digit(c: char) -> bool {
    '0' <= c && c <= '9'
}

/// Every character of `d` is a decimal digit.
pub open spec fn all_digits(d: Seq<char>) -> bool {
    forall|k: int| 0 <= k < d.len() ==> is_digit(#[trigger] d[k])
}

/// The number that the decimal digits `d` spell.
pub open spec fn digits_value(d: Seq<char>) -> nat
    decreases d.len(),
{
    if d.len() == 0 {
        0
    } else {
        digits_value(d.drop_last()) * 10 + ((d.last() as u32) - ('0' as u32)) as nat
    }
}

/// What `str::parse::<u64>` gives for `s`: an optional `+` followed by at least one
/// decimal digit, the value fitting in `u64`.
pub open spec fn parse_u64_spec(s: Seq<char>) -> Option<u64> {
    let d = strip_plus(s);
    if d.len() > 0 && all_digits(d) && digits_value(d) <= u64::MAX {
        Some(digits_value(d) as u64)
    } else {
        None
    }
}

/// `s` without one leading `+`.
pub open spec fn strip_plus(s: Seq<char>) -> Seq<char> {
    if s.len() > 0 && s[0] == '+' {
        s.drop_first()
    } else {
        s
    }
}

proof fn lemma_digits_value_monotone(d: Seq<char>, i: int, j: int)
    requires
        0 <= i <= j <= d.len(),
    ensures
        digits_value(d.subrange(0, i)) <= digits_value(d.subrange(0, j)),
    decreases j - i,
{
    if i < j {
        lemma_digits_value_monotone(d, i, j - 1);
        assert(d.subrange(0, j).drop_last() =~= d.subrange(0, j - 1));
    }
}

/// Parses a decimal `u64` the way `str::parse::<u64>` does (see `parse_u64_spec`).
pub fn parse_u64(s: &[char]) -> (r: Option<u64>)
    ensures
        r == parse_u64_spec(s@),
{
    let start: usize = if s.len() > 0 && s[0] == '+' {
        1
    } else {
        0
    };
    let ghost d = strip_plus(s@);
    assert(d =~= s@.subrange(start as int, s@.len() as int));
    if start == s.len() {
        return None;
    }
    let mut value: u64 = 0;
    let mut i: usize = start;
    while i < s.len()
        invariant
            start <= i <= s@.len(),
            start <= 1,
            d == strip_plus(s@),
            d.len() > 0,
            d =~= s@.subrange(start as int, s@.len() as int),
            all_digits(d.subrange(0, i - start)),
            value == digits_value(d.subrange(0, i - start)),
        decreases s.len() - i,
    {
        let c = s[i];
        assert(c == d[i - start]);
        if !('0' <= c && c <= '9') {
            assert(!all_digits(d));
            return None;
        }
        let digit = (c as u32 - '0' as u32) as u64;
        let ghost prefix = d.subrange(0, i + 1 - start);
        assert(prefix.drop_last() =~= d.subrange(0, i - start));
        assert(prefix.last() == c);
        match value.checked_mul(10) {
            Some(m) => match m.checked_add(digit) {
                Some(v) => {
                    value = v;
                },
                None => {
                    proof {
                        lemma_digits_value_monotone(d, i + 1 - start, d.len() as int);
                        assert(d.subrange(0, d.len() as int) =~= d);
                    }
                    return None;
                },
            },
            None => {
                proof {
                    lemma_digits_value_monotone(d, i + 1 - start, d.len() as int);
                    assert(d.subrange(0, d.len() as int) =~= d);
                }
                return None;
            },
        }
        proof {
            assert forall|k: int| 0 <= k < prefix.len() implies is_digit(#[trigger] prefix[k]) by {
                if k < prefix.len() - 1 {
                    assert(prefix[k] == d.subrange(0, i - start)[k]);
                }
            }
        }
        i += 1;
    }
    assert(d.subrange(0, d.len() as int) =~= d);
    Some(value)
}

/// `s` cut at every `sep`, as `str::split(sep)` yields the pieces.
pub open spec fn split_on(s: Seq<char>, sep: char) -> Seq<Seq<char>>
    decreases s.len(),
{
    if s.len() == 0 {
        seq![seq![]]
    } else {
        let p = split_on(s.drop_last(), sep);
        if s.last() == sep {
            p.push(seq![])
        } else {
            p.update(p.len() - 1, p.last().push(s.last()))
        }
    }
}

/// The pieces of `s` between the separators `sep`.
pub fn split_chars(s: &[char], sep: char) -> (r: Vec<Vec<char>>)
    ensures
        r@.map_values(|p: Vec<char>| p@) == split_on(s@, sep),
{
    let mut parts: Vec<Vec<char>> = Vec::new();
    parts.push(Vec::new());
    let mut i: usize = 0;
    assert(parts@.map_values(|p: Vec<char>| p@) =~= split_on(s@.subrange(0, 0), sep));
    while i < s.len()
        invariant
            i <= s@.len(),
            parts@.len() >= 1,
            parts@.map_values(|p: Vec<char>| p@) == split_on(s@.subrange(0, i as int), sep),
        decreases s.len() - i,
    {
        let ghost prefix = s@.subrange(0, i + 1);
        assert(prefix.drop_last() =~= s@.subrange(0, i as int));
        let ghost before = parts@.map_values(|p: Vec<char>| p@);
        let c = s[i];
        if c == sep {
            parts.push(Vec::new());
            assert(parts@.map_values(|p: Vec<char>| p@) =~= before.push(seq![]));
        } else {
            let last = parts.len() - 1;
            let mut piece = parts.pop().unwrap();
            let ghost old_piece = piece@;
            piece.push(c);
            parts.push(piece);
            assert(before.last() == old_piece);
            assert(parts@.map_values(|p: Vec<char>| p@) =~= before.update(
                before.len() - 1,
                before.last().push(c),
            ));
        }
        i += 1;
    }
    assert(s@.subrange(0, s@.len() as int) =~= s@);
    parts
}

/// `s` without one leading `v` or `V`.
pub open spec fn strip_v(s: Seq<char>) -> Seq<char> {
    if s.len() > 0 && (s[0] == 'v' || s[0] == 'V') {
        s.drop_first()
    } else {
        s
    }
}

/// The version a release tag names: `major.minor.patch`, each a `u64` as `str::parse`
/// reads it, after an optional leading `v` or `V`; anything else names no version.
pub open spec fn parse_version_spec(s: Seq<char>) -> Option<Seq<u64>> {
    let parts = split_on(strip_v(s), '.');
    if parts.len() == 3 && parse_u64_spec(parts[0]) is Some && parse_u64_spec(parts[1]) is Some
        && parse_u64_spec(parts[2]) is Some {
        Some(
            seq![
                parse_u64_spec(parts[0])->0,
                parse_u64_spec(parts[1])->0,
                parse_u64_spec(parts[2])->0,
            ],
        )
    } else {
        None
    }
}

/// Reads a release tag such as `v1.2.3` (see `parse_version_spec`).
pub fn parse_version(value: &str) -> (r: Option<[u64; 3]>)
    ensures
        match r {
            Some(v) => parse_version_spec(value@) == Some(v@),
            None => parse_version_spec(value@) is None,
        },
{
    let chars = chars_of(value);
    let body: Vec<char> = if chars.len() > 0 && (chars[0] == 'v' || chars[0] == 'V') {
        slice_from(chars.as_slice(), 1)
    } else {
        slice_from(chars.as_slice(), 0)
    };
    assert(body@ =~= strip_v(value@));
    let parts = split_chars(body.as_slice(), '.');
    let ghost pv = parts@.map_values(|p: Vec<char>| p@);
    if parts.len() != 3 {
        return None;
    }
    assert(pv[0] == parts@[0]@ && pv[1] == parts@[1]@ && pv[2] == parts@[2]@);
    let major = match parse_u64(parts[0].as_slice()) {
        Some(v) => v,
        None => {
            return None;
        },
    };
    let minor = match parse_u64(parts[1].as_slice()) {
        Some(v) => v,
        None => {
            return None;
        },
    };
    let patch = match parse_u64(parts[2].as_slice()) {
        Some(v) => v,
        None => {
            return None;
        },
    };
    let v = [major, minor, patch];
    assert(v@ =~= seq![major, minor, patch]);
    Some(v)
}

fn slice_from(v: &[char], start: usize) -> (r: Vec<char>)
    requires
        start <= v@.len(),
    ensures
        r@ == v@.subrange(start as int, v@.len() as int),
{
    let mut r: Vec<char> = Vec::new();
    let mut i = start;
    while i < v.len()
        invariant
            start <= i <= v@.len(),
            r@ == v@.subrange(start as int, i as int),
        decreases v.len() - i,
    {
        r.push(v[i]);
        assert(r@ =~= v@.subrange(start as int, i + 1));
        i += 1;
    }
    r
}

/// `a` is later than `b` in the lexicographic order of `[u64; 3]`.
pub open spec fn version_newer_spec(a: Seq<u64>, b: Seq<u64>) -> bool {
    a[0] > b[0] || (a[0] == b[0] && (a[1] > b[1] || (a[1] == b[1] && a[2] > b[2])))
}

/// `a > b` on versions, compared component by component.
pub fn version_newer(a: &[u64; 3], b: &[u64; 3]) -> (r: bool)
    ensures
        r == version_newer_spec(a@, b@),
{
    if a[0] != b[0] {
        a[0] > b[0]
    } else if a[1] != b[1] {
        a[1] > b[1]
    } else {
        a[2] > b[2]
    }
}

/// A leading `v` or `V` on a release tag does not change the version it names.
pub proof fn lemma_version_tag_prefix(s: Seq<char>)
    requires
        !(s.len() > 0 && (s[0] == 'v' || s[0] == 'V')),
    ensures
        parse_version_spec(seq!['v'] + s) == parse_version_spec(s),
        parse_version_spec(seq!['V'] + s) == parse_version_spec(s),
{
    assert(strip_v(seq!['v'] + s) =~= s);
    assert(strip_v(seq!['V'] + s) =~= s);
}

/// Comparing versions with `version_newer` is a strict total order: no version is newer
/// than itself, of two versions at most one is newer than the other and exactly one when
/// they differ, and being newer is transitive.
pub proof fn lemma_version_newer_strict_total_order(a: Seq<u64>, b: Seq<u64>, c: Seq<u64>)
    requires
        a.len() == 3,
        b.len() == 3,
        c.len() == 3,
    ensures
        !version_newer_spec(a, a),
        version_newer_spec(a, b) ==> !version_newer_spec(b, a),
        version_newer_spec(a, b) && version_newer_spec(b, c) ==> version_newer_spec(a, c),
        a != b <==> (version_newer_spec(a, b) || version_newer_spec(b, a)),
{
    if !version_newer_spec(a, b) && !version_newer_spec(b, a) {
        assert(a =~= b);
    }
}

pub const ASSET_PREFIX: &'static str = "EchoMusic-Lyrics-WinIsland";

pub const MIRROR_BASE: &'static str = "https://gh-mirror.928233.xyz";

pub const MIRROR_RELEASE_PATH: &'static str = "/github/xiaotian2333/EchoMusic-Lyrics-WinIsland/releases/download/";

pub const GITHUB_DOWNLOAD_BASE: &'static str = "https://github.com/xiaotian2333/EchoMusic-Lyrics-WinIsland/releases/download/";

/// The architecture name that release assets use for a Rust target architecture.
pub open spec fn arch_name_spec(arch: Seq<char>) -> Option<Seq<char>> {
    if arch == "x86_64"@ {
        Some("AMD64"@)
    } else if arch == "aarch64"@ {
        Some("ARM64"@)
    } else if arch == "x86"@ {
        Some("X86"@)
    } else {
        None
    }
}

/// The release asset name of the architecture (`std::env::consts::ARCH` style name).
pub fn arch_name_for(arch: &str) -> (r: Option<&'static str>)
    ensures
        match r {
            Some(n) => arch_name_spec(arch@) == Some(n@),
            None => arch_name_spec(arch@) is None,
        },
{
    if str_equal(arch, "x86_64") {
        Some("AMD64")
    } else if str_equal(arch, "aarch64") {
        Some("ARM64")
    } else if str_equal(arch, "x86") {
        Some("X86")
    } else {
        None
    }
}

/// The name of the executable asset released for an architecture.
pub open spec fn asset_name_spec(arch: Seq<char>) -> Option<Seq<char>> {
    match arch_name_spec(arch) {
        Some(n) => Some(ASSET_PREFIX@ + "-"@ + n + ".exe"@),
        None => None,
    }
}

/// The name of the executable asset released for `arch`, e.g.
/// `EchoMusic-Lyrics-WinIsland-AMD64.exe` for `x86_64`.
pub fn expected_asset_name_for_arch(arch: &str) -> (r: Option<String>)
    ensures
        match r {
            Some(n) => asset_name_spec(arch@) == Some(n@),
            None => asset_name_spec(arch@) is None,
        },
{
    match arch_name_for(arch) {
        Some(n) => {
            let mut s = String::from_str(ASSET_PREFIX);
            s.append("-");
            s.append(n);
            s.append(".exe");
            Some(s)
        },
        None => None,
    }
}

/// The `User-Agent` header the updater sends, for the application version `version`.
pub fn user_agent(version: &str) -> (r: String)
    ensures
        r@ == "EchoMusic-Lyrics-WinIsland/"@ + version@,
{
    let mut s = String::from_str("EchoMusic-Lyrics-WinIsland/");
    s.append(version);
    s
}

/// Why a check for updates failed.
#[derive(Clone, Copy, Debug, PartialEq, Eq, Structural)]
pub enum UpdateCheckError {
    Request,
    UnsupportedArch,
    InvalidLocalVersion,
}

/// What the updater needs before it asks for releases: the asset name for the running
/// architecture and the running version.
pub open spec fn update_target_spec(arch: Seq<char>, app_version: Seq<char>) -> Result<
    (Seq<char>, Seq<u64>),
    UpdateCheckError,
> {
    match asset_name_spec(arch) {
        None => Err(UpdateCheckError::UnsupportedArch),
        Some(n) => match parse_version_spec(app_version) {
            None => Err(UpdateCheckError::InvalidLocalVersion),
            Some(v) => Ok((n, v)),
        },
    }
}

/// The asset name and running version, or why no check can be made.
pub fn update_target(arch: &str, app_version: &str) -> (r: Result<(String, [u64; 3]), UpdateCheckError>)
    ensures
        match r {
            Ok((n, v)) => update_target_spec(arch@, app_version@) == Ok::<(Seq<char>, Seq<u64>), UpdateCheckError>((n@, v@)),
            Err(e) => update_target_spec(arch@, app_version@) == Err::<(Seq<char>, Seq<u64>), UpdateCheckError>(e),
        },
{
    let name = match expected_asset_name_for_arch(arch) {
        Some(n) => n,
        None => {
            return Err(UpdateCheckError::UnsupportedArch);
        },
    };
    match parse_version(app_version) {
        Some(v) => Ok((name, v)),
        None => Err(UpdateCheckError::InvalidLocalVersion),
    }
}

/// A downloadable file of a GitHub release.
#[derive(Clone, Debug)]
pub struct GitHubAsset {
    pub name: String,
    pub browser_download_url: String,
    pub size: Option<u64>,
}

/// A release as the GitHub API lists it.
#[derive(Clone, Debug)]
pub struct GitHubRelease {
    pub tag_name: String,
    pub draft: bool,
    pub prerelease: bool,
    pub published_at: Option<String>,
    pub assets: Vec<GitHubAsset>,
}

/// A file of the latest release as the mirror lists it.
#[derive(Clone, Debug)]
pub struct MirrorAsset {
    pub name: String,
    pub size: Option<String>,
    pub url: Option<String>,
}

/// The mirror's answer about the repository.
#[derive(Clone, Debug)]
pub struct MirrorRepoResponse {
    pub latest_tag: Option<String>,
    pub latest_prerelease_tag: Option<String>,
    pub status: Option<String>,
    pub assets: Vec<MirrorAsset>,
}

/// A newer release to offer.
#[derive(Clone, Debug)]
pub struct UpdateCandidate {
    pub tag_name: String,
    pub published_at: Option<String>,
    pub download_url: String,
    pub asset_size: Option<u64>,
    pub version: [u64; 3],
    pub mirror_download_url: Option<String>,
}

pub struct UpdateCandidateView {
    pub tag_name: Seq<char>,
    pub published_at: Option<Seq<char>>,
    pub download_url: Seq<char>,
    pub asset_size: Option<u64>,
    pub version: Seq<u64>,
    pub mirror_download_url: Option<Seq<char>>,
}

/// The characters of an optional string.
pub open spec fn opt_view(o: Option<String>) -> Option<Seq<char>> {
    match o {
        Some(s) => Some(s@),
        None => None,
    }
}

impl View for UpdateCandidate {
    type V = UpdateCandidateView;

    open spec fn view(&self) -> UpdateCandidateView {
        UpdateCandidateView {
            tag_name: self.tag_name@,
            published_at: opt_view(self.published_at),
            download_url: self.download_url@,
            asset_size: self.asset_size,
            version: self.version@,
            mirror_download_url: opt_view(self.mirror_download_url),
        }
    }
}

/// The view of an optional candidate.
pub open spec fn opt_candidate_view(o: Option<UpdateCandidate>) -> Option<UpdateCandidateView> {
    match o {
        Some(c) => Some(c@),
        None => None,
    }
}

/// The index of the first asset named `name`.
pub open spec fn github_asset_index(assets: Seq<GitHubAsset>, name: Seq<char>) -> Option<int>
    decreases assets.len(),
{
    if assets.len() == 0 {
        None
    } else {
        match github_asset_index(assets.drop_last(), name) {
            Some(k) => Some(k),
            None => if assets.last().name@ == name {
                Some(assets.len() - 1)
            } else {
                None
            },
        }
    }
}

/// What a GitHub release offers: nothing for a draft, a pre-release, a tag that names no
/// version or none newer than `local`, or no non-blank download link for `asset_name`.
pub open spec fn github_candidate(r: GitHubRelease, asset_name: Seq<char>, local: Seq<u64>) -> Option<
    UpdateCandidateView,
> {
    if r.draft || r.prerelease {
        None
    } else {
        match parse_version_spec(r.tag_name@) {
            None => None,
            Some(v) => if !version_newer_spec(v, local) {
                None
            } else {
                match github_asset_index(r.assets@, asset_name) {
                    None => None,
                    Some(k) => if trim(r.assets@[k].browser_download_url@).len() == 0 {
                        None
                    } else {
                        Some(
                            UpdateCandidateView {
                                tag_name: r.tag_name@,
                                published_at: opt_view(r.published_at),
                                download_url: r.assets@[k].browser_download_url@,
                                asset_size: r.assets@[k].size,
                                version: v,
                                mirror_download_url: Some(
                                    MIRROR_BASE@ + MIRROR_RELEASE_PATH@ + r.tag_name@ + "/"@
                                        + asset_name,
                                ),
                            },
                        )
                    },
                }
            },
        }
    }
}

/// The newest release on offer; of equal versions the one listed first.
pub open spec fn best_github_candidate(
    releases: Seq<GitHubRelease>,
    asset_name: Seq<char>,
    local: Seq<u64>,
) -> Option<UpdateCandidateView>
    decreases releases.len(),
{
    if releases.len() == 0 {
        None
    } else {
        let prev = best_github_candidate(releases.drop_last(), asset_name, local);
        match github_candidate(releases.last(), asset_name, local) {
            None => prev,
            Some(c) => match prev {
                None => Some(c),
                Some(p) => if version_newer_spec(c.version, p.version) {
                    Some(c)
                } else {
                    Some(p)
                },
            },
        }
    }
}

fn clone_opt_string(o: &Option<String>) -> (r: Option<String>)
    ensures
        opt_view(r) == opt_view(*o),
{
    match o {
        Some(s) => Some(s.clone()),
        None => None,
    }
}

fn find_github_asset(assets: &[GitHubAsset], name: &str) -> (r: Option<usize>)
    ensures
        match r {
            Some(k) => k < assets@.len() && github_asset_index(assets@, name@) == Some(k as int),
            None => github_asset_index(assets@, name@) is None,
        },
{
    let mut i: usize = 0;
    assert(assets@.subrange(0, 0) =~= Seq::<GitHubAsset>::empty());
    while i < assets.len()
        invariant
            i <= assets@.len(),
            github_asset_index(assets@.subrange(0, i as int), name@) is None,
        decreases assets.len() - i,
    {
        let ghost prefix = assets@.subrange(0, i + 1);
        assert(prefix.drop_last() =~= assets@.subrange(0, i as int));
        if str_equal(assets[i].name.as_str(), name) {
            proof {
                lemma_github_asset_index_prefix(assets@, name@, i + 1);
            }
            return Some(i);
        }
        i += 1;
    }
    assert(assets@.subrange(0, assets@.len() as int) =~= assets@);
    None
}

proof fn lemma_github_asset_index_prefix(s: Seq<GitHubAsset>, name: Seq<char>, n: int)
    requires
        0 <= n <= s.len(),
        github_asset_index(s.subrange(0, n), name) is Some,
    ensures
        github_asset_index(s, name) == github_asset_index(s.subrange(0, n), name),
    decreases s.len() - n,
{
    if n < s.len() {
        assert(s.subrange(0, n + 1).drop_last() =~= s.subrange(0, n));
        lemma_github_asset_index_prefix(s, name, n + 1);
    } else {
        assert(s.subrange(0, n) =~= s);
    }
}

fn github_candidate_exec(r: &GitHubRelease, asset_name: &str, local: &[u64; 3]) -> (c: Option<
    UpdateCandidate,
>)
    ensures
        opt_candidate_view(c) == github_candidate(*r, asset_name@, local@),
{
    if r.draft || r.prerelease {
        return None;
    }
    let version = match parse_version(r.tag_name.as_str()) {
        Some(v) => v,
        None => {
            return None;
        },
    };
    if !version_newer(&version, local) {
        return None;
    }
    let k = match find_github_asset(r.assets.as_slice(), asset_name) {
        Some(k) => k,
        None => {
            return None;
        },
    };
    let asset = &r.assets[k];
    let url = chars_of(asset.browser_download_url.as_str());
    let (a, b) = trim_bounds(url.as_slice());
    if a == b {
        return None;
    }
    let mut mirror = String::from_str(MIRROR_BASE);
    mirror.append(MIRROR_RELEASE_PATH);
    mirror.append(r.tag_name.as_str());
    mirror.append("/");
    mirror.append(asset_name);
    Some(
        UpdateCandidate {
            tag_name: r.tag_name.clone(),
            published_at: clone_opt_string(&r.published_at),
            download_url: asset.browser_download_url.clone(),
            asset_size: asset.size,
            version,
            mirror_download_url: Some(mirror),
        },
    )
}

/// The newest release newer than `local_version` that offers `asset_name` (see
/// `best_github_candidate`).
pub fn select_github_candidate(
    releases: &[GitHubRelease],
    asset_name: &str,
    local_version: &[u64; 3],
) -> (r: Option<UpdateCandidate>)
    ensures
        opt_candidate_view(r) == best_github_candidate(releases@, asset_name@, local_version@),
{
    let mut best: Option<UpdateCandidate> = None;
    let mut i: usize = 0;
    assert(releases@.subrange(0, 0) =~= Seq::<GitHubRelease>::empty());
    while i < releases.len()
        invariant
            i <= releases@.len(),
            opt_candidate_view(best) == best_github_candidate(
                releases@.subrange(0, i as int),
                asset_name@,
                local_version@,
            ),
        decreases releases.len() - i,
    {
        let ghost prefix = releases@.subrange(0, i + 1);
        assert(prefix.drop_last() =~= releases@.subrange(0, i as int));
        assert(prefix.last() == releases@[i as int]);
        match github_candidate_exec(&releases[i], asset_name, local_version) {
            None => {},
            Some(c) => {
                let replace = match &best {
                    None => true,
                    Some(current) => version_newer(&c.version, &current.version),
                };
                if replace {
                    best = Some(c);
                }
            },
        }
        i += 1;
    }
    assert(releases@.subrange(0, releases@.len() as int) =~= releases@);
    best
}

/// The index of the first mirror asset named `name`.
pub open spec fn mirror_asset_index(assets: Seq<MirrorAsset>, name: Seq<char>) -> Option<int>
    decreases assets.len(),
{
    if assets.len() == 0 {
        None
    } else {
        match mirror_asset_index(assets.drop_last(), name) {
            Some(k) => Some(k),
            None => if assets.last().name@ == name {
                Some(assets.len() - 1)
            } else {
                None
            },
        }
    }
}

/// Whether the mirror reported its status as `ok` (in any ASCII case).
pub open spec fn mirror_status_ok(status: Option<String>) -> bool {
    match status {
        Some(s) => eq_ignore_ascii_case(s@, "ok"@),
        None => false,
    }
}

/// What the mirror's answer offers: an error when it is not `ok`, names no valid latest
/// tag, or lacks a link for `asset_name`; nothing when the latest version is not newer
/// than `local`; otherwise that release, downloaded through the mirror first.
pub open spec fn mirror_candidate_spec(
    repo: MirrorRepoResponse,
    asset_name: Seq<char>,
    local: Seq<u64>,
) -> Result<Option<UpdateCandidateView>, UpdateCheckError> {
    if !mirror_status_ok(repo.status) {
        Err(UpdateCheckError::Request)
    } else {
        match repo.latest_tag {
            None => Err(UpdateCheckError::Request),
            Some(tag) => match parse_version_spec(tag@) {
                None => Err(UpdateCheckError::Request),
                Some(v) => if !version_newer_spec(v, local) {
                    Ok(None)
                } else {
                    match mirror_asset_index(repo.assets@, asset_name) {
                        None => Err(UpdateCheckError::Request),
                        Some(k) => match repo.assets@[k].url {
                            None => Err(UpdateCheckError::Request),
                            Some(url) => Ok(
                                Some(
                                    UpdateCandidateView {
                                        tag_name: tag@,
                                        published_at: None,
                                        download_url: GITHUB_DOWNLOAD_BASE@ + tag@ + "/"@
                                            + asset_name,
                                        asset_size: None,
                                        version: v,
                                        mirror_download_url: Some(MIRROR_BASE@ + url@),
                                    },
                                ),
                            ),
                        },
                    }
                },
            },
        }
    }
}

proof fn lemma_mirror_asset_index_prefix(s: Seq<MirrorAsset>, name: Seq<char>, n: int)
    requires
        0 <= n <= s.len(),
        mirror_asset_index(s.subrange(0, n), name) is Some,
    ensures
        mirror_asset_index(s, name) == mirror_asset_index(s.subrange(0, n), name),
    decreases s.len() - n,
{
    if n < s.len() {
        assert(s.subrange(0, n + 1).drop_last() =~= s.subrange(0, n));
        lemma_mirror_asset_index_prefix(s, name, n + 1);
    } else {
        assert(s.subrange(0, n) =~= s);
    }
}

fn find_mirror_asset(assets: &[MirrorAsset], name: &str) -> (r: Option<usize>)
    ensures
        match r {
            Some(k) => k < assets@.len() && mirror_asset_index(assets@, name@) == Some(k as int),
            None => mirror_asset_index(assets@, name@) is None,
        },
{
    let mut i: usize = 0;
    assert(assets@.subrange(0, 0) =~= Seq::<MirrorAsset>::empty());
    while i < assets.len()
        invariant
            i <= assets@.len(),
            mirror_asset_index(assets@.subrange(0, i as int), name@) is None,
        decreases assets.len() - i,
    {
        let ghost prefix = assets@.subrange(0, i + 1);
        assert(prefix.drop_last() =~= assets@.subrange(0, i as int));
        if str_equal(assets[i].name.as_str(), name) {
            proof {
                lemma_mirror_asset_index_prefix(assets@, name@, i + 1);
            }
            return Some(i);
        }
        i += 1;
    }
    assert(assets@.subrange(0, assets@.len() as int) =~= assets@);
    None
}

/// The view of an outcome with an owned candidate.
pub open spec fn mirror_result_view(r: Result<Option<UpdateCandidate>, UpdateCheckError>) -> Result<
    Option<UpdateCandidateView>,
    UpdateCheckError,
> {
    match r {
        Ok(o) => Ok(opt_candidate_view(o)),
        Err(e) => Err(e),
    }
}

/// What the mirror's answer offers (see `mirror_candidate_spec`).
pub fn select_mirror_candidate(
    repo: &MirrorRepoResponse,
    asset_name: &str,
    local_version: &[u64; 3],
) -> (r: Result<Option<UpdateCandidate>, UpdateCheckError>)
    ensures
        mirror_result_view(r) == mirror_candidate_spec(*repo, asset_name@, local_version@),
{
    let ok = chars_of("ok");
    let status_ok = match &repo.status {
        Some(s) => {
            let v = chars_of(s.as_str());
            chars_eq_ignore_ascii_case(v.as_slice(), ok.as_slice())
        },
        None => false,
    };
    if !status_ok {
        return Err(UpdateCheckError::Request);
    }
    let tag = match &repo.latest_tag {
        Some(t) => t,
        None => {
            return Err(UpdateCheckError::Request);
        },
    };
    let version = match parse_version(tag.as_str()) {
        Some(v) => v,
        None => {
            return Err(UpdateCheckError::Request);
        },
    };
    if !version_newer(&version, local_version) {
        return Ok(None);
    }
    let k = match find_mirror_asset(repo.assets.as_slice(), asset_name) {
        Some(k) => k,
        None => {
            return Err(UpdateCheckError::Request);
        },
    };
    let url = match &repo.assets[k].url {
        Some(u) => u,
        None => {
            return Err(UpdateCheckError::Request);
        },
    };
    let mut mirror = String::from_str(MIRROR_BASE);
    mirror.append(url.as_str());
    let mut github = String::from_str(GITHUB_DOWNLOAD_BASE);
    github.append(tag.as_str());
    github.append("/");
    github.append(asset_name);
    Ok(
        Some(
            UpdateCandidate {
                tag_name: tag.clone(),
                published_at: None,
                download_url: github,
                asset_size: None,
                version,
                mirror_download_url: Some(mirror),
            },
        ),
    )
}

/// `s` without all its leading `v`s (`str::trim_start_matches('v')`).
pub open spec fn strip_all_v(s: Seq<char>) -> Seq<char>
    decreases s.len(),
{
    if s.len() > 0 && s[0] == 'v' {
        strip_all_v(s.drop_first())
    } else {
        s
    }
}

/// The links to download a release from, in the order to try them: the mirror's first
/// when there is one, then the release's own; each asks for the tag's version.
pub open spec fn download_urls_spec(c: UpdateCandidateView) -> Seq<Seq<char>> {
    let suffix = "?ver="@ + strip_all_v(c.tag_name);
    match c.mirror_download_url {
        Some(m) => seq![m + suffix, c.download_url + suffix],
        None => seq![c.download_url + suffix],
    }
}

fn strip_all_v_exec(v: &[char]) -> (r: Vec<char>)
    ensures
        r@ == strip_all_v(v@),
{
    let mut i: usize = 0;
    assert(v@.subrange(0, v@.len() as int) =~= v@);
    while i < v.len() && v[i] == 'v'
        invariant
            i <= v@.len(),
            strip_all_v(v@) == strip_all_v(v@.subrange(i as int, v@.len() as int)),
        decreases v.len() - i,
    {
        let ghost tail = v@.subrange(i as int, v@.len() as int);
        assert(tail[0] == v@[i as int]);
        assert(tail.drop_first() =~= v@.subrange(i + 1, v@.len() as int));
        i += 1;
    }
    let r = slice_from(v, i);
    proof {
        let tail = v@.subrange(i as int, v@.len() as int);
        if tail.len() > 0 {
            assert(tail[0] == v@[i as int]);
        }
    }
    r
}

/// The links to download `candidate` from (see `download_urls_spec`).
pub fn download_urls(candidate: &UpdateCandidate) -> (r: Vec<String>)
    ensures
        r@.map_values(|s: String| s@) == download_urls_spec(candidate@),
{
    let tag = chars_of(candidate.tag_name.as_str());
    let ver_chars = strip_all_v_exec(tag.as_slice());
    let ver = crate::text::string_from_chars(ver_chars.as_slice());
    let ghost suffix = "?ver="@ + strip_all_v(candidate.tag_name@);
    let mut urls: Vec<String> = Vec::new();
    match &candidate.mirror_download_url {
        Some(m) => {
            let mut u = m.clone();
            u.append("?ver=");
            u.append(ver.as_str());
            assert(u@ =~= m@ + suffix);
            urls.push(u);
        },
        None => {},
    }
    let ghost before = urls@;
    let mut u = candidate.download_url.clone();
    u.append("?ver=");
    u.append(ver.as_str());
    assert(u@ =~= candidate.download_url@ + suffix);
    urls.push(u);
    proof {
        match &candidate.mirror_download_url {
            Some(m) => {
                assert(urls@.map_values(|s: String| s@) =~= seq![
                    m@ + suffix,
                    candidate.download_url@ + suffix,
                ]);
            },
            None => {
                assert(urls@.map_values(|s: String| s@) =~= seq![candidate.download_url@ + suffix]);
            },
        }
    }
    urls
}

/// Whether a download of `len` bytes has the size the release announced (an unknown or
/// zero size accepts any length).
pub fn download_size_matches(asset_size: Option<u64>, len: usize) -> (r: bool)
    ensures
        r == (match asset_size {
            Some(expected) => !(expected > 0 && len as int != expected as int),
            None => true,
        }),
{
    match asset_size {
        Some(expected) => !(expected > 0 && len as u64 != expected),
        None => true,
    }
}

/// `s` with every `'` doubled, as a PowerShell single-quoted string needs it.
pub open spec fn ps_escape_spec(s: Seq<char>) -> Seq<char>
    decreases s.len(),
{
    if s.len() == 0 {
        seq![]
    } else {
        let r = ps_escape_spec(s.drop_last());
        if s.last() == '\'' {
            r + seq!['\'', '\'']
        } else {
            r.push(s.last())
        }
    }
}

/// `s` with every `'` doubled.
pub fn ps_escape(s: &str) -> (r: String)
    ensures
        r@ == ps_escape_spec(s@),
{
    let v = chars_of(s);
    let mut out: Vec<char> = Vec::new();
    let mut i: usize = 0;
    while i < v.len()
        invariant
            i <= v@.len(),
            out@ == ps_escape_spec(v@.subrange(0, i as int)),
        decreases v.len() - i,
    {
        assert(v@.subrange(0, i + 1).drop_last() =~= v@.subrange(0, i as int));
        let ghost before = out@;
        if v[i] == '\'' {
            out.push('\'');
            out.push('\'');
            assert(out@ =~= before + seq!['\'', '\'']);
        } else {
            out.push(v[i]);
        }
        i += 1;
    }
    assert(v@.subrange(0, v@.len() as int) =~= v@);
    crate::text::string_from_chars(out.as_slice())
}

/// The decimal digits of `n`, most significant first.
pub open spec fn decimal_spec(n: nat) -> Seq<char>
    decreases n,
{
    if n < 10 {
        seq![digit_char(n)]
    } else {
        decimal_spec(n / 10).push(digit_char(n % 10))
    }
}

/// The decimal digit for `d < 10`.
pub open spec fn digit_char(d: nat) -> char {
    if d == 0 {
        '0'
    } else if d == 1 {
        '1'
    } else if d == 2 {
        '2'
    } else if d == 3 {
        '3'
    } else if d == 4 {
        '4'
    } else if d == 5 {
        '5'
    } else if d == 6 {
        '6'
    } else if d == 7 {
        '7'
    } else if d == 8 {
        '8'
    } else {
        '9'
    }
}

fn digit_char_exec(d: u64) -> (c: char)
    requires
        d < 10,
    ensures
        c == digit_char(d as nat),
{
    if d == 0 {
        '0'
    } else if d == 1 {
        '1'
    } else if d == 2 {
        '2'
    } else if d == 3 {
        '3'
    } else if d == 4 {
        '4'
    } else if d == 5 {
        '5'
    } else if d == 6 {
        '6'
    } else if d == 7 {
        '7'
    } else if d == 8 {
        '8'
    } else {
        '9'
    }
}

/// `n` written in decimal.
pub fn decimal_string(n: u64) -> (r: String)
    ensures
        r@ == decimal_spec(n as nat),
{
    let mut digits: Vec<char> = Vec::new();
    let mut m: u64 = n;
    assert(decimal_spec(n as nat) =~= decimal_spec(m as nat) + digits@);
    loop
        invariant_except_break
            decimal_spec(n as nat) == decimal_spec(m as nat) + digits@,
        ensures
            decimal_spec(n as nat) == digits@,
        decreases m,
    {
        let c = digit_char_exec(m % 10);
        if m < 10 {
            let ghost old_digits = digits@;
            digits.insert(0, c);
            assert(digits@ =~= seq![c] + old_digits);
            break;
        }
        let ghost old_digits = digits@;
        digits.insert(0, c);
        assert(decimal_spec(m as nat) == decimal_spec((m / 10) as nat).push(c));
        assert(decimal_spec((m / 10) as nat).push(c) + old_digits =~= decimal_spec(
            (m / 10) as nat,
        ) + digits@);
        m = m / 10;
    }
    crate::text::string_from_chars(digits.as_slice())
}

/// The PowerShell command that waits for the process `pid` to end, moves the downloaded
/// executable over the running one and starts it.
pub open spec fn update_script_spec(pid: u32, new_exe: Seq<char>, current_exe: Seq<char>) -> Seq<
    char,
> {
    "Start-Sleep -Seconds 1; while (Get-Process -Id "@ + decimal_spec(pid as nat)
        + " -ErrorAction SilentlyContinue) { Start-Sleep -Milliseconds 100 }; Move-Item -Path '"@
        + ps_escape_spec(new_exe) + "' -Destination '"@ + ps_escape_spec(current_exe)
        + "' -Force; Start-Process -FilePath '"@ + ps_escape_spec(current_exe) + "'"@
}

/// The command that replaces the running executable once it has exited.
pub fn update_script(pid: u32, new_exe: &str, current_exe: &str) -> (r: String)
    ensures
        r@ == update_script_spec(pid, new_exe@, current_exe@),
{
    let pid_s = decimal_string(pid as u64);
    let new_e = ps_escape(new_exe);
    let cur_e = ps_escape(current_exe);
    let mut s = String::from_str("Start-Sleep -Seconds 1; while (Get-Process -Id ");
    s.append(pid_s.as_str());
    s.append(" -ErrorAction SilentlyContinue) { Start-Sleep -Milliseconds 100 }; Move-Item -Path '");
    s.append(new_e.as_str());
    s.append("' -Destination '");
    s.append(cur_e.as_str());
    s.append("' -Force; Start-Process -FilePath '");
    s.append(cur_e.as_str());
    s.append("'");
    s
}

proof fn lemma_digit_char(d: nat)
    requires
        d < 10,
    ensures
        is_digit(digit_char(d)),
        (digit_char(d) as u32) - ('0' as u32) == d,
{
}

proof fn lemma_decimal_digits(n: nat)
    ensures
        decimal_spec(n).len() > 0,
        all_digits(decimal_spec(n)),
        digits_value(decimal_spec(n)) == n,
    decreases n,
{
    if n < 10 {
        lemma_digit_char(n);
        assert(decimal_spec(n).drop_last() =~= Seq::<char>::empty());
        assert(digits_value(Seq::<char>::empty()) == 0);
        assert(decimal_spec(n).last() == digit_char(n));
    } else {
        lemma_decimal_digits(n / 10);
        lemma_digit_char(n % 10);
        let d = decimal_spec(n);
        assert(d.drop_last() =~= decimal_spec(n / 10));
        assert(d.last() == digit_char(n % 10));
        assert(digits_value(d) == digits_value(decimal_spec(n / 10)) * 10 + ((digit_char(n % 10) as u32) - ('0' as u32)) as nat);
        assert(n == (n / 10) * 10 + n % 10);
        assert forall|k: int| 0 <= k < d.len() implies is_digit(#[trigger] d[k]) by {
            if k < d.len() - 1 {
                assert(d[k] == decimal_spec(n / 10)[k]);
            }
        }
    }
}

/// `str::parse::<u64>` reads the decimal rendering of a number back as that number.
pub proof fn lemma_decimal_parses(n: u64)
    ensures
        parse_u64_spec(decimal_spec(n as nat)) == Some(n),
{
    lemma_decimal_digits(n as nat);
    assert(is_digit(decimal_spec(n as nat)[0]));
    assert(strip_plus(decimal_spec(n as nat)) == decimal_spec(n as nat));
}

proof fn lemma_split_on_nonempty(s: Seq<char>, sep: char)
    ensures
        split_on(s, sep).len() >= 1,
    decreases s.len(),
{
    if s.len() > 0 {
        lemma_split_on_nonempty(s.drop_last(), sep);
    }
}

/// Cutting `s + t` where `t` holds no separator: the pieces of `s`, the last one extended
/// by `t`.
proof fn lemma_split_on_append(s: Seq<char>, t: Seq<char>, sep: char)
    requires
        forall|k: int| 0 <= k < t.len() ==> t[k] != sep,
    ensures
        split_on(s + t, sep) == split_on(s, sep).update(
            split_on(s, sep).len() - 1,
            split_on(s, sep).last() + t,
        ),
    decreases t.len(),
{
    lemma_split_on_nonempty(s, sep);
    let p = split_on(s, sep);
    if t.len() == 0 {
        assert(s + t =~= s);
        assert(p.last() + t =~= p.last());
        assert(p.update(p.len() - 1, p.last()) =~= p);
    } else {
        let u = t.drop_last();
        assert forall|k: int| 0 <= k < u.len() implies u[k] != sep by {
            assert(u[k] == t[k]);
        }
        lemma_split_on_append(s, u, sep);
        assert((s + t).drop_last() =~= s + u);
        assert((s + t).last() == t.last());
        let q = split_on(s + u, sep);
        assert(q.last() == p.last() + u);
        assert(q.update(q.len() - 1, q.last().push(t.last())) =~= p.update(
            p.len() - 1,
            p.last() + t,
        )) by {
            assert(p.last() + u + seq![t.last()] =~= p.last() + t);
            assert(q.last().push(t.last()) =~= p.last() + t);
        }
    }
}

/// Digits hold no `.`.
proof fn lemma_digits_no_dot(d: Seq<char>)
    requires
        all_digits(d),
    ensures
        forall|k: int| 0 <= k < d.len() ==> d[k] != '.',
{
    assert forall|k: int| 0 <= k < d.len() implies d[k] != '.' by {
        assert(is_digit(d[k]));
    }
}

/// A release tag rendered from three numbers, as `{prefix}{major}.{minor}.{patch}` with an
/// empty, `v` or `V` prefix, names exactly those numbers; so two such tags compare as
/// their numbers do, component by component.
pub proof fn lemma_rendered_version_parses(prefix: Seq<char>, major: u64, minor: u64, patch: u64)
    requires
        prefix == Seq::<char>::empty() || prefix == seq!['v'] || prefix == seq!['V'],
    ensures
        parse_version_spec(
            prefix + decimal_spec(major as nat) + seq!['.'] + decimal_spec(minor as nat) + seq!['.']
                + decimal_spec(patch as nat),
        ) == Some(seq![major, minor, patch]),
{
    let a = decimal_spec(major as nat);
    let b = decimal_spec(minor as nat);
    let c = decimal_spec(patch as nat);
    lemma_decimal_digits(major as nat);
    lemma_decimal_digits(minor as nat);
    lemma_decimal_digits(patch as nat);
    lemma_decimal_parses(major);
    lemma_decimal_parses(minor);
    lemma_decimal_parses(patch);
    lemma_digits_no_dot(a);
    lemma_digits_no_dot(b);
    lemma_digits_no_dot(c);
    let body = a + seq!['.'] + b + seq!['.'] + c;
    let tag = prefix + a + seq!['.'] + b + seq!['.'] + c;
    assert(tag =~= prefix + body);
    assert(is_digit(a[0]));
    assert(body[0] == a[0]);
    assert(strip_v(tag) =~= body);
    let e = Seq::<char>::empty();
    lemma_split_on_append(e, a, '.');
    assert(e + a =~= a);
    assert(split_on(e, '.') =~= seq![e]);
    assert(split_on(a, '.') =~= seq![a]);
    let a1 = a.push('.');
    assert(split_on(a1, '.') =~= seq![a, e]) by {
        assert(a1.drop_last() =~= a);
    }
    lemma_split_on_append(a1, b, '.');
    assert(a1 + b =~= a + seq!['.'] + b);
    assert(split_on(a1 + b, '.') =~= seq![a, b]) by {
        assert(e + b =~= b);
    }
    let ab1 = (a1 + b).push('.');
    assert(split_on(ab1, '.') =~= seq![a, b, e]) by {
        assert(ab1.drop_last() =~= a1 + b);
    }
    lemma_split_on_append(ab1, c, '.');
    assert(ab1 + c =~= body);
    assert(split_on(body, '.') =~= seq![a, b, c]) by {
        assert(e + c =~= c);
    }
}

/// Tags rendered from numbers compare as their numbers do, most significant first.
pub proof fn lemma_rendered_versions_order(
    x_prefix: Seq<char>,
    x: (u64, u64, u64),
    y_prefix: Seq<char>,
    y: (u64, u64, u64),
)
    requires
        x_prefix == Seq::<char>::empty() || x_prefix == seq!['v'] || x_prefix == seq!['V'],
        y_prefix == Seq::<char>::empty() || y_prefix == seq!['v'] || y_prefix == seq!['V'],
    ensures
        version_newer_spec(
            parse_version_spec(
                x_prefix + decimal_spec(x.0 as nat) + seq!['.'] + decimal_spec(x.1 as nat) + seq!['.']
                    + decimal_spec(x.2 as nat),
            )->0,
            parse_version_spec(
                y_prefix + decimal_spec(y.0 as nat) + seq!['.'] + decimal_spec(y.1 as nat) + seq!['.']
                    + decimal_spec(y.2 as nat),
            )->0,
        ) <==> (x.0 > y.0 || (x.0 == y.0 && (x.1 > y.1 || (x.1 == y.1 && x.2 > y.2)))),
{
    lemma_rendered_version_parses(x_prefix, x.0, x.1, x.2);
    lemma_rendered_version_parses(y_prefix, y.0, y.1, y.2);
}


/// The asset found for a name is the first asset of that name; none is found only when no
/// asset has that name.
pub proof fn lemma_github_asset_index_first(assets: Seq<GitHubAsset>, name: Seq<char>)
    ensures
        match github_asset_index(assets, name) {
            Some(j) => 0 <= j < assets.len() && assets[j].name@ == name && forall|k: int|
                0 <= k < j ==> (#[trigger] assets[k]).name@ != name,
            None => forall|k: int| 0 <= k < assets.len() ==> (#[trigger] assets[k]).name@ != name,
        },
    decreases assets.len(),
{
    if assets.len() > 0 {
        let d = assets.drop_last();
        lemma_github_asset_index_first(d, name);
        assert forall|k: int| 0 <= k < d.len() implies #[trigger] d[k] == assets[k] by {}
        match github_asset_index(d, name) {
            Some(j) => {
                assert(assets[j] == d[j]);
                assert forall|k: int| 0 <= k < j implies (#[trigger] assets[k]).name@ != name by {
                    assert(assets[k] == d[k]);
                }
            },
            None => {
                assert(assets.last() == assets[assets.len() - 1]);
                assert forall|k: int| 0 <= k < assets.len() - 1 implies (
                #[trigger] assets[k]).name@ != name by {
                    assert(assets[k] == d[k]);
                }
            },
        }
    }
}

} // verus!
