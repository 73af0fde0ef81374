use echomusic_lyrics_winisland::updater::{
    decimal_string, download_size_matches, download_urls, expected_asset_name_for_arch,
    parse_version, ps_escape, select_github_candidate, select_mirror_candidate, update_script,
    update_target, user_agent, version_newer, GitHubAsset, GitHubRelease, MirrorAsset,
    MirrorRepoResponse, UpdateCandidate, UpdateCheckError,
};

#[test]
fn parse_version_accepts_plain_and_v_tags() {
    assert_eq!(parse_version("1.2.3"), Some([1, 2, 3]));
    assert_eq!(parse_version("v1.2.3"), Some([1, 2, 3]));
    assert_eq!(parse_version("V1.2.3"), Some([1, 2, 3]));
}

#[test]
fn parse_version_rejects_non_release_tags() {
    assert_eq!(parse_version("nightly"), None);
    assert_eq!(parse_version("v1.2.3-beta"), None);
    assert_eq!(parse_version("v1.2"), None);
}

#[test]
fn version_tuple_orders_numerically() {
    assert!(parse_version("v1.2.10") > parse_version("1.2.9"));
    assert!(parse_version("v2.0.0") > parse_version("1.99.99"));
    assert_eq!(parse_version("v1.0.0"), parse_version("1.0.0"));
}

#[test]
fn asset_name_uses_release_arch_names() {
    assert_eq!(
        expected_asset_name_for_arch("x86_64").as_deref(),
        Some("EchoMusic-Lyrics-WinIsland-AMD64.exe")
    );
    assert_eq!(
        expected_asset_name_for_arch("aarch64").as_deref(),
        Some("EchoMusic-Lyrics-WinIsland-ARM64.exe")
    );
    assert_eq!(
        expected_asset_name_for_arch("x86").as_deref(),
        Some("EchoMusic-Lyrics-WinIsland-X86.exe")
    );
}

#[test]
fn parse_version_edge_cases() {
    assert_eq!(parse_version("vv1.2.3"), None);
    assert_eq!(parse_version("1.2.3.4"), None);
    assert_eq!(parse_version("+1.2.3"), Some([1, 2, 3]));
    assert_eq!(parse_version("1..3"), None);
    assert_eq!(parse_version("18446744073709551615.0.0"), Some([u64::MAX, 0, 0]));
    assert_eq!(parse_version("18446744073709551616.0.0"), None);
    assert_eq!(parse_version(" 1.2.3"), None);
    assert_eq!(parse_version("v"), None);
}

#[test]
fn version_newer_is_a_strict_order() {
    let a = [1, 2, 10];
    let b = [1, 2, 9];
    let c = [1, 1, 99];
    assert!(version_newer(&a, &b));
    assert!(!version_newer(&b, &a));
    assert!(!version_newer(&a, &a));
    assert!(version_newer(&b, &c) && version_newer(&a, &c));
    assert!(version_newer(&[2, 0, 0], &[1, 99, 99]));
}

#[test]
fn asset_name_for_unknown_arch_is_none() {
    assert_eq!(expected_asset_name_for_arch("riscv64"), None);
    assert!(matches!(update_target("riscv64", "1.0.0"), Err(UpdateCheckError::UnsupportedArch)));
    assert!(matches!(
        update_target("x86_64", "dev"),
        Err(UpdateCheckError::InvalidLocalVersion)
    ));
    let (name, version) = update_target("x86_64", "0.4.1").ok().unwrap();
    assert_eq!(name, "EchoMusic-Lyrics-WinIsland-AMD64.exe");
    assert_eq!(version, [0, 4, 1]);
}

#[test]
fn user_agent_names_the_version() {
    assert_eq!(user_agent("0.4.1"), "EchoMusic-Lyrics-WinIsland/0.4.1");
}

fn asset(name: &str, url: &str, size: Option<u64>) -> GitHubAsset {
    GitHubAsset { name: name.to_string(), browser_download_url: url.to_string(), size }
}

fn release(tag: &str, draft: bool, prerelease: bool, assets: Vec<GitHubAsset>) -> GitHubRelease {
    GitHubRelease {
        tag_name: tag.to_string(),
        draft,
        prerelease,
        published_at: Some(format!("date of {tag}")),
        assets,
    }
}

const NAME: &str = "EchoMusic-Lyrics-WinIsland-AMD64.exe";

#[test]
fn github_picks_the_newest_usable_release() {
    let releases = vec![
        release("v1.1.0", false, false, vec![asset(NAME, "https://x/1.1.0", Some(10))]),
        release("v9.0.0", true, false, vec![asset(NAME, "https://x/draft", None)]),
        release("v8.0.0", false, true, vec![asset(NAME, "https://x/pre", None)]),
        release("v7.0.0", false, false, vec![asset("other.exe", "https://x/other", None)]),
        release("v6.0.0", false, false, vec![asset(NAME, "   ", None)]),
        release("v1.3.0", false, false, vec![asset(NAME, "https://x/1.3.0", Some(30))]),
        release("1.3.0", false, false, vec![asset(NAME, "https://x/second", None)]),
        release("v0.9.0", false, false, vec![asset(NAME, "https://x/old", None)]),
    ];
    let c = select_github_candidate(&releases, NAME, &[1, 0, 0]).unwrap();
    assert_eq!(c.tag_name, "v1.3.0");
    assert_eq!(c.download_url, "https://x/1.3.0");
    assert_eq!(c.asset_size, Some(30));
    assert_eq!(c.version, [1, 3, 0]);
    assert_eq!(c.published_at.as_deref(), Some("date of v1.3.0"));
    assert_eq!(
        c.mirror_download_url.as_deref(),
        Some(
            "https://gh-mirror.928233.xyz/github/xiaotian2333/EchoMusic-Lyrics-WinIsland/releases/download/v1.3.0/EchoMusic-Lyrics-WinIsland-AMD64.exe"
        )
    );
    assert!(select_github_candidate(&releases, NAME, &[1, 3, 0]).is_none());
}

fn mirror(status: Option<&str>, tag: Option<&str>, assets: Vec<MirrorAsset>) -> MirrorRepoResponse {
    MirrorRepoResponse {
        latest_tag: tag.map(str::to_string),
        latest_prerelease_tag: None,
        status: status.map(str::to_string),
        assets,
    }
}

fn masset(name: &str, url: Option<&str>) -> MirrorAsset {
    MirrorAsset { name: name.to_string(), size: None, url: url.map(str::to_string) }
}

#[test]
fn mirror_answers_decide_the_candidate() {
    let good = mirror(Some("OK"), Some("v2.0.0"), vec![masset(NAME, Some("/dl/2.0.0"))]);
    let c = select_mirror_candidate(&good, NAME, &[1, 0, 0]).ok().unwrap().unwrap();
    assert_eq!(c.tag_name, "v2.0.0");
    assert_eq!(c.version, [2, 0, 0]);
    assert_eq!(c.asset_size, None);
    assert_eq!(c.published_at, None);
    assert_eq!(c.mirror_download_url.as_deref(), Some("https://gh-mirror.928233.xyz/dl/2.0.0"));
    assert_eq!(
        c.download_url,
        "https://github.com/xiaotian2333/EchoMusic-Lyrics-WinIsland/releases/download/v2.0.0/EchoMusic-Lyrics-WinIsland-AMD64.exe"
    );
    assert!(matches!(select_mirror_candidate(&good, NAME, &[2, 0, 0]), Ok(None)));
    let bad_status = mirror(Some("error"), Some("v2.0.0"), vec![]);
    assert!(matches!(
        select_mirror_candidate(&bad_status, NAME, &[1, 0, 0]),
        Err(UpdateCheckError::Request)
    ));
    let bad_tag = mirror(Some("ok"), Some("nightly"), vec![]);
    assert!(matches!(
        select_mirror_candidate(&bad_tag, NAME, &[1, 0, 0]),
        Err(UpdateCheckError::Request)
    ));
    let no_asset = mirror(Some("ok"), Some("v2.0.0"), vec![masset("x.exe", Some("/x"))]);
    assert!(matches!(
        select_mirror_candidate(&no_asset, NAME, &[1, 0, 0]),
        Err(UpdateCheckError::Request)
    ));
    let no_url = mirror(Some("ok"), Some("v2.0.0"), vec![masset(NAME, None)]);
    assert!(matches!(
        select_mirror_candidate(&no_url, NAME, &[1, 0, 0]),
        Err(UpdateCheckError::Request)
    ));
}

#[test]
fn download_urls_try_the_mirror_first() {
    let c = UpdateCandidate {
        tag_name: "vv1.2.3".to_string(),
        published_at: None,
        download_url: "https://a/b".to_string(),
        asset_size: None,
        version: [1, 2, 3],
        mirror_download_url: Some("https://m/b".to_string()),
    };
    assert_eq!(download_urls(&c), vec!["https://m/b?ver=1.2.3", "https://a/b?ver=1.2.3"]);
    let d = UpdateCandidate { mirror_download_url: None, ..c };
    assert_eq!(download_urls(&d), vec!["https://a/b?ver=1.2.3"]);
}

#[test]
fn download_size_is_checked_only_when_known() {
    assert!(download_size_matches(None, 5));
    assert!(download_size_matches(Some(0), 5));
    assert!(download_size_matches(Some(5), 5));
    assert!(!download_size_matches(Some(6), 5));
}

#[test]
fn update_script_escapes_quotes() {
    assert_eq!(ps_escape("it's"), "it''s");
    assert_eq!(decimal_string(0), "0");
    assert_eq!(decimal_string(1234567), "1234567");
    assert_eq!(
        update_script(42, "C:\\a'b.exe.new", "C:\\a'b.exe"),
        "Start-Sleep -Seconds 1; while (Get-Process -Id 42 -ErrorAction SilentlyContinue) { Start-Sleep -Milliseconds 100 }; Move-Item -Path 'C:\\a''b.exe.new' -Destination 'C:\\a''b.exe' -Force; Start-Process -FilePath 'C:\\a''b.exe'"
    );
}

#[test]
fn rendered_tags_parse_back_and_order() {
    let cases: [(u64, u64, u64); 4] = [(0, 0, 0), (1, 2, 10), (10, 0, 99), (u64::MAX, 7, 1234567890)];
    for (a, b, c) in cases {
        for prefix in ["", "v", "V"] {
            assert_eq!(parse_version(&format!("{prefix}{a}.{b}.{c}")), Some([a, b, c]));
        }
    }
    let x = parse_version("v1.10.0").unwrap();
    let y = parse_version("1.9.99").unwrap();
    assert!(version_newer(&x, &y) && !version_newer(&y, &x));
}
