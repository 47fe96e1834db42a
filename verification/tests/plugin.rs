use kachina::builder::diff_ignored;
use kachina::failure::META_FAILED;
use kachina::plugin::{cache_expiry, expiry_from_url, parse_github_url, redirect_target, version_from_redirect};

#[test]
fn github_url_full() {
    let g = parse_github_url(
        "https://github.com/owner/repo/releases/download/${version}/app.zip#versionRegex=v(.%2B)&cacheTime=60",
    )
    .unwrap();
    assert_eq!(g.base_url, "https://github.com/owner/repo/releases/download/${version}/app.zip");
    assert_eq!(g.version_regex.as_deref(), Some("v(.+)"));
    assert_eq!(g.releases_latest_url, "https://github.com/owner/repo/releases/latest");
    assert_eq!(g.cache_key, "owner/repo");
    assert!(g.should_cache);
    assert_eq!(g.cache_time, Some(60));
}

#[test]
fn github_url_mirror_host() {
    let g = parse_github_url("https://mirror.example/gh/owner/repo/releases/download/${version}/a.zip").unwrap();
    assert_eq!(g.cache_key, "owner/repo");
    assert!(!g.should_cache);
    assert_eq!(g.cache_time, None);
    assert_eq!(g.version_regex, None);
    // a zero or unreadable cache time is no cache time
    let g = parse_github_url("https://mirror.example/o/r/releases/download/x#cacheTime=0&cacheTime=abc").unwrap();
    assert_eq!(g.cache_time, None);
    assert!(!g.should_cache);
    let g = parse_github_url("https://mirror.example/o/r/releases/download/x#cacheTime=5&cacheTime=abc").unwrap();
    assert_eq!(g.cache_time, Some(5));
}

#[test]
fn github_url_errors() {
    let e = parse_github_url("https://github.com/owner/repo/archive/x.zip").unwrap_err();
    assert_eq!(e.alternate_text(), META_FAILED);
    let e = parse_github_url("https://github.com/releases/download/x").unwrap_err();
    assert_eq!(e.alternate_text(), META_FAILED);
}

#[test]
fn versions_from_redirects() {
    assert_eq!(version_from_redirect("https://github.com/o/r/releases/tag/v1.2.3", None, None).unwrap(), "v1.2.3");
    assert_eq!(version_from_redirect("", Some("https://github.com/o/r/releases/tag/v9?x=1"), None).unwrap(), "v9");
    assert_eq!(version_from_redirect("https://github.com/o/r/releases/tag/v1.2.3", None, Some("tag/v(.+)")).unwrap(), "1.2.3");
    assert!(version_from_redirect("", None, None).is_err());
    assert!(version_from_redirect("https://github.com/o/r/releases", None, None).is_err());
    assert!(version_from_redirect("https://x/tag/v1", None, Some("(")).is_err());
    assert!(version_from_redirect("https://x/tag/v1", None, Some("nomatch(.)")).is_err());
}

#[test]
fn redirects() {
    assert_eq!(redirect_target("https://a.example/f", Some("https://cdn.example/f?sig=1"), ""), Some("https://cdn.example/f?sig=1".to_string()));
    assert_eq!(redirect_target("https://a.example/f", Some(""), "https://b.example/f"), Some("https://b.example/f".to_string()));
    assert_eq!(redirect_target("https://a.example/f", None, "https://a.example/f"), None);
    assert_eq!(redirect_target("https://a.example/f", None, ""), None);
    assert_eq!(redirect_target("https://a.example/f", Some("/g?x=1"), ""), Some("https://a.example/g?x=1".to_string()));
}

#[test]
fn expiries() {
    assert_eq!(expiry_from_url("https://x.example/f?se=2021-01-01T00:00:00Z"), Some(1609459200000));
    assert_eq!(expiry_from_url("https://x.example/f?ske=1970-01-01T00:00:01Z&se=2021-01-01T00:00:00Z"), Some(1000));
    assert_eq!(expiry_from_url("https://x.example/f?ske=bad&se=2021-01-01T00:00:00Z"), Some(1609459200000));
    assert_eq!(expiry_from_url("https://x.example/f?se=1960-01-01T00:00:00Z"), Some(0));
    assert_eq!(expiry_from_url("https://x.example/f"), None);
    assert_eq!(expiry_from_url("not a url"), None);
    assert_eq!(cache_expiry(1000, Some(2), "https://x"), 3000);
    assert_eq!(cache_expiry(1000, None, "https://x.example/f?se=2021-01-01T00:00:00Z"), 1609459200000);
    assert_eq!(cache_expiry(1000, None, "https://x"), 301000);
}

#[test]
fn diff_ignore_rules() {
    let rules = Some(vec!["*.pdb".to_string(), "logs/".to_string()]);
    assert_eq!(diff_ignored(&rules, "bin/app.pdb"), Some(true));
    assert_eq!(diff_ignored(&rules, "logs/a.txt"), Some(true));
    assert_eq!(diff_ignored(&rules, "bin/app.exe"), Some(false));
    assert_eq!(diff_ignored(&None, "bin/app.pdb"), Some(false));
}
