use kachina::ssh::{
    forwards_header, fragment_pairs, host_key_matches, normalize_hex, parse_ssh_url, parse_u16,
    percent_decode, strip_brackets_exec, SshUrlParts, UrlParts,
};

const FP: &str = "AB:CD:ef:01:23:45:67:89:ab:cd:ef:01:23:45:67:89:ab:cd:ef:01:23:45:67:89:ab:cd:ef:01:23:45:67:89";
const FP_NORM: &str = "abcdef0123456789abcdef0123456789abcdef0123456789abcdef0123456789";

fn url(scheme: &str, host: Option<&str>, port: Option<u16>, path: &str, query: Option<&str>, frag: Option<&str>) -> UrlParts {
    UrlParts {
        scheme: scheme.to_string(),
        host: host.map(|h| h.to_string()),
        port,
        path: path.to_string(),
        query: query.map(|q| q.to_string()),
        fragment: frag.map(|f| f.to_string()),
    }
}

#[test]
fn normalize_hex_strips_separators_and_lowercases() {
    assert_eq!(normalize_hex("AB:cd 0f-Zz"), "abcd0f");
    assert_eq!(normalize_hex(FP), FP_NORM);
    assert_eq!(normalize_hex(""), "");
}

#[test]
fn percent_decode_escapes() {
    assert_eq!(percent_decode("a%20b").unwrap(), "a b");
    assert_eq!(percent_decode("p%40ss%2Fw").unwrap(), "p@ss/w");
    // a `%` that starts no escape stays
    assert_eq!(percent_decode("100%").unwrap(), "100%");
    assert_eq!(percent_decode("%zz").unwrap(), "%zz");
    // `+` and one hex digit is read as a number too
    assert_eq!(percent_decode("%+41").unwrap(), "\u{4}1");
    // the escape needs two characters after `%`
    assert_eq!(percent_decode("%41").unwrap(), "A");
    assert_eq!(percent_decode("%4").unwrap(), "%4");
    let e = percent_decode("%ff%fex").unwrap_err();
    assert!(e.starts_with("URL percent-decoded value is not valid UTF-8: "), "{e}");
}

#[test]
fn fragment_pairs_last_wins_and_skips_bare_words() {
    let m = fragment_pairs("user=a&flag&user=b&pass=x%3Dy").unwrap();
    assert_eq!(m.get("user").map(|s| s.as_str()), Some("b"));
    assert_eq!(m.get("pass").map(|s| s.as_str()), Some("x=y"));
    assert_eq!(m.get("flag"), None);
    assert!(fragment_pairs("a=%ff%fex&b=1").is_err());
}

#[test]
fn parse_u16_like_std() {
    assert_eq!(parse_u16("8080"), Some(8080));
    assert_eq!(parse_u16("+22"), Some(22));
    assert_eq!(parse_u16("65535"), Some(65535));
    assert_eq!(parse_u16("65536"), None);
    assert_eq!(parse_u16(""), None);
    assert_eq!(parse_u16("+"), None);
    assert_eq!(parse_u16("-1"), None);
}

#[test]
fn strip_brackets_only_when_both() {
    assert_eq!(strip_brackets_exec("[::1]"), "::1");
    assert_eq!(strip_brackets_exec("[::1"), "[::1");
    assert_eq!(strip_brackets_exec("[]"), "");
    assert_eq!(strip_brackets_exec("host"), "host");
}

#[test]
fn parse_ssh_url_full() {
    let frag = format!("user=root&pass=p%40ss&fingerprint={FP}&internal_host=10.0.0.5&internal_port=8080");
    let p = parse_ssh_url(&url("ssh+http", Some("[::1]"), Some(2222), "/api/v1", Some("foo=bar"), Some(&frag))).unwrap();
    assert_eq!(p.ssh_user, "root");
    assert_eq!(p.ssh_pass, "p@ss");
    assert_eq!(p.ssh_host, "::1");
    assert_eq!(p.ssh_port, 2222);
    assert_eq!(p.fingerprint, FP_NORM);
    assert_eq!(p.internal_host, "10.0.0.5");
    assert_eq!(p.internal_port, 8080);
    assert_eq!(p.http_path_and_query, "/api/v1?foo=bar");
    assert_eq!(p.http_host_header(), "10.0.0.5:8080");
    assert_eq!(p.ssh_target(), "root@::1:2222");
}

#[test]
fn parse_ssh_url_defaults() {
    let frag = format!("user=u&fingerprint={FP_NORM}&internal_host=");
    let p = parse_ssh_url(&url("ssh+http", Some("h"), None, "/", None, Some(&frag))).unwrap();
    assert_eq!(p.ssh_port, 22);
    assert_eq!(p.ssh_pass, "");
    assert_eq!(p.internal_host, "tunnel");
    assert_eq!(p.internal_port, 80);
    assert_eq!(p.http_path_and_query, "/");
    assert_eq!(p.http_host_header(), "tunnel");
}

#[test]
fn parse_ssh_url_errors() {
    let ok_frag = format!("user=u&fingerprint={FP_NORM}");
    let e = parse_ssh_url(&url("http", Some("h"), None, "/", None, Some(&ok_frag))).unwrap_err();
    assert_eq!(e, "expected scheme 'ssh+http', got 'http'");
    let e = parse_ssh_url(&url("ssh+http", None, None, "/", None, Some(&ok_frag))).unwrap_err();
    assert_eq!(e, "missing SSH host in URL");
    let e = parse_ssh_url(&url("ssh+http", Some("h"), Some(0), "/", None, Some(&ok_frag))).unwrap_err();
    assert_eq!(e, "invalid ssh_port 0 in URL");
    let e = parse_ssh_url(&url("ssh+http", Some("h"), None, "/", None, None)).unwrap_err();
    assert_eq!(e, "missing required 'user' in URL fragment");
    let e = parse_ssh_url(&url("ssh+http", Some("h"), None, "/", None, Some("user=&fingerprint=x"))).unwrap_err();
    assert_eq!(e, "missing required 'user' in URL fragment");
    let e = parse_ssh_url(&url("ssh+http", Some("h"), Some(23), "/", None, Some("user=u"))).unwrap_err();
    assert_eq!(e, "missing required 'fingerprint' in URL fragment for h:23");
    let e = parse_ssh_url(&url("ssh+http", Some("h"), None, "/", None, Some("user=u&fingerprint=ab:cd"))).unwrap_err();
    assert_eq!(e, "fingerprint must be 64 hex chars (SHA-256), got 4 chars from 'ab:cd'");
    let frag = format!("user=u&fingerprint={FP_NORM}&internal_port=http");
    let e = parse_ssh_url(&url("ssh+http", Some("h"), None, "/", None, Some(&frag))).unwrap_err();
    assert_eq!(e, "invalid internal_port 'http' in URL fragment");
    let frag = format!("user=u&fingerprint={FP_NORM}&internal_port=0");
    let e = parse_ssh_url(&url("ssh+http", Some("h"), None, "/", None, Some(&frag))).unwrap_err();
    assert_eq!(e, "invalid internal_port 0 in URL fragment");
}

#[test]
fn host_header_brackets_ipv6() {
    let p = SshUrlParts {
        ssh_user: "u".into(),
        ssh_pass: String::new(),
        ssh_host: "h".into(),
        ssh_port: 22,
        fingerprint: FP_NORM.into(),
        internal_host: "fe80::1".into(),
        internal_port: 80,
        http_path_and_query: "/".into(),
    };
    assert_eq!(p.http_host_header(), "[fe80::1]");
    let p = SshUrlParts { internal_port: 8443, ..p };
    assert_eq!(p.http_host_header(), "[fe80::1]:8443");
}

#[test]
fn header_forwarding() {
    assert!(!forwards_header("host"));
    assert!(!forwards_header("connection"));
    assert!(!forwards_header("transfer-encoding"));
    assert!(!forwards_header("te"));
    assert!(forwards_header("authorization"));
    assert!(forwards_header("content-type"));
}

#[test]
fn host_key_compare() {
    let mut fp = Vec::new();
    for _ in 0..4 {
        fp.extend_from_slice(&[0xab, 0xcd, 0xef, 0x01, 0x23, 0x45, 0x67, 0x89]);
    }
    assert!(host_key_matches(&fp, FP));
    assert!(host_key_matches(&fp, FP_NORM));
    fp[0] = 0;
    assert!(!host_key_matches(&fp, FP));
}
