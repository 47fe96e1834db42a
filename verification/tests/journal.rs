use kachina::commit::listing_is_clean;
use kachina::journal::{journal_matches_target, FileEntry, Journal, Unit};
use kachina::lookup::{TextMap, TextSet};

#[test]
fn journal_roundtrip_and_version_gate() {
    let j = Journal {
        hash_algorithm: "xxh".into(),
        archive: Some("abc".into()),
        units: vec![
            Unit::Dir {
                rel: "lib".into(),
                files: vec![FileEntry { rel: "lib/x y.dll".into(), old: None, new: "n1".into() }],
            },
            Unit::File(FileEntry { rel: "app.exe".into(), old: Some("o".into()), new: "n".into() }),
            Unit::Del { rel: "gone.txt".into(), old: Some("g".into()) },
            Unit::Copy(FileEntry { rel: "link/f".into(), old: None, new: "c".into() }),
        ],
    };
    let text = j.to_text();
    assert!(text.starts_with("kachina-journal 1\nhash\txxh\narchive\tabc\n"));
    assert_eq!(Journal::parse(&text), Some(j.clone()));
    assert!(Journal::parse("kachina-journal 0\nhash\tmd5\n").is_none());
    assert!(Journal::parse("").is_none());
    assert!(Journal::parse("kachina-journal 1\nbogus\tline\n").is_none());
}

#[test]
fn journal_text_is_line_per_record() {
    let j = Journal {
        hash_algorithm: "md5".into(),
        archive: None,
        units: vec![
            Unit::Dir {
                rel: String::new(),
                files: vec![FileEntry { rel: "a".into(), old: Some("1".into()), new: "2".into() }],
            },
            Unit::Del { rel: "d".into(), old: None },
        ],
    };
    assert_eq!(j.to_text(), "kachina-journal 1\nhash\tmd5\ndir\t\nfile\ta\t1\t2\ndel\td\t-\n");
    assert_eq!(Journal::parse(&j.to_text()), Some(j));
}

#[test]
fn journal_parse_tolerates_crlf_and_blank_lines() {
    let text = "kachina-journal 1  \r\nhash\tmd5\r\n\r\nfile\ta\t-\tn\r\n";
    let j = Journal::parse(text).unwrap();
    assert_eq!(j.hash_algorithm, "md5");
    assert_eq!(
        j.units,
        vec![Unit::File(FileEntry { rel: "a".into(), old: None, new: "n".into() })]
    );
}

#[test]
fn journal_without_hash_line_is_refused() {
    assert!(Journal::parse("kachina-journal 1\nfile\ta\t-\tn\n").is_none());
    assert!(Journal::parse("kachina-journal 1\nfile\ta\t-\n").is_none());
}

#[test]
fn file_line_after_dir_joins_it_only_when_inside() {
    let text = "kachina-journal 1\nhash\tmd5\ndir\tlib\nfile\tlib/a\t-\t1\nfile\tother\t-\t2\nfile\tlib/b\t-\t3\n";
    let j = Journal::parse(text).unwrap();
    assert_eq!(j.units.len(), 3);
    match &j.units[0] {
        Unit::Dir { rel, files } => {
            assert_eq!(rel, "lib");
            assert_eq!(files.len(), 1);
        }
        other => panic!("{other:?}"),
    }
    assert_eq!(j.units[1].rel(), "other");
    assert_eq!(j.units[2].rel(), "lib/b");
}

#[test]
fn journal_target_check() {
    let j = Journal {
        hash_algorithm: "md5".into(),
        archive: None,
        units: vec![
            Unit::File(FileEntry { rel: "A.txt".into(), old: None, new: "1".into() }),
            Unit::Del { rel: "gone".into(), old: None },
        ],
    };
    let none = TextSet::new();
    let mut wanted = TextMap::new();
    wanted.insert("a.txt".to_string(), "1".to_string());
    let mut deletes = TextSet::new();
    deletes.insert("gone".to_string());
    assert!(journal_matches_target(&j, "md5", &wanted, &deletes, None, &none));
    assert!(!journal_matches_target(&j, "xxh", &wanted, &deletes, None, &none));
    wanted.insert("a.txt".to_string(), "2".to_string());
    assert!(!journal_matches_target(&j, "md5", &wanted, &deletes, None, &none));
    let mut selfs = TextSet::new();
    selfs.insert("a.txt".to_string());
    assert!(journal_matches_target(&j, "md5", &wanted, &deletes, None, &selfs));
    wanted.insert("a.txt".to_string(), "1".to_string());
    let deletes = TextSet::new();
    assert!(!journal_matches_target(&j, "md5", &wanted, &deletes, None, &none));

    let m = Journal { hash_algorithm: "md5".into(), archive: Some("zip1".into()), units: vec![] };
    assert!(journal_matches_target(&m, "md5", &TextMap::new(), &TextSet::new(), Some("zip1"), &none));
    assert!(!journal_matches_target(&m, "md5", &TextMap::new(), &TextSet::new(), Some("zip2"), &none));
}

#[test]
fn dir_listing_clean_up_to_case() {
    let files = vec![
        FileEntry { rel: "lib/A.dll".into(), old: None, new: "h1".into() },
        FileEntry { rel: "lib/b.dll".into(), old: None, new: "h2".into() },
    ];
    assert!(listing_is_clean(&Some(vec!["lib/a.DLL".into()]), &files));
    assert!(listing_is_clean(&Some(vec![]), &files));
    assert!(!listing_is_clean(&Some(vec!["lib/a.dll".into(), "lib/user.txt".into()]), &files));
    assert!(!listing_is_clean(&None, &files));
}
