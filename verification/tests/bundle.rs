use kachina::bundle::marker_offsets;
use kachina::bundle::{base_end, embedded_readable, get_embedded, write_header, Embedded};

fn pack(base: &[u8], records: &[(&str, &[u8])]) -> (Vec<u8>, Vec<usize>) {
    let mut file = base.to_vec();
    let mut starts = vec![];
    for (name, content) in records {
        starts.push(file.len());
        file.extend(write_header(name, content.len() as u32));
        file.extend_from_slice(content);
    }
    (file, starts)
}

#[test]
fn header_layout() {
    assert_eq!(write_header("ab", 0x01020304), vec![b'!', b'I', b'N', b'S', 0, 2, b'a', b'b', 1, 2, 3, 4]);
}

#[test]
fn records_read_back() {
    let (file, starts) = pack(b"MZbase", &[(".config.json", b"{}"), (".image", b"png"), ("data", b"xyz")]);
    assert!(embedded_readable(&file, &starts));
    let es = get_embedded(&file, &starts);
    assert_eq!(es.len(), 3);
    assert_eq!(es[0], Embedded { name: ".config.json".into(), offset: 6 + 10 + 12, raw_offset: 6, size: 2 });
    assert_eq!(es[1].name, ".image");
    assert_eq!(es[2].raw_offset, starts[2]);
    assert_eq!(&file[es[2].offset..es[2].offset + es[2].size], b"xyz");
    assert_eq!(base_end(&es), Ok(Some(es[1].offset + es[1].size)));
}

#[test]
fn marker_inside_content_is_skipped() {
    let (file, mut starts) = pack(b"", &[(".config.json", b"xx!INSxx"), ("b", b"1")]);
    // the scanner also reports the marker inside the first record's content
    starts.insert(1, starts[0] + 10 + 12 + 2);
    let es = get_embedded(&file, &starts);
    assert_eq!(es.len(), 2);
    assert_eq!(es[1].name, "b");
}

#[test]
fn base_layout_errors() {
    assert_eq!(base_end(&[]), Ok(None));
    let e = |name: &str| Embedded { name: name.into(), offset: 10, raw_offset: 0, size: 5 };
    assert_eq!(base_end(&[e("x")]), Err("Malformed packed files: missing config".to_string()));
    assert_eq!(base_end(&[e("x"), e(".config.json")]), Err("Malformed packed files: config not at index 0".to_string()));
    assert_eq!(
        base_end(&[e(".config.json"), e("x"), e(".image")]),
        Err("Malformed packed files: image not at index 1".to_string())
    );
    assert_eq!(base_end(&[e(".config.json")]), Ok(Some(15)));
}

#[test]
fn truncated_record_is_not_readable() {
    let (file, starts) = pack(b"", &[("name", b"abc")]);
    assert!(!embedded_readable(&file[..8], &starts));
}

#[test]
fn markers_found_everywhere() {
    let mut file = b"MZ..!INSxx!IN!INS".to_vec();
    assert_eq!(marker_offsets(&file), vec![4, 13]);
    file.extend_from_slice(b"!INS");
    assert_eq!(marker_offsets(&file), vec![4, 13, 17]);
    assert_eq!(marker_offsets(b"!IN"), Vec::<usize>::new());
    assert_eq!(marker_offsets(b""), Vec::<usize>::new());
}
