//! The packed installer's embedded files. Each record is the marker
//! `!INS`, the name's length (2 bytes, big endian), the name, the content's
//! length (4 bytes, big endian) and the content, appended after the
//! installer's own image.

use vstd::prelude::*;
use vstd::utf8::encode_utf8;
use vstd::string::StringExecFns;

verus! {

/// A file packed into the installer.
#[derive(Clone, Debug, PartialEq, Eq)]
pub struct Embedded {
    pub name: String,
    /// Where the content starts.
    pub offset: usize,
    /// Where the record (its marker) starts.
    pub raw_offset: usize,
    pub size: usize,
}

/// The text of `bytes` with invalid UTF-8 replaced, as
/// `String::from_utf8_lossy` gives it.
pub uninterp spec fn utf8_lossy(bytes: Seq<u8>) -> Seq<char>;

/// `String::from_utf8_lossy`: the text of `bytes`, invalid sequences
/// replaced by U+FFFD. Named `utf8_lossy` of the bytes, not restated.
#[verifier::external_body]
fn lossy_text(bytes: &[u8]) -> (r: String)
    ensures
        r@ == utf8_lossy(bytes@),
{
    String::from_utf8_lossy(bytes).to_string()
}

/// The record marker, `!INS`.
pub open spec fn marker() -> Seq<u8> {
    seq![0x21u8, 0x49u8, 0x4eu8, 0x53u8]
}

pub open spec fn be16(b: Seq<u8>, p: int) -> int {
    (b[p] as int) * 256 + (b[p + 1] as int)
}

pub open spec fn be32(b: Seq<u8>, p: int) -> int {
    (b[p] as int) * 16777216 + (b[p + 1] as int) * 65536 + (b[p + 2] as int) * 256 + (b[p + 3] as int)
}

/// Where the content of the record at `o` starts.
pub open spec fn content_pos(file: Seq<u8>, o: int) -> int {
    o + 6 + be16(file, o + 4) + 4
}

pub open spec fn content_size(file: Seq<u8>, o: int) -> int {
    be32(file, o + 6 + be16(file, o + 4))
}

pub open spec fn record_end(file: Seq<u8>, o: int) -> int {
    content_pos(file, o) + content_size(file, o)
}

/// The record's header lies inside the file, and its end fits a `usize`.
pub open spec fn record_ok(file: Seq<u8>, o: int) -> bool {
    &&& 0 <= o
    &&& o + 6 <= file.len()
    &&& content_pos(file, o) <= file.len()
    &&& record_end(file, o) <= usize::MAX
}

pub open spec fn record_name(file: Seq<u8>, o: int) -> Seq<char> {
    utf8_lossy(file.subrange(o + 6, o + 6 + be16(file, o + 4)))
}

/// An embedded file as plain values: name, content offset, record offset,
/// size.
pub open spec fn entry_view(e: Embedded) -> (Seq<char>, int, int, int) {
    (e.name@, e.offset as int, e.raw_offset as int, e.size as int)
}

pub open spec fn entries_view(es: Seq<Embedded>) -> Seq<(Seq<char>, int, int, int)> {
    es.map_values(|e: Embedded| entry_view(e))
}

/// Reading the records at the marker offsets found, in order: an offset
/// inside the previous record (its marker found in its content) is
/// skipped. The result: the entries, where the last record ends, and
/// whether every record read lies inside the file.
pub open spec fn scan(file: Seq<u8>, offsets: Seq<usize>) -> (Seq<(Seq<char>, int, int, int)>, int, bool)
    decreases offsets.len(),
{
    if offsets.len() == 0 {
        (Seq::empty(), 0, true)
    } else {
        let (es, last, ok) = scan(file, offsets.drop_last());
        let o = offsets.last() as int;
        if o < last {
            (es, last, ok)
        } else {
            (
                es.push((record_name(file, o), content_pos(file, o), o, content_size(file, o))),
                record_end(file, o),
                ok && record_ok(file, o),
            )
        }
    }
}

fn be16_at(file: &[u8], p: usize) -> (r: usize)
    requires
        p + 2 <= file.len(),
    ensures
        r as int == be16(file@, p as int),
{
    (file[p] as usize) * 256 + (file[p + 1] as usize)
}

fn be32_at(file: &[u8], p: usize) -> (r: usize)
    requires
        p + 4 <= file.len(),
    ensures
        r as int == be32(file@, p as int),
{
    let v: u64 = (file[p] as u64) * 16777216 + (file[p + 1] as u64) * 65536 + (file[p + 2] as u64) * 256
        + (file[p + 3] as u64);
    v as usize
}

fn copy_bytes(file: &[u8], from: usize, to: usize) -> (r: Vec<u8>)
    requires
        from <= to <= file.len(),
    ensures
        r@ == file@.subrange(from as int, to as int),
{
    let mut r: Vec<u8> = Vec::new();
    let mut i = from;
    while i < to
        invariant
            from <= i <= to <= file.len(),
            r@ == file@.subrange(from as int, i as int),
        decreases to - i,
    {
        r.push(file[i]);
        i += 1;
        assert(file@.subrange(from as int, i as int) == file@.subrange(from as int, i - 1 as int).push(
            file@[i - 1 as int],
        ));
    }
    r
}

/// Whether every record the offsets lead to lies inside the file, so that
/// `get_embedded` can read them.
pub fn embedded_readable(file: &[u8], offsets: &[usize]) -> (r: bool)
    ensures
        r == scan(file@, offsets@).2,
{
    let mut last: usize = 0;
    let mut ok = true;
    let mut k: usize = 0;
    while k < offsets.len()
        invariant
            k <= offsets.len(),
            scan(file@, offsets@.take(k as int)).1 == last as int,
            scan(file@, offsets@.take(k as int)).2 == ok,
        decreases offsets.len() - k,
    {
        let ghost t = offsets@.take(k as int + 1);
        assert(t.drop_last() == offsets@.take(k as int));
        assert(t.last() == offsets@[k as int]);
        let o = offsets[k];
        if o >= last {
            if !ok {
                proof { lemma_scan_fails(file@, offsets@, k as int); }
                return false;
            }
            if o > file.len() || file.len() - o < 6 {
                assert(!record_ok(file@, o as int));
                proof { lemma_scan_fails(file@, offsets@, k as int + 1); }
                return false;
            }
            let nl = be16_at(file, o + 4);
            if file.len() - (o + 6) < nl || file.len() - (o + 6 + nl) < 4 {
                assert(!record_ok(file@, o as int));
                proof { lemma_scan_fails(file@, offsets@, k as int + 1); }
                return false;
            }
            let size = be32_at(file, o + 6 + nl);
            let pos = o + 6 + nl + 4;
            if size > usize::MAX - pos {
                assert(!record_ok(file@, o as int));
                proof { lemma_scan_fails(file@, offsets@, k as int + 1); }
                return false;
            }
            last = pos + size;
        }
        k += 1;
    }
    assert(offsets@.take(offsets.len() as int) == offsets@);
    ok
}

/// Once a record fails to read, the whole reading fails.
proof fn lemma_scan_fails(file: Seq<u8>, offsets: Seq<usize>, k: int)
    requires
        0 <= k <= offsets.len(),
        !scan(file, offsets.take(k)).2,
    ensures
        !scan(file, offsets).2,
    decreases offsets.len() - k,
{
    if k < offsets.len() {
        let t = offsets.take(k + 1);
        assert(t.drop_last() == offsets.take(k));
        lemma_scan_fails(file, offsets, k + 1);
    } else {
        assert(offsets.take(k) == offsets);
    }
}

/// The files packed into the installer, from the installer's bytes and the
/// offsets where the marker was found, in increasing order.
pub fn get_embedded(file: &[u8], offsets: &[usize]) -> (r: Vec<Embedded>)
    requires
        scan(file@, offsets@).2,
    ensures
        entries_view(r@) == scan(file@, offsets@).0,
{
    let mut entries: Vec<Embedded> = Vec::new();
    let mut last: usize = 0;
    let mut k: usize = 0;
    while k < offsets.len()
        invariant
            k <= offsets.len(),
            scan(file@, offsets@).2,
            scan(file@, offsets@.take(k as int)).1 == last as int,
            scan(file@, offsets@.take(k as int)).0 == entries_view(entries@),
        decreases offsets.len() - k,
    {
        let ghost t = offsets@.take(k as int + 1);
        assert(t.drop_last() == offsets@.take(k as int));
        assert(t.last() == offsets@[k as int]);
        let o = offsets[k];
        if o >= last {
            proof {
                if !record_ok(file@, o as int) {
                    lemma_scan_fails(file@, offsets@, k as int + 1);
                }
            }
            let nl = be16_at(file, o + 4);
            let name_bytes = copy_bytes(file, o + 6, o + 6 + nl);
            let name = lossy_text(&name_bytes);
            let size = be32_at(file, o + 6 + nl);
            let pos = o + 6 + nl + 4;
            let e = Embedded { name, offset: pos, size, raw_offset: o };
            proof {
                assert(entries_view(entries@.push(e)) =~= entries_view(entries@).push(entry_view(e)));
            }
            entries.push(e);
            last = pos + size;
        }
        k += 1;
    }
    assert(offsets@.take(offsets.len() as int) == offsets@);
    entries
}

/// The index of the first entry named `name`.
pub open spec fn index_of_name(es: Seq<Embedded>, name: Seq<char>) -> Option<int>
    decreases es.len(),
{
    if es.len() == 0 {
        None
    } else {
        match index_of_name(es.drop_last(), name) {
            Some(i) => Some(i),
            None => if es.last().name@ == name {
                Some(es.len() - 1)
            } else {
                None
            },
        }
    }
}

fn position_of(es: &[Embedded], name: &str) -> (r: Option<usize>)
    ensures
        match r {
            Some(i) => index_of_name(es@, name@) == Some(i as int) && i < es.len(),
            None => index_of_name(es@, name@) is None,
        },
{
    let key = String::from_str(name);
    let mut i: usize = 0;
    while i < es.len()
        invariant
            i <= es.len(),
            key@ == name@,
            index_of_name(es@.take(i as int), name@) is None,
        decreases es.len() - i,
    {
        let ghost t = es@.take(i as int + 1);
        assert(t.drop_last() == es@.take(i as int));
        assert(t.last() == es@[i as int]);
        if es[i].name == key {
            proof {
                lemma_index_prefix(es@, name@, i as int + 1);
            }
            return Some(i);
        }
        i += 1;
    }
    assert(es@.take(es.len() as int) == es@);
    None
}

proof fn lemma_index_prefix(es: Seq<Embedded>, name: Seq<char>, k: int)
    requires
        0 <= k <= es.len(),
        index_of_name(es.take(k), name) is Some,
    ensures
        index_of_name(es, name) == index_of_name(es.take(k), name),
    decreases es.len() - k,
{
    if k < es.len() {
        let t = es.take(k + 1);
        assert(t.drop_last() == es.take(k));
        lemma_index_prefix(es, name, k + 1);
    } else {
        assert(es.take(k) == es);
    }
}

/// How much of the installer is its base: up to the end of the config
/// record, or of the image record right after it. `None`: nothing is
/// embedded and the whole file is the base. The config must be the first
/// record and the image, if any, the second.
pub open spec fn base_end_spec(es: Seq<Embedded>) -> Result<Option<int>, Seq<char>> {
    match index_of_name(es, ".config.json"@) {
        None => if es.len() == 0 {
            Ok(None)
        } else {
            Err("Malformed packed files: missing config"@)
        },
        Some(c) => if c != 0 {
            Err("Malformed packed files: config not at index 0"@)
        } else {
            match index_of_name(es, ".image"@) {
                Some(i) => if i != 1 {
                    Err("Malformed packed files: image not at index 1"@)
                } else {
                    Ok(Some(es[1].offset + es[1].size))
                },
                None => Ok(Some(es[0].offset + es[0].size)),
            }
        },
    }
}

/// How much of the installer is its base.
pub fn base_end(embedded: &[Embedded]) -> (r: Result<Option<usize>, String>)
    requires
        forall|i: int| 0 <= i < embedded@.len() ==> (#[trigger] embedded@[i]).offset + embedded@[i].size <= usize::MAX,
    ensures
        match (r, base_end_spec(embedded@)) {
            (Ok(Some(e)), Ok(Some(f))) => e as int == f,
            (Ok(None), Ok(None)) => true,
            (Err(m), Err(n)) => m@ == n,
            _ => false,
        },
{
    let config_index = position_of(embedded, ".config.json");
    let image_index = position_of(embedded, ".image");
    match config_index {
        None => {
            if embedded.len() == 0 {
                return Ok(None);
            }
            return Err(String::from_str("Malformed packed files: missing config"));
        },
        Some(c) => {
            if c != 0 {
                return Err(String::from_str("Malformed packed files: config not at index 0"));
            }
            match image_index {
                Some(i) => {
                    if i != 1 {
                        return Err(String::from_str("Malformed packed files: image not at index 1"));
                    }
                    Ok(Some(embedded[1].offset + embedded[1].size))
                },
                None => Ok(Some(embedded[0].offset + embedded[0].size)),
            }
        },
    }
}

/// The header `write_header` puts before a record's content: marker, name
/// length (the low 16 bits of the name's byte length), name, size.
pub open spec fn header_bytes(name: Seq<u8>, size: u32) -> Seq<u8> {
    let n = name.len() as int;
    marker() + seq![((n % 65536) / 256) as u8, (n % 256) as u8] + name + seq![
        (size / 16777216) as u8,
        ((size / 65536) % 256) as u8,
        ((size / 256) % 256) as u8,
        (size % 256) as u8,
    ]
}

/// The bytes of a record's header, for a name and a content size.
pub fn write_header(name: &str, size: u32) -> (r: Vec<u8>)
    ensures
        r@ == header_bytes(encode_utf8(name@), size),
{
    let nb = name.as_bytes();
    let n = nb.len();
    let mut out: Vec<u8> = Vec::new();
    out.push(0x21u8);
    out.push(0x49u8);
    out.push(0x4eu8);
    out.push(0x53u8);
    out.push(((n % 65536) / 256) as u8);
    out.push((n % 256) as u8);
    let mut i: usize = 0;
    let ghost head = out@;
    while i < n
        invariant
            i <= n == nb@.len(),
            out@ == head + nb@.take(i as int),
        decreases n - i,
    {
        out.push(nb[i]);
        i += 1;
        assert(nb@.take(i as int) == nb@.take(i - 1 as int).push(nb@[i - 1 as int]));
    }
    assert(nb@.take(n as int) == nb@);
    out.push((size / 16777216) as u8);
    out.push(((size / 65536) % 256) as u8);
    out.push(((size / 256) % 256) as u8);
    out.push((size % 256) as u8);
    assert(out@ =~= header_bytes(encode_utf8(name@), size));
    out
}

/// A record's bytes: header, then content.
pub open spec fn record_bytes(r: (Seq<u8>, Seq<u8>)) -> Seq<u8> {
    header_bytes(r.0, r.1.len() as u32) + r.1
}

/// Records written one after another.
pub open spec fn pack_bytes(rs: Seq<(Seq<u8>, Seq<u8>)>) -> Seq<u8>
    decreases rs.len(),
{
    if rs.len() == 0 {
        Seq::empty()
    } else {
        pack_bytes(rs.drop_last()) + record_bytes(rs.last())
    }
}

/// Where each record starts when the records follow `base` bytes.
pub open spec fn record_starts(base: int, rs: Seq<(Seq<u8>, Seq<u8>)>) -> Seq<usize>
    decreases rs.len(),
{
    if rs.len() == 0 {
        Seq::empty()
    } else {
        record_starts(base, rs.drop_last()).push((base + pack_bytes(rs.drop_last()).len()) as usize)
    }
}

/// The entries the records stand for: name, content offset, record offset,
/// size.
pub open spec fn packed_entries(base: int, rs: Seq<(Seq<u8>, Seq<u8>)>) -> Seq<(Seq<char>, int, int, int)>
    decreases rs.len(),
{
    if rs.len() == 0 {
        Seq::empty()
    } else {
        let start = base + pack_bytes(rs.drop_last()).len();
        packed_entries(base, rs.drop_last()).push(
            (utf8_lossy(rs.last().0), start + 10 + rs.last().0.len(), start, rs.last().1.len() as int),
        )
    }
}

/// Names and contents small enough for their length fields.
pub open spec fn records_fit(rs: Seq<(Seq<u8>, Seq<u8>)>) -> bool {
    forall|i: int| 0 <= i < rs.len() ==> (#[trigger] rs[i]).0.len() < 65536 && rs[i].1.len() < 0x1_0000_0000
}

/// Bytes appended after what a reading covers do not change it.
proof fn lemma_scan_frame(file: Seq<u8>, extra: Seq<u8>, offsets: Seq<usize>)
    requires
        scan(file, offsets).2,
    ensures
        scan(file + extra, offsets) == scan(file, offsets),
    decreases offsets.len(),
{
    if offsets.len() > 0 {
        let init = offsets.drop_last();
        assert(scan(file, init).2);
        lemma_scan_frame(file, extra, init);
        let big = file + extra;
        let o = offsets.last() as int;
        let (es, last, ok) = scan(file, init);
        if o >= last {
            assert(record_ok(file, o));
            let n = be16(file, o + 4);
            assert(big[o + 4] == file[o + 4] && big[o + 5] == file[o + 5]);
            assert(be16(big, o + 4) == n);
            let p = o + 6 + n;
            assert(big[p] == file[p] && big[p + 1] == file[p + 1] && big[p + 2] == file[p + 2] && big[p + 3] == file[p + 3]);
            assert(big.subrange(o + 6, o + 6 + n) =~= file.subrange(o + 6, o + 6 + n));
        }
    }
}

proof fn lemma_be16_back(n: int)
    requires
        0 <= n < 65536,
    ensures
        (((n % 65536) / 256) as u8) as int * 256 + ((n % 256) as u8) as int == n,
{
    assert(n % 65536 == n);
    assert(0 <= n / 256 < 256) by (nonlinear_arith) requires 0 <= n < 65536;
    assert((n / 256) * 256 + n % 256 == n) by (nonlinear_arith);
}

proof fn lemma_be32_back(size: u32)
    ensures
        ((size / 16777216) as u8) as int * 16777216 + (((size / 65536) % 256) as u8) as int * 65536
            + (((size / 256) % 256) as u8) as int * 256 + ((size % 256) as u8) as int == size,
{
    assert((size / 16777216) < 256) by (bit_vector);
    assert(((size / 16777216) as u8) as int == size / 16777216);
    assert(((size / 16777216) * 16777216 + ((size / 65536) % 256) * 65536 + ((size / 256) % 256) * 256
        + size % 256) as u32 == size) by (bit_vector);
}

/// Writing records after any base and reading them back at their starting
/// offsets gives each record's name, content offset, start and size.
pub proof fn lemma_pack_reads_back(base: Seq<u8>, rs: Seq<(Seq<u8>, Seq<u8>)>)
    requires
        records_fit(rs),
        base.len() + pack_bytes(rs).len() <= usize::MAX,
    ensures
        scan(base + pack_bytes(rs), record_starts(base.len() as int, rs)).2,
        scan(base + pack_bytes(rs), record_starts(base.len() as int, rs)).0 == packed_entries(base.len() as int, rs),
        scan(base + pack_bytes(rs), record_starts(base.len() as int, rs)).1 == if rs.len() == 0 {
            0
        } else {
            base.len() + pack_bytes(rs).len()
        },
    decreases rs.len(),
{
    if rs.len() > 0 {
        let init = rs.drop_last();
        let r = rs.last();
        assert(records_fit(init)) by {
            assert forall|i: int| 0 <= i < init.len() implies (#[trigger] init[i]).0.len() < 65536 && init[i].1.len()
                < 0x1_0000_0000 by {
                assert(init[i] == rs[i]);
            }
        }
        assert(r == rs[rs.len() - 1]);
        lemma_pack_reads_back(base, init);
        let f0 = base + pack_bytes(init);
        let rec = record_bytes(r);
        let file = base + pack_bytes(rs);
        assert(file =~= f0 + rec);
        let starts = record_starts(base.len() as int, rs);
        let s = f0.len() as int;
        assert(starts.drop_last() == record_starts(base.len() as int, init));
        assert(starts.last() as int == s);
        lemma_scan_frame(f0, rec, record_starts(base.len() as int, init));
        let n = r.0.len() as int;
        let c = r.1.len() as int;
        let size = c as u32;
        assert(size as int == c);
        let h = header_bytes(r.0, size);
        assert(h.len() == 10 + n);
        assert(file[s + 4] == h[4] && file[s + 5] == h[5]);
        lemma_be16_back(n);
        assert(be16(file, s + 4) == n);
        assert(file[s + 6 + n] == h[6 + n] && file[s + 7 + n] == h[7 + n] && file[s + 8 + n] == h[8 + n]
            && file[s + 9 + n] == h[9 + n]);
        lemma_be32_back(size);
        assert(be32(file, s + 6 + n) == c);
        assert(file.subrange(s + 6, s + 6 + n) =~= r.0);
        assert(file.len() == s + 10 + n + c);
    }
}

/// `!INS`, the mark that starts a record.
pub open spec fn marker_at(file: Seq<u8>, i: int) -> bool {
    0 <= i && i + 4 <= file.len() && file[i] == 0x21 && file[i + 1] == 0x49 && file[i + 2] == 0x4e && file[i + 3]
        == 0x53
}

/// Where the record marks are in a file, in order.
pub fn marker_offsets(file: &[u8]) -> (r: Vec<usize>)
    ensures
        forall|k: int| 0 <= k < r@.len() ==> marker_at(file@, #[trigger] r@[k] as int),
        forall|k: int, l: int| 0 <= k < l < r@.len() ==> r@[k] < r@[l],
        forall|i: int| #[trigger] marker_at(file@, i) ==> r@.contains(i as usize),
{
    let mut r: Vec<usize> = Vec::new();
    let mut i: usize = 0;
    while file.len() >= 4 && i <= file.len() - 4
        invariant
            i <= file.len(),
            forall|k: int| 0 <= k < r@.len() ==> marker_at(file@, #[trigger] r@[k] as int) && r@[k] < i,
            forall|k: int, l: int| 0 <= k < l < r@.len() ==> r@[k] < r@[l],
            forall|j: int| 0 <= j < i && #[trigger] marker_at(file@, j) ==> r@.contains(j as usize),
        decreases file.len() - i,
    {
        if file[i] == 0x21 && file[i + 1] == 0x49 && file[i + 2] == 0x4e && file[i + 3] == 0x53 {
            let ghost before = r@;
            r.push(i);
            proof {
                assert forall|j: int| 0 <= j < i + 1 && #[trigger] marker_at(file@, j) implies r@.contains(j as usize) by {
                    if j < i {
                        let k = choose|k: int| 0 <= k < before.len() && before[k] == j as usize;
                        assert(r@[k] == j as usize);
                    } else {
                        assert(r@[before.len() as int] == i);
                    }
                }
            }
        }
        i += 1;
    }
    proof {
        assert forall|j: int| #[trigger] marker_at(file@, j) implies r@.contains(j as usize) by {
            assert(j < i);
        }
    }
    r
}

} // verus!
