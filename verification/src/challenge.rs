//! The download service's proof-of-work challenges: find the suffix that
//! makes `source + suffix` hash to the given digest.

use vstd::prelude::*;
use vstd::utf8::encode_utf8;
use crate::text::{chars_eq, chars_of, push_chars, split_chars, split_on, string_of};
use vstd::string::StringExecFns;

verus! {

/// The MD5 digest of `data`, as `chksum_md5::hash` computes it.
pub uninterp spec fn md5_digest(data: Seq<u8>) -> Seq<u8>;

/// The SHA-256 digest of `data`, as `sha2::Sha256::digest` computes it.
pub uninterp spec fn sha256_digest(data: Seq<u8>) -> Seq<u8>;

/// `chksum_md5::hash`: the 16-byte MD5 digest of `data`. The digest itself
/// is named `md5_digest` of the input, not restated.
#[verifier::external_body]
fn md5_bytes(data: &[u8]) -> (r: Vec<u8>)
    ensures
        r@ == md5_digest(data@),
        r@.len() == 16,
{
    chksum_md5::hash(data).as_ref().to_vec()
}

/// `sha2::Sha256::digest`: the 32-byte SHA-256 digest of `data`. The digest
/// itself is named `sha256_digest` of the input, not restated.
#[verifier::external_body]
fn sha256_bytes(data: &[u8]) -> (r: Vec<u8>)
    ensures
        r@ == sha256_digest(data@),
        r@.len() == 32,
{
    <sha2::Sha256 as sha2::Digest>::digest(data).to_vec()
}

/// A lowercase hexadecimal digit.
pub open spec fn hex_digit(n: nat) -> char {
    if n < 10 {
        (('0' as u8) + n) as char
    } else {
        (('a' as u8) + n - 10) as char
    }
}

/// `v` in lowercase hexadecimal, zero-padded to `w` digits (its low `w`
/// digits), as `{:0w$x}` writes a value below `16^w`.
pub open spec fn hex_width(v: nat, w: nat) -> Seq<char>
    decreases w,
{
    if w == 0 {
        Seq::empty()
    } else {
        hex_width(v / 16, (w - 1) as nat) + seq![hex_digit(v % 16)]
    }
}

/// Bytes in lowercase hexadecimal, two digits each.
pub open spec fn hex_bytes(b: Seq<u8>) -> Seq<char>
    decreases b.len(),
{
    if b.len() == 0 {
        Seq::empty()
    } else {
        hex_bytes(b.drop_last()) + hex_width(b.last() as nat, 2)
    }
}

pub open spec fn pow16(w: nat) -> nat
    decreases w,
{
    if w == 0 {
        1
    } else {
        16 * pow16((w - 1) as nat)
    }
}

fn hex_digit_exec(n: u64) -> (c: char)
    requires
        n < 16,
    ensures
        c == hex_digit(n as nat),
{
    if n < 10 {
        ((48u8 + n as u8)) as char
    } else {
        ((97u8 + (n as u8 - 10))) as char
    }
}

fn push_hex_width(out: &mut Vec<char>, v: u64, w: u32)
    ensures
        final(out)@ == old(out)@ + hex_width(v as nat, w as nat),
    decreases w,
{
    if w > 0 {
        push_hex_width(out, v / 16, w - 1);
        out.push(hex_digit_exec(v % 16));
        assert(final(out)@ =~= old(out)@ + hex_width(v as nat, w as nat));
    }
}

/// Bytes in lowercase hexadecimal.
pub fn hex_lower(b: &[u8]) -> (r: Vec<char>)
    ensures
        r@ == hex_bytes(b@),
{
    let mut out: Vec<char> = Vec::new();
    let mut i: usize = 0;
    while i < b.len()
        invariant
            i <= b.len(),
            out@ == hex_bytes(b@.take(i as int)),
        decreases b.len() - i,
    {
        let ghost t = b@.take(i as int + 1);
        assert(t.drop_last() == b@.take(i as int));
        assert(t.last() == b@[i as int]);
        push_hex_width(&mut out, b[i] as u64, 2);
        i += 1;
    }
    assert(b@.take(b.len() as int) == b@);
    out
}

/// The `hash/source` halves of challenge data; `None` unless there is
/// exactly one `/`.
pub open spec fn challenge_halves(data: Seq<char>) -> Option<(Seq<char>, Seq<char>)> {
    let parts = split_on(data, '/');
    if parts.len() == 2 {
        Some((parts[0], parts[1]))
    } else {
        None
    }
}

/// The candidate `source` followed by `i` in `w` hex digits.
pub open spec fn candidate(source: Seq<char>, i: nat, w: nat) -> Seq<char> {
    source + hex_width(i, w)
}

/// The candidate's MD5 digest, in hex, is the target.
pub open spec fn md5_solves(target: Seq<char>, c: Seq<char>) -> bool {
    hex_bytes(md5_digest(encode_utf8(c))) == target
}

pub open spec fn sha256_solves(target: Seq<char>, c: Seq<char>) -> bool {
    hex_bytes(sha256_digest(encode_utf8(c))) == target
}

fn candidate_string(source: &[char], i: u64, w: u32) -> (r: String)
    ensures
        r@ == candidate(source@, i as nat, w as nat),
{
    let mut cs: Vec<char> = Vec::new();
    push_hex_width(&mut cs, i, w);
    let mut s = string_of(source);
    push_chars(&mut s, &cs);
    assert(Seq::<char>::empty() + hex_width(i as nat, w as nat) == hex_width(i as nat, w as nat));
    s
}

/// Solves an MD5 challenge: the first of `source` + `00`..`ff` whose MD5
/// digest is `target`.
pub fn solve_md5(target: &str, source: &str) -> (r: Option<String>)
    ensures
        match r {
            Some(c) => exists|i: nat|
                i < 256 && c@ == candidate(source@, i, 2) && md5_solves(target@, c@) && forall|j: nat|
                    j < i ==> !md5_solves(target@, #[trigger] candidate(source@, j, 2)),
            None => forall|i: nat| i < 256 ==> !md5_solves(target@, #[trigger] candidate(source@, i, 2)),
        },
{
    let src = chars_of(source);
    let want = chars_of(target);
    let mut i: u64 = 0;
    while i < 256
        invariant
            i <= 256,
            src@ == source@,
            want@ == target@,
            forall|j: nat| j < i ==> !md5_solves(target@, #[trigger] candidate(source@, j, 2)),
        decreases 256 - i,
    {
        let c = candidate_string(&src, i, 2);
        let digest = md5_bytes(c.as_str().as_bytes());
        let hex = hex_lower(&digest);
        if chars_eq(&hex, &want) {
            return Some(c);
        }
        i += 1;
    }
    None
}

proof fn lemma_pow16_small(w: nat)
    requires
        w <= 8,
    ensures
        pow16(w) <= 0x1_0000_0000,
{
    reveal_with_fuel(pow16, 9);
}

fn pow16_exec(w: u32) -> (r: u64)
    requires
        w <= 8,
    ensures
        r == pow16(w as nat),
        r <= 0x1_0000_0000,
    decreases w,
{
    proof {
        lemma_pow16_small(w as nat);
    }
    if w == 0 {
        1
    } else {
        let p = pow16_exec(w - 1);
        16 * p
    }
}

/// The candidates of widths `1..w` and, at width `w`, those below `i`:
/// the ones a search in order tries before `(w, i)`.
pub open spec fn sha256_before(target: Seq<char>, source: Seq<char>, w: nat, i: nat) -> bool {
    &&& forall|v: nat, j: nat|
        1 <= v < w && j < pow16(v) ==> !sha256_solves(target, #[trigger] candidate(source, j, v))
    &&& forall|j: nat| j < i ==> !sha256_solves(target, #[trigger] candidate(source, j, w))
}

/// Solves a SHA-256 challenge: the first of `source` + a hex suffix of one
/// to eight digits, shorter suffixes first, whose digest is `target`.
pub fn solve_sha256(target: &str, source: &str) -> (r: Option<String>)
    ensures
        match r {
            Some(c) => exists|w: nat, i: nat|
                1 <= w <= 8 && i < pow16(w) && c@ == candidate(source@, i, w) && sha256_solves(target@, c@)
                    && sha256_before(target@, source@, w, i),
            None => forall|w: nat, i: nat|
                1 <= w <= 8 && i < pow16(w) ==> !sha256_solves(target@, #[trigger] candidate(source@, i, w)),
        },
{
    let src = chars_of(source);
    let want = chars_of(target);
    let mut w: u32 = 1;
    while w <= 8
        invariant
            1 <= w <= 9,
            src@ == source@,
            want@ == target@,
            sha256_before(target@, source@, w as nat, 0),
        decreases 9 - w,
    {
        let max_val = pow16_exec(w);
        let mut i: u64 = 0;
        while i < max_val
            invariant
                1 <= w <= 8,
                i <= max_val,
                max_val == pow16(w as nat),
                src@ == source@,
                want@ == target@,
                sha256_before(target@, source@, w as nat, i as nat),
            decreases max_val - i,
        {
            let c = candidate_string(&src, i, w);
            let digest = sha256_bytes(c.as_str().as_bytes());
            let hex = hex_lower(&digest);
            if chars_eq(&hex, &want) {
                return Some(c);
            }
            i += 1;
        }
        proof {
            assert forall|v: nat, j: nat| 1 <= v < w + 1 && j < pow16(v) implies !sha256_solves(
                target@,
                #[trigger] candidate(source@, j, v),
            ) by {
                if v == w {
                } else {
                }
            }
        }
        w += 1;
    }
    None
}

/// The `hash/source` halves of challenge data.
fn halves(data: &str) -> (r: Option<(String, String)>)
    ensures
        match r {
            Some((h, s)) => challenge_halves(data@) == Some((h@, s@)),
            None => challenge_halves(data@) is None,
        },
{
    let cs = chars_of(data);
    let parts = split_chars(&cs, '/');
    if parts.len() == 2 {
        Some((string_of(&parts[0]), string_of(&parts[1])))
    } else {
        None
    }
}

pub open spec fn md5_outcome(data: Seq<char>, r: Result<String, String>) -> bool {
    match challenge_halves(data) {
        None => r is Err && r->Err_0@ == "Invalid challenge data format"@,
        Some((h, s)) => match r {
            Ok(c) => exists|i: nat| #![trigger candidate(s, i, 2)] i < 256 && c@ == candidate(s, i, 2) && md5_solves(h, c@),
            Err(e) => e@ == "Failed to solve MD5 challenge"@ && forall|i: nat|
                i < 256 ==> !md5_solves(h, #[trigger] candidate(s, i, 2)),
        },
    }
}

pub open spec fn sha256_outcome(data: Seq<char>, r: Result<String, String>) -> bool {
    match challenge_halves(data) {
        None => r is Err && r->Err_0@ == "Invalid challenge data format"@,
        Some((h, s)) => match r {
            Ok(c) => exists|w: nat, i: nat| #![trigger candidate(s, i, w)]
                1 <= w <= 8 && i < pow16(w) && c@ == candidate(s, i, w) && sha256_solves(h, c@),
            Err(e) => e@ == "Failed to solve SHA256 challenge"@ && forall|w: nat, i: nat|
                1 <= w <= 8 && i < pow16(w) ==> !sha256_solves(h, #[trigger] candidate(s, i, w)),
        },
    }
}

fn md5_challenge(data: &str) -> (r: Result<String, String>)
    ensures
        md5_outcome(data@, r),
{
    match halves(data) {
        None => Err(String::from_str("Invalid challenge data format")),
        Some((h, s)) => match solve_md5(h.as_str(), s.as_str()) {
            Some(c) => {
                proof {
                    let i = choose|i: nat|
                        i < 256 && c@ == candidate(s@, i, 2) && md5_solves(h@, c@) && forall|j: nat|
                            j < i ==> !md5_solves(h@, #[trigger] candidate(s@, j, 2));
                    assert(i < 256 && c@ == candidate(s@, i, 2) && md5_solves(h@, c@));
                    assert(challenge_halves(data@) == Some((h@, s@)));
                    assert(challenge_halves(data@)->Some_0.0 == h@);
                    assert(challenge_halves(data@)->Some_0.1 == s@);
                    assert(md5_outcome(data@, Ok::<String, String>(c)));
                }
                Ok(c)
            },
            None => {
                let e = String::from_str("Failed to solve MD5 challenge");
                assert(md5_outcome(data@, Err::<String, String>(e)));
                Err(e)
            },
        },
    }
}

fn sha256_challenge(data: &str) -> (r: Result<String, String>)
    ensures
        sha256_outcome(data@, r),
{
    match halves(data) {
        None => Err(String::from_str("Invalid challenge data format")),
        Some((h, s)) => match solve_sha256(h.as_str(), s.as_str()) {
            Some(c) => {
                proof {
                    let (w, i) = choose|w: nat, i: nat|
                        1 <= w <= 8 && i < pow16(w) && c@ == candidate(s@, i, w) && sha256_solves(h@, c@)
                            && sha256_before(h@, s@, w, i);
                    assert(1 <= w <= 8 && i < pow16(w) && c@ == candidate(s@, i, w) && sha256_solves(h@, c@));
                    assert(challenge_halves(data@)->Some_0.0 == h@);
                    assert(challenge_halves(data@)->Some_0.1 == s@);
                }
                Ok(c)
            },
            None => {
                proof {
                    assert(challenge_halves(data@)->Some_0.0 == h@);
                    assert(challenge_halves(data@)->Some_0.1 == s@);
                }
                Err(String::from_str("Failed to solve SHA256 challenge"))
            },
        },
    }
}

/// Solves a download challenge of the given type (`md5`, `sha256`) for
/// `hash/source` data; `web` challenges are the front end's.
pub fn solve_dfs2_challenge(challenge_type: &str, data: &str) -> (r: Result<String, String>)
    ensures
        challenge_type@ == "md5"@ ==> md5_outcome(data@, r),
        challenge_type@ == "sha256"@ ==> sha256_outcome(data@, r),
        challenge_type@ == "web"@ ==> r is Err && r->Err_0@ == "Web challenges must be handled by the frontend"@,
        challenge_type@ != "md5"@ && challenge_type@ != "sha256"@ && challenge_type@ != "web"@ ==> r is Err
            && r->Err_0@ == "Unsupported challenge type: "@ + challenge_type@,
{
    proof {
        reveal_strlit("md5");
        reveal_strlit("sha256");
        reveal_strlit("web");
        assert("md5"@ != "sha256"@) by {
            assert("md5"@.len() != "sha256"@.len());
        }
        assert("md5"@ != "web"@) by {
            assert("md5"@[0] != "web"@[0]);
        }
        assert("sha256"@ != "web"@) by {
            assert("sha256"@.len() != "web"@.len());
        }
    }
    let t = String::from_str(challenge_type);
    if t == String::from_str("md5") {
        md5_challenge(data)
    } else if t == String::from_str("sha256") {
        sha256_challenge(data)
    } else if t == String::from_str("web") {
        Err(String::from_str("Web challenges must be handled by the frontend"))
    } else {
        let mut m = String::from_str("Unsupported challenge type: ");
        m.append(challenge_type);
        Err(m)
    }
}

} // verus!
