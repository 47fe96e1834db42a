//! Texts in `str`'s order, without repeats.

use vstd::prelude::*;
use crate::text::{chars_eq, chars_of};

verus! {

/// `a` comes before `b` in the order of `str`'s `<`: by code point, a
/// proper prefix first.
pub open spec fn lex_lt(a: Seq<char>, b: Seq<char>) -> bool
    decreases a.len(),
{
    if a.len() == 0 {
        b.len() > 0
    } else if b.len() == 0 {
        false
    } else if a[0] != b[0] {
        (a[0] as int) < (b[0] as int)
    } else {
        lex_lt(a.drop_first(), b.drop_first())
    }
}

/// No text comes before itself.
pub proof fn lemma_lex_irreflexive(a: Seq<char>)
    ensures
        !lex_lt(a, a),
    decreases a.len(),
{
    if a.len() > 0 {
        lemma_lex_irreflexive(a.drop_first());
    }
}

/// The order is transitive.
pub proof fn lemma_lex_transitive(a: Seq<char>, b: Seq<char>, c: Seq<char>)
    requires
        lex_lt(a, b),
        lex_lt(b, c),
    ensures
        lex_lt(a, c),
    decreases a.len(),
{
    if a.len() > 0 && b.len() > 0 && c.len() > 0 && a[0] == b[0] && b[0] == c[0] {
        lemma_lex_transitive(a.drop_first(), b.drop_first(), c.drop_first());
    }
}

/// Of two different texts, one comes first.
pub proof fn lemma_lex_total(a: Seq<char>, b: Seq<char>)
    requires
        a != b,
    ensures
        lex_lt(a, b) || lex_lt(b, a),
    decreases a.len(),
{
    if a.len() == 0 && b.len() == 0 {
        assert(a =~= b);
    } else if a.len() > 0 && b.len() > 0 && a[0] == b[0] {
        if a.drop_first() == b.drop_first() {
            assert(a.drop_first().len() == b.drop_first().len());
            assert forall|i: int| 0 <= i < a.len() implies a[i] == b[i] by {
                if i > 0 {
                    assert(a[i] == a.drop_first()[i - 1]);
                    assert(b[i] == b.drop_first()[i - 1]);
                }
            }
            assert(a =~= b);
        }
        lemma_lex_total(a.drop_first(), b.drop_first());
    } else if a.len() > 0 && b.len() > 0 {
        assert((a[0] as int) != (b[0] as int));
    }
}

/// Whether `a` comes before `b`.
pub fn lex_less(a: &[char], b: &[char]) -> (r: bool)
    ensures
        r == lex_lt(a@, b@),
{
    let mut i: usize = 0;
    assert(a@.skip(0) =~= a@);
    assert(b@.skip(0) =~= b@);
    while i < a.len() && i < b.len()
        invariant
            i <= a@.len(),
            i <= b@.len(),
            lex_lt(a@, b@) == lex_lt(a@.skip(i as int), b@.skip(i as int)),
        decreases a@.len() - i,
    {
        if a[i] != b[i] {
            return a[i] < b[i];
        }
        assert(a@.skip(i as int).drop_first() =~= a@.skip(i + 1 as int));
        assert(b@.skip(i as int).drop_first() =~= b@.skip(i + 1 as int));
        i += 1;
    }
    i < b.len()
}

/// Each text of `s` comes before every later one.
pub open spec fn strictly_sorted(s: Seq<Seq<char>>) -> bool {
    forall|i: int, j: int| 0 <= i < j < s.len() ==> lex_lt(#[trigger] s[i], #[trigger] s[j])
}

/// `s` holds the text `x`.
pub open spec fn holds_text(s: Seq<Seq<char>>, x: Seq<char>) -> bool {
    exists|k: int| 0 <= k < s.len() && #[trigger] s[k] == x
}

/// `a` and `b` hold the same texts, each any number of times.
pub open spec fn same_texts(a: Seq<Seq<char>>, b: Seq<Seq<char>>) -> bool {
    forall|x: Seq<char>| #![trigger holds_text(a, x)] #![trigger holds_text(b, x)] holds_text(a, x)
        <==> holds_text(b, x)
}

pub open spec fn views(strs: Seq<String>) -> Seq<Seq<char>> {
    strs.map_values(|s: String| s@)
}

proof fn lemma_holds_push(s: Seq<Seq<char>>, x: Seq<char>)
    ensures
        forall|y: Seq<char>| #[trigger] holds_text(s.push(x), y) <==> (holds_text(s, y) || y == x),
{
    assert forall|y: Seq<char>| #[trigger] holds_text(s.push(x), y) implies (holds_text(s, y) || y
        == x) by {
        let k = choose|k: int| 0 <= k < s.push(x).len() && #[trigger] s.push(x)[k] == y;
        if k < s.len() {
            assert(s[k] == y);
        }
    }
    assert forall|y: Seq<char>| (holds_text(s, y) || y == x) implies #[trigger] holds_text(
        s.push(x),
        y,
    ) by {
        if y == x {
            assert(s.push(x)[s.len() as int] == y);
        } else {
            let k = choose|k: int| 0 <= k < s.len() && #[trigger] s[k] == y;
            assert(s.push(x)[k] == y);
        }
    }
}

proof fn lemma_holds_insert(s: Seq<Seq<char>>, p: int, x: Seq<char>)
    requires
        0 <= p <= s.len(),
    ensures
        forall|y: Seq<char>| #[trigger] holds_text(s.insert(p, x), y) <==> (holds_text(s, y) || y
            == x),
{
    s.insert_ensures(p, x);
    let t = s.insert(p, x);
    assert forall|y: Seq<char>| #[trigger] holds_text(t, y) implies (holds_text(s, y) || y
        == x) by {
        let k = choose|k: int| 0 <= k < t.len() && #[trigger] t[k] == y;
        if k < p {
            assert(s[k] == y);
        } else if k > p {
            assert(t[(k - 1) + 1] == s[k - 1]);
            assert(s[k - 1] == y);
        }
    }
    assert forall|y: Seq<char>| (holds_text(s, y) || y == x) implies #[trigger] holds_text(t, y) by {
        if y == x {
            assert(t[p] == y);
        } else {
            let k = choose|k: int| 0 <= k < s.len() && #[trigger] s[k] == y;
            if k < p {
                assert(t[k] == y);
            } else {
                assert(t[k + 1] == s[k]);
            }
        }
    }
}

proof fn lemma_insert_sorted(s: Seq<Seq<char>>, p: int, x: Seq<char>)
    requires
        strictly_sorted(s),
        0 <= p <= s.len(),
        forall|k: int| 0 <= k < p ==> lex_lt(#[trigger] s[k], x),
        forall|k: int| p <= k < s.len() ==> lex_lt(x, #[trigger] s[k]),
    ensures
        strictly_sorted(s.insert(p, x)),
{
    s.insert_ensures(p, x);
    let t = s.insert(p, x);
    assert forall|a: int, b: int| 0 <= a < b < t.len() implies lex_lt(
        #[trigger] t[a],
        #[trigger] t[b],
    ) by {
        if b > p {
            assert(t[(b - 1) + 1] == s[b - 1]);
        }
        if a > p {
            assert(t[(a - 1) + 1] == s[a - 1]);
        }
        if b < p {
            assert(lex_lt(s[a], s[b]));
        } else if b == p {
            assert(lex_lt(s[a], x));
        } else if a < p {
            assert(lex_lt(s[a], s[b - 1]));
        } else if a == p {
            assert(lex_lt(x, s[b - 1]));
        } else {
            assert(lex_lt(s[a - 1], s[b - 1]));
        }
    }
}

/// The texts of `items`, each once, in `str`'s order: what sorting them and
/// dropping repeats gives.
pub fn sorted_unique(items: &Vec<String>) -> (r: Vec<String>)
    ensures
        strictly_sorted(views(r@)),
        same_texts(views(r@), views(items@)),
{
    let mut out: Vec<String> = Vec::new();
    let mut i: usize = 0;
    assert(views(out@) =~= Seq::<Seq<char>>::empty());
    assert(views(items@.take(0)) =~= Seq::<Seq<char>>::empty());
    while i < items.len()
        invariant
            i <= items@.len(),
            strictly_sorted(views(out@)),
            same_texts(views(out@), views(items@.take(i as int))),
        decreases items@.len() - i,
    {
        let xs = chars_of(items[i].as_str());
        let ghost x = items@[i as int]@;
        let ghost before = views(out@);
        assert(views(items@.take(i + 1 as int)) =~= views(items@.take(i as int)).push(x));
        proof {
            lemma_holds_push(views(items@.take(i as int)), x);
        }
        let mut p: usize = 0;
        while p < out.len()
            invariant
                p <= out@.len(),
                xs@ == x,
                forall|k: int| 0 <= k < p ==> lex_lt(#[trigger] out@[k]@, x),
            ensures
                p <= out@.len(),
                forall|k: int| 0 <= k < p ==> lex_lt(#[trigger] out@[k]@, x),
                p < out@.len() ==> !lex_lt(out@[p as int]@, x),
            decreases out@.len() - p,
        {
            let c = chars_of(out[p].as_str());
            if !lex_less(&c, &xs) {
                break;
            }
            p += 1;
        }
        let dup = p < out.len() && chars_eq(&chars_of(out[p].as_str()), &xs);
        if dup {
            assert(before[p as int] == x);
        } else {
            proof {
                assert forall|k: int| p <= k < before.len() implies lex_lt(x, #[trigger] before[k]) by {
                    assert(before[p as int] == out@[p as int]@);
                    lemma_lex_total(x, before[p as int]);
                    if k > p {
                        lemma_lex_transitive(x, before[p as int], before[k]);
                    }
                }
                assert forall|k: int| 0 <= k < p implies lex_lt(#[trigger] before[k], x) by {
                    assert(before[k] == out@[k]@);
                }
                lemma_insert_sorted(before, p as int, x);
                lemma_holds_insert(before, p as int, x);
            }
            out.insert(p, items[i].clone());
            assert(views(out@) =~= before.insert(p as int, x));
        }
        i += 1;
    }
    assert(items@.take(items@.len() as int) =~= items@);
    out
}


proof fn lemma_least_first(a: Seq<Seq<char>>, b: Seq<Seq<char>>)
    requires
        strictly_sorted(a),
        strictly_sorted(b),
        same_texts(a, b),
        a.len() > 0,
        b.len() > 0,
    ensures
        a[0] == b[0],
{
    assert(holds_text(a, a[0]));
    assert(holds_text(b, b[0]));
    let k = choose|k: int| 0 <= k < b.len() && #[trigger] b[k] == a[0];
    let m = choose|m: int| 0 <= m < a.len() && #[trigger] a[m] == b[0];
    if k > 0 && m > 0 {
        assert(lex_lt(b[0], b[k]));
        assert(lex_lt(a[0], a[m]));
        lemma_lex_transitive(a[0], b[0], a[0]);
        lemma_lex_irreflexive(a[0]);
    }
}

/// Two lists, each sorted without repeats, that hold the same texts are the
/// same list; so [`sorted_unique`]'s contract fixes its result.
pub proof fn lemma_sorted_texts_unique(a: Seq<Seq<char>>, b: Seq<Seq<char>>)
    requires
        strictly_sorted(a),
        strictly_sorted(b),
        same_texts(a, b),
    ensures
        a == b,
    decreases a.len(),
{
    if a.len() == 0 || b.len() == 0 {
        if b.len() > 0 {
            assert(holds_text(b, b[0]));
        }
        if a.len() > 0 {
            assert(holds_text(a, a[0]));
        }
        assert(a =~= b);
    } else {
        lemma_least_first(a, b);
        let a1 = a.drop_first();
        let b1 = b.drop_first();
        assert forall|i: int, j: int| 0 <= i < j < a1.len() implies lex_lt(
            #[trigger] a1[i],
            #[trigger] a1[j],
        ) by {
            assert(lex_lt(a[i + 1], a[j + 1]));
        }
        assert forall|i: int, j: int| 0 <= i < j < b1.len() implies lex_lt(
            #[trigger] b1[i],
            #[trigger] b1[j],
        ) by {
            assert(lex_lt(b[i + 1], b[j + 1]));
        }
        assert forall|x: Seq<char>| holds_text(a1, x) implies holds_text(b1, x) by {
            let i = choose|i: int| 0 <= i < a1.len() && #[trigger] a1[i] == x;
            assert(a[i + 1] == x);
            assert(holds_text(a, x));
            let k = choose|k: int| 0 <= k < b.len() && #[trigger] b[k] == x;
            if k == 0 {
                assert(lex_lt(a[0], a[i + 1]));
                lemma_lex_irreflexive(x);
            }
            assert(b1[k - 1] == x);
        }
        assert forall|x: Seq<char>| holds_text(b1, x) implies holds_text(a1, x) by {
            let i = choose|i: int| 0 <= i < b1.len() && #[trigger] b1[i] == x;
            assert(b[i + 1] == x);
            assert(holds_text(b, x));
            let k = choose|k: int| 0 <= k < a.len() && #[trigger] a[k] == x;
            if k == 0 {
                assert(lex_lt(b[0], b[i + 1]));
                lemma_lex_irreflexive(x);
            }
            assert(a1[k - 1] == x);
        }
        lemma_sorted_texts_unique(a1, b1);
        assert(a.len() == b.len());
        assert forall|i: int| 0 <= i < a.len() implies a[i] == b[i] by {
            if i > 0 {
                assert(a[i] == a1[i - 1]);
                assert(b[i] == b1[i - 1]);
            }
        }
        assert(a =~= b);
    }
}

} // verus!
