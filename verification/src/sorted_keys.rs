//! Keyed entries held in ascending key order, each key at most once: the
//! shape of a sorted map, kept in a `Vec` of `(key, value)` pairs.
//!
//! Keys are ordered as text is: character by character, a proper prefix
//! first.

use vstd::prelude::*;
use crate::text::{chars_of, str_eq};

verus! {

/// `a` sorts strictly before `b`.
pub open spec fn text_less(a: Seq<char>, b: Seq<char>) -> bool
    decreases a.len(),
{
    if b.len() == 0 {
        false
    } else if a.len() == 0 {
        true
    } else if a[0] != b[0] {
        a[0] < b[0]
    } else {
        text_less(a.drop_first(), b.drop_first())
    }
}

/// Keys strictly ascending, so each occurs once.
pub open spec fn keys_ascending<V>(s: Seq<(String, V)>) -> bool {
    forall|i: int, j: int| 0 <= i < j < s.len() ==> text_less(#[trigger] s[i].0@, #[trigger] s[j].0@)
}

/// The entries after setting `k` to `v`: an entry with that key keeps its
/// place and takes the new value; otherwise the entry goes in before the
/// first key that sorts after `k`.
pub open spec fn keyed_insert<V>(s: Seq<(String, V)>, k: String, v: V) -> Seq<(String, V)>
    decreases s.len(),
{
    if s.len() == 0 {
        seq![(k, v)]
    } else if s[0].0@ == k@ {
        seq![(s[0].0, v)] + s.drop_first()
    } else if text_less(k@, s[0].0@) {
        seq![(k, v)] + s
    } else {
        seq![s[0]] + keyed_insert(s.drop_first(), k, v)
    }
}

/// Entries set one after another, in the order given: a later entry with
/// a key already set replaces its value.
pub open spec fn sorted_from<V>(s: Seq<(String, V)>) -> Seq<(String, V)>
    decreases s.len(),
{
    if s.len() == 0 {
        seq![]
    } else {
        keyed_insert(sorted_from(s.drop_last()), s.last().0, s.last().1)
    }
}

// ── the order ──────────────────────────────────────────────────────────────

pub proof fn lemma_less_irreflexive(a: Seq<char>)
    ensures
        !text_less(a, a),
    decreases a.len(),
{
    if a.len() > 0 {
        lemma_less_irreflexive(a.drop_first());
    }
}

pub proof fn lemma_less_asymmetric(a: Seq<char>, b: Seq<char>)
    ensures
        !(text_less(a, b) && text_less(b, a)),
    decreases a.len(),
{
    if a.len() > 0 && b.len() > 0 && a[0] == b[0] {
        lemma_less_asymmetric(a.drop_first(), b.drop_first());
    }
}

pub proof fn lemma_less_total(a: Seq<char>, b: Seq<char>)
    requires
        a != b,
    ensures
        text_less(a, b) || text_less(b, a),
    decreases a.len(),
{
    if a.len() > 0 && b.len() > 0 && a[0] == b[0] {
        if a.drop_first() == b.drop_first() {
            assert(a =~= seq![a[0]] + a.drop_first());
            assert(b =~= seq![b[0]] + b.drop_first());
        }
        lemma_less_total(a.drop_first(), b.drop_first());
    } else if a.len() > 0 && b.len() > 0 {
        assert(a[0] != b[0]);
    } else if a.len() == 0 && b.len() == 0 {
        assert(a =~= b);
    }
}

pub proof fn lemma_less_transitive(a: Seq<char>, b: Seq<char>, c: Seq<char>)
    requires
        text_less(a, b),
        text_less(b, c),
    ensures
        text_less(a, c),
    decreases a.len(),
{
    if a.len() > 0 && a[0] == b[0] && b[0] == c[0] {
        lemma_less_transitive(a.drop_first(), b.drop_first(), c.drop_first());
    }
}

/// Past a common prefix, the order is that of what follows it.
proof fn lemma_less_past_prefix(a: Seq<char>, b: Seq<char>, i: int)
    requires
        0 <= i <= a.len(),
        i <= b.len(),
        forall|j: int| 0 <= j < i ==> a[j] == b[j],
    ensures
        text_less(a, b) == text_less(a.skip(i), b.skip(i)),
    decreases i,
{
    if i > 0 {
        assert(a.drop_first().skip(i - 1) =~= a.skip(i));
        assert(b.drop_first().skip(i - 1) =~= b.skip(i));
        assert(a[0] == b[0]);
        lemma_less_past_prefix(a.drop_first(), b.drop_first(), i - 1);
    } else {
        assert(a.skip(0) =~= a);
        assert(b.skip(0) =~= b);
    }
}

// ── inserting keeps the keys ascending ─────────────────────────────────────

proof fn lemma_insert_keys<V>(s: Seq<(String, V)>, k: String, v: V)
    ensures
        keyed_insert(s, k, v).len() >= 1,
        forall|i: int| 0 <= i < keyed_insert(s, k, v).len() ==>
            #[trigger] keyed_insert(s, k, v)[i].0@ == k@ || exists|j: int| 0 <= j < s.len() && s[j].0@ == keyed_insert(s, k, v)[i].0@,
        keyed_insert(s, k, v)[0].0@ == k@ || keyed_insert(s, k, v)[0].0@ == s[0].0@,
    decreases s.len(),
{
    let r = keyed_insert(s, k, v);
    if s.len() > 0 && s[0].0@ != k@ && !text_less(k@, s[0].0@) {
        let rest = s.drop_first();
        lemma_insert_keys(rest, k, v);
        assert forall|i: int| 0 <= i < r.len() implies #[trigger] r[i].0@ == k@ || exists|j: int|
            0 <= j < s.len() && s[j].0@ == r[i].0@ by {
            if i == 0 {
                assert(s[0].0@ == r[i].0@);
            } else {
                assert(r[i] == keyed_insert(rest, k, v)[i - 1]);
                if r[i].0@ != k@ {
                    let j = choose|j: int| 0 <= j < rest.len() && rest[j].0@ == keyed_insert(rest, k, v)[i - 1].0@;
                    assert(s[j + 1] == rest[j]);
                }
            }
        }
    } else if s.len() > 0 {
        assert forall|i: int| 0 <= i < r.len() implies #[trigger] r[i].0@ == k@ || exists|j: int|
            0 <= j < s.len() && s[j].0@ == r[i].0@ by {
            if s[0].0@ == k@ {
                if i > 0 {
                    assert(s[i] == r[i]);
                }
            } else if i > 0 {
                assert(s[i - 1] == r[i]);
            }
        }
    }
}

/// Setting a key keeps the keys ascending.
pub proof fn lemma_insert_ascending<V>(s: Seq<(String, V)>, k: String, v: V)
    requires
        keys_ascending(s),
    ensures
        keys_ascending(keyed_insert(s, k, v)),
    decreases s.len(),
{
    let r = keyed_insert(s, k, v);
    if s.len() == 0 {
    } else if s[0].0@ == k@ {
        assert forall|i: int, j: int| 0 <= i < j < r.len() implies text_less(#[trigger] r[i].0@, #[trigger] r[j].0@) by {
            assert(r[j] == s[j]);
            if i > 0 {
                assert(r[i] == s[i]);
            }
            assert(text_less(s[i].0@, s[j].0@));
        }
    } else if text_less(k@, s[0].0@) {
        assert forall|i: int, j: int| 0 <= i < j < r.len() implies text_less(#[trigger] r[i].0@, #[trigger] r[j].0@) by {
            assert(r[j] == s[j - 1]);
            if i > 0 {
                assert(r[i] == s[i - 1]);
                assert(text_less(s[i - 1].0@, s[j - 1].0@));
            } else if j > 1 {
                assert(text_less(s[0].0@, s[j - 1].0@));
                lemma_less_transitive(k@, s[0].0@, s[j - 1].0@);
            }
        }
    } else {
        let rest = s.drop_first();
        assert(keys_ascending(rest)) by {
            assert forall|i: int, j: int| 0 <= i < j < rest.len() implies text_less(#[trigger] rest[i].0@, #[trigger] rest[j].0@) by {
                assert(rest[i] == s[i + 1] && rest[j] == s[j + 1]);
            }
        }
        lemma_insert_ascending(rest, k, v);
        lemma_insert_keys(rest, k, v);
        lemma_less_total(k@, s[0].0@);
        let ri = keyed_insert(rest, k, v);
        assert forall|i: int, j: int| 0 <= i < j < r.len() implies text_less(#[trigger] r[i].0@, #[trigger] r[j].0@) by {
            assert(r[j] == ri[j - 1]);
            if i > 0 {
                assert(r[i] == ri[i - 1]);
            } else {
                assert(r[0] == s[0]);
                if ri[j - 1].0@ != k@ {
                    let m = choose|m: int| 0 <= m < rest.len() && rest[m].0@ == ri[j - 1].0@;
                    assert(rest[m] == s[m + 1]);
                }
            }
        }
    }
}

/// Entries set one after another come out with ascending keys.
pub proof fn lemma_sorted_from_ascending<V>(s: Seq<(String, V)>)
    ensures
        keys_ascending(sorted_from(s)),
    decreases s.len(),
{
    if s.len() > 0 {
        lemma_sorted_from_ascending(s.drop_last());
        lemma_insert_ascending(sorted_from(s.drop_last()), s.last().0, s.last().1);
    }
}

/// What holds of every value set holds of every value kept.
pub proof fn lemma_insert_values<V>(s: Seq<(String, V)>, k: String, v: V, p: spec_fn(V) -> bool)
    requires
        forall|j: int| 0 <= j < s.len() ==> p(#[trigger] s[j].1),
        p(v),
    ensures
        forall|i: int| 0 <= i < keyed_insert(s, k, v).len() ==> p(#[trigger] keyed_insert(s, k, v)[i].1),
    decreases s.len(),
{
    let r = keyed_insert(s, k, v);
    if s.len() > 0 {
        let rest = s.drop_first();
        assert forall|j: int| 0 <= j < rest.len() implies p(#[trigger] rest[j].1) by {
            assert(rest[j] == s[j + 1]);
        }
        if s[0].0@ != k@ && !text_less(k@, s[0].0@) {
            lemma_insert_values(rest, k, v, p);
            assert forall|i: int| 0 <= i < r.len() implies p(#[trigger] r[i].1) by {
                if i > 0 {
                    assert(r[i] == keyed_insert(rest, k, v)[i - 1]);
                }
            }
        } else {
            assert forall|i: int| 0 <= i < r.len() implies p(#[trigger] r[i].1) by {
                if i > 0 {
                    if s[0].0@ == k@ {
                        assert(r[i] == rest[i - 1]);
                    } else {
                        assert(r[i] == s[i - 1]);
                    }
                }
            }
        }
    }
}

/// What holds of every value given holds of every value kept.
pub proof fn lemma_sorted_from_values<V>(s: Seq<(String, V)>, p: spec_fn(V) -> bool)
    requires
        forall|j: int| 0 <= j < s.len() ==> p(#[trigger] s[j].1),
    ensures
        forall|i: int| 0 <= i < sorted_from(s).len() ==> p(#[trigger] sorted_from(s)[i].1),
    decreases s.len(),
{
    if s.len() > 0 {
        let prev = s.drop_last();
        assert forall|j: int| 0 <= j < prev.len() implies p(#[trigger] prev[j].1) by {
            assert(prev[j] == s[j]);
        }
        lemma_sorted_from_values(prev, p);
        assert(s.last() == s[s.len() - 1]);
        lemma_insert_values(sorted_from(prev), s.last().0, s.last().1, p);
    }
}

/// Setting a key on entries whose first `i` keys sort before it leaves
/// those `i` entries in front.
proof fn lemma_insert_past<V>(s: Seq<(String, V)>, k: String, v: V, i: int)
    requires
        0 <= i <= s.len(),
        forall|j: int| 0 <= j < i ==> text_less(#[trigger] s[j].0@, k@),
    ensures
        keyed_insert(s, k, v) == s.take(i) + keyed_insert(s.skip(i), k, v),
    decreases i,
{
    if i == 0 {
        assert(s.skip(0) =~= s);
        assert(s.take(0) + keyed_insert(s, k, v) =~= keyed_insert(s, k, v));
    } else {
        assert(text_less(s[0].0@, k@));
        lemma_less_irreflexive(k@);
        lemma_less_asymmetric(s[0].0@, k@);
        let rest = s.drop_first();
        assert forall|j: int| 0 <= j < i - 1 implies text_less(#[trigger] rest[j].0@, k@) by {
            assert(rest[j] == s[j + 1]);
        }
        lemma_insert_past(rest, k, v, i - 1);
        assert(rest.skip(i - 1) =~= s.skip(i));
        assert(seq![s[0]] + rest.take(i - 1) =~= s.take(i));
        assert(seq![s[0]] + (rest.take(i - 1) + keyed_insert(s.skip(i), k, v)) =~= s.take(i)
            + keyed_insert(s.skip(i), k, v));
    }
}

// ── executable ─────────────────────────────────────────────────────────────

/// Whether `a` sorts strictly before `b`.
pub fn str_less(a: &str, b: &str) -> (r: bool)
    ensures
        r == text_less(a@, b@),
{
    let x = chars_of(a);
    let y = chars_of(b);
    let mut i: usize = 0;
    while i < x.len() && i < y.len() && x[i] == y[i]
        invariant
            i <= x@.len(),
            i <= y@.len(),
            forall|j: int| 0 <= j < i ==> x@[j] == y@[j],
        decreases x.len() - i,
    {
        i = i + 1;
    }
    proof {
        lemma_less_past_prefix(x@, y@, i as int);
    }
    if i == y.len() {
        false
    } else if i == x.len() {
        true
    } else {
        proof {
            assert(x@.skip(i as int)[0] == x@[i as int]);
            assert(y@.skip(i as int)[0] == y@[i as int]);
        }
        x[i] < y[i]
    }
}

/// Sets `k` to `v` in entries kept in ascending key order.
pub fn insert_keyed<V>(s: &mut Vec<(String, V)>, k: String, v: V)
    ensures
        final(s)@ == keyed_insert(old(s)@, k, v),
{
    let mut i: usize = 0;
    while i < s.len() && str_less(s[i].0.as_str(), k.as_str())
        invariant
            i <= s@.len(),
            forall|j: int| 0 <= j < i ==> text_less(#[trigger] s@[j].0@, k@),
        decreases s.len() - i,
    {
        i = i + 1;
    }
    proof {
        lemma_insert_past(s@, k, v, i as int);
    }
    let ghost pre = s@;
    let ghost rest = s@.skip(i as int);
    if i == s.len() {
        s.push((k, v));
        assert(s@ =~= pre.take(i as int) + keyed_insert(rest, k, v));
    } else if str_eq(s[i].0.as_str(), k.as_str()) {
        assert(rest[0] == pre[i as int]);
        let (key, _) = s.remove(i);
        s.insert(i, (key, v));
        assert(rest.drop_first() =~= pre.skip(i + 1));
        assert(s@ =~= pre.take(i as int) + keyed_insert(rest, k, v));
    } else {
        assert(rest[0] == pre[i as int]);
        proof {
            lemma_less_total(k@, pre[i as int].0@);
        }
        s.insert(i, (k, v));
        assert(s@ =~= pre.take(i as int) + keyed_insert(rest, k, v));
    }
}

/// The entries with ascending keys, each once; where a key repeats, the
/// later entry's value wins.
pub fn sorted_entries<V>(entries: Vec<(String, V)>) -> (r: Vec<(String, V)>)
    ensures
        r@ == sorted_from(entries@),
        keys_ascending(r@),
{
    let ghost orig = entries@;
    let mut rest = entries;
    let mut out: Vec<(String, V)> = Vec::new();
    let total: usize = rest.len();
    let mut i: usize = 0;
    assert(orig.skip(0) =~= orig);
    assert(orig.take(0) =~= Seq::<(String, V)>::empty());
    while rest.len() > 0
        invariant
            i <= orig.len(),
            orig.len() == total,
            rest@ == orig.skip(i as int),
            out@ == sorted_from(orig.take(i as int)),
        decreases rest.len(),
    {
        let (k, v) = rest.remove(0);
        assert(orig.take(i + 1).drop_last() =~= orig.take(i as int));
        assert(orig.take(i + 1).last() == orig[i as int]);
        insert_keyed(&mut out, k, v);
        assert(rest@ =~= orig.skip(i + 1));
        i = i + 1;
    }
    assert(orig.take(i as int) =~= orig);
    proof {
        lemma_sorted_from_ascending(orig);
    }
    out
}

} // verus!
