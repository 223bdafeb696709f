//! `ds.query`: fuzzy lookup of tokens and components in the active design
//! system, ranked by a confidence score.
//!
//! A score is one of three exact fractions: `1` for an exact match,
//! `1/2 + 1/2 · |query| / |candidate|` (lengths in bytes) when the
//! candidate contains the query, and `3/10 · hits / |query words|` when
//! some of the query's words (split at `.` and whitespace) occur in the
//! candidate's words. The hit keeps which of these it is
//! ([`ScoreBasis`]), so that the caller can show the number in whatever
//! form it needs.

use vstd::prelude::*;
use vstd::string::StringSliceAdditionalSpecFns;
use crate::ds::design_system::DesignSystem;
use crate::ds::prompt::shown_value;
use crate::ds::tokens::refs_of;
use crate::text::{
    chars_of, has_sub, is_whitespace, is_ws, keys_of, lower, str_eq, to_ascii_lowercase,
    to_owned, vec_contains, views,
};

verus! {

/// Which formula a hit's score comes from.
#[derive(Debug, Clone, Copy, PartialEq, Eq, Structural)]
pub enum ScoreBasis {
    /// The candidate is the query: score 1.
    Exact,
    /// The candidate contains the query: score 1/2 + 1/2 · query / candidate.
    Substring { query_bytes: usize, candidate_bytes: usize },
    /// Some query words occur in candidate words: score 3/10 · hits / words.
    Overlap { hits: usize, words: usize },
}

#[derive(Debug)]
pub struct DsQueryHit {
    /// `"token"` or `"component"`.
    pub kind: &'static str,
    pub reference: String,
    pub value: String,
    pub basis: ScoreBasis,
}

#[derive(Debug)]
pub struct DsQueryResult {
    pub query: String,
    pub hits: Vec<DsQueryHit>,
}

/// The JSON text of the `ds.query` tool schema.
pub const DS_QUERY_SCHEMA: &'static str = r#"{
  "type": "function",
  "function": {
    "name": "ds.query",
    "description": "Fuzzy-lookup tokens and components in the active DesignSystem. Returns ranked hits with confidence scores. Use before inventing a new ref.",
    "parameters": {
      "type": "object",
      "required": ["query"],
      "properties": {
        "query": {"type": "string", "description": "free-text query, e.g. `primary cta` or `space md`"},
        "limit": {"type": "integer", "minimum": 1, "maximum": 20, "default": 8},
        "kind":  {"type": "string", "enum": ["token","component","any"], "default": "any"}
      },
      "additionalProperties": false
    }
  }
}"#;

/// The `ds.query` tool schema, as JSON text.
pub fn ds_query_schema() -> (r: String)
    ensures
        r@ == DS_QUERY_SCHEMA@,
{
    to_owned(DS_QUERY_SCHEMA)
}

// ── specification ──────────────────────────────────────────────────────────

/// A hit as texts.
pub type HitView = (Seq<char>, Seq<char>, Seq<char>, ScoreBasis);

pub open spec fn hit_view(h: DsQueryHit) -> HitView {
    (h.kind@, h.reference@, h.value@, h.basis)
}

pub open spec fn hit_views(hs: Seq<DsQueryHit>) -> Seq<HitView> {
    hs.map_values(|h: DsQueryHit| hit_view(h))
}

/// Words are separated by `.` and whitespace.
pub open spec fn word_sep(c: char) -> bool {
    c == '.' || is_ws(c)
}

/// The non-empty words of a text, in order.
pub open spec fn words(s: Seq<char>) -> Seq<Seq<char>>
    decreases s.len(),
{
    words_from(s, seq![])
}

/// The words of `s`, the first of them continuing `cur`.
pub open spec fn words_from(s: Seq<char>, cur: Seq<char>) -> Seq<Seq<char>>
    decreases s.len(),
{
    if s.len() == 0 {
        if cur.len() > 0 {
            seq![cur]
        } else {
            seq![]
        }
    } else if word_sep(s[0]) {
        if cur.len() > 0 {
            seq![cur] + words_from(s.drop_first(), seq![])
        } else {
            words_from(s.drop_first(), seq![])
        }
    } else {
        words_from(s.drop_first(), cur.push(s[0]))
    }
}

/// How many query words occur inside some candidate word.
pub open spec fn matched(qt: Seq<Seq<char>>, ct: Seq<Seq<char>>) -> nat
    decreases qt.len(),
{
    if qt.len() == 0 {
        0
    } else {
        matched(qt.drop_last(), ct) + if exists|j: int| 0 <= j < ct.len() && has_sub(#[trigger] ct[j], qt.last()) {
            1nat
        } else {
            0nat
        }
    }
}

/// The score basis of a (lower-cased) candidate for a (lower-cased)
/// query; `None` when the score is zero.
pub open spec fn basis_of(q: Seq<char>, c: Seq<char>) -> Option<ScoreBasis> {
    if c == q {
        Some(ScoreBasis::Exact)
    } else if has_sub(c, q) {
        Some(
            ScoreBasis::Substring {
                query_bytes: vstd::utf8::encode_utf8(q).len() as usize,
                candidate_bytes: vstd::utf8::encode_utf8(c).len() as usize,
            },
        )
    } else {
        let qt = words(q);
        let ct = words(c);
        if qt.len() == 0 || ct.len() == 0 || matched(qt, ct) == 0 {
            None
        } else {
            Some(ScoreBasis::Overlap { hits: matched(qt, ct) as usize, words: qt.len() as usize })
        }
    }
}

/// The kind of a score: an exact match (1) beats containment (at least
/// 1/2, below 1), which beats word overlap (at most 3/10).
pub open spec fn score_kind(b: ScoreBasis) -> int {
    match b {
        ScoreBasis::Exact => 2,
        ScoreBasis::Substring { .. } => 1,
        ScoreBasis::Overlap { .. } => 0,
    }
}

/// `a` scores lower than `b`: by kind, then, within containment, by the
/// share of the candidate the query covers, and within word overlap by
/// the share of query words that matched.
pub open spec fn scores_below(a: ScoreBasis, b: ScoreBasis) -> bool {
    if score_kind(a) != score_kind(b) {
        score_kind(a) < score_kind(b)
    } else {
        match (a, b) {
            (
                ScoreBasis::Substring { query_bytes: q1, candidate_bytes: c1 },
                ScoreBasis::Substring { query_bytes: q2, candidate_bytes: c2 },
            ) => q1 * c2 < q2 * c1,
            (
                ScoreBasis::Overlap { hits: h1, words: n1 },
                ScoreBasis::Overlap { hits: h2, words: n2 },
            ) => h1 * n2 < h2 * n1,
            _ => false,
        }
    }
}

/// `h` inserted into a list ranked by score: after every hit that scores
/// at least as high.
pub open spec fn insert_ranked(sorted: Seq<HitView>, h: HitView) -> Seq<HitView>
    decreases sorted.len(),
{
    if sorted.len() == 0 {
        seq![h]
    } else if scores_below(sorted.last().3, h.3) {
        insert_ranked(sorted.drop_last(), h).push(sorted.last())
    } else {
        sorted.push(h)
    }
}

/// The hits ranked by score, highest first; hits that score the same keep
/// their order.
pub open spec fn ranked(hits: Seq<HitView>) -> Seq<HitView>
    decreases hits.len(),
{
    if hits.len() == 0 {
        seq![]
    } else {
        insert_ranked(ranked(hits.drop_last()), hits.last())
    }
}

/// Token hits for the refs, in ref order.
pub open spec fn token_hits(ds: DesignSystem, q: Seq<char>, refs: Seq<Seq<char>>) -> Seq<HitView>
    decreases refs.len(),
{
    if refs.len() == 0 {
        seq![]
    } else {
        let r = refs.last();
        let prev = token_hits(ds, q, refs.drop_last());
        match basis_of(q, lower(r)) {
            Some(b) => prev.push(("token"@, r, shown_value(ds.tokens@, r), b)),
            None => prev,
        }
    }
}

/// Component hits for the names, in name order.
pub open spec fn component_hits(q: Seq<char>, names: Seq<Seq<char>>) -> Seq<HitView>
    decreases names.len(),
{
    if names.len() == 0 {
        seq![]
    } else {
        let n = names.last();
        let prev = component_hits(q, names.drop_last());
        match basis_of(q, lower(n)) {
            Some(b) => prev.push(("component"@, n, n, b)),
            None => prev,
        }
    }
}

/// Every hit before ranking: tokens unless only components are asked for,
/// then components unless only tokens are asked for.
pub open spec fn candidates(ds: DesignSystem, query: Seq<char>, kind: Seq<char>) -> Seq<HitView> {
    let q = lower(query);
    (if kind != "component"@ {
        token_hits(ds, q, refs_of(ds.tokens@))
    } else {
        seq![]
    }) + (if kind != "token"@ {
        component_hits(q, keys_of(ds.components.items@))
    } else {
        seq![]
    })
}

/// The answer to a query: the candidates ranked, at most `limit` of them.
pub open spec fn query_answer(ds: DesignSystem, query: Seq<char>, limit: nat, kind: Seq<char>) -> Seq<HitView> {
    let r = ranked(candidates(ds, query, kind));
    if limit < r.len() {
        r.subrange(0, limit as int)
    } else {
        r
    }
}


/// A basis whose ratio is well defined: containment in a non-empty
/// candidate, overlap over a non-empty query.
pub open spec fn basis_ok(b: ScoreBasis) -> bool {
    match b {
        ScoreBasis::Exact => true,
        ScoreBasis::Substring { candidate_bytes, .. } => candidate_bytes > 0,
        ScoreBasis::Overlap { words, .. } => words > 0,
    }
}

/// No hit scores below a hit after it.
pub open spec fn ranked_order(s: Seq<HitView>) -> bool {
    forall|i: int, j: int| 0 <= i < j < s.len() ==> !scores_below(#[trigger] s[i].3, #[trigger] s[j].3)
}

proof fn lemma_below_asym(a: ScoreBasis, b: ScoreBasis)
    ensures
        scores_below(a, b) ==> !scores_below(b, a),
{
}

proof fn lemma_not_below_trans(a: ScoreBasis, b: ScoreBasis, c: ScoreBasis)
    requires
        basis_ok(a),
        basis_ok(b),
        basis_ok(c),
        !scores_below(a, b),
        !scores_below(b, c),
    ensures
        !scores_below(a, c),
{
    if score_kind(a) == score_kind(b) && score_kind(b) == score_kind(c) {
        match (a, b, c) {
            (
                ScoreBasis::Substring { query_bytes: q1, candidate_bytes: c1 },
                ScoreBasis::Substring { query_bytes: q2, candidate_bytes: c2 },
                ScoreBasis::Substring { query_bytes: q3, candidate_bytes: c3 },
            ) => {
                let (x1, y1, x2, y2, x3, y3) = (q1 as int, c1 as int, q2 as int, c2 as int, q3 as int, c3 as int);
                assert(x1 * y3 >= x3 * y1) by (nonlinear_arith)
                    requires
                        y1 > 0,
                        y2 > 0,
                        y3 > 0,
                        x1 >= 0,
                        x2 >= 0,
                        x3 >= 0,
                        x1 * y2 >= x2 * y1,
                        x2 * y3 >= x3 * y2,
                {
                    assert(x1 * y2 * y3 >= x2 * y1 * y3);
                    assert(x2 * y3 * y1 >= x3 * y2 * y1);
                    assert(x1 * y3 * y2 >= x3 * y1 * y2);
                }
            },
            (
                ScoreBasis::Overlap { hits: h1, words: n1 },
                ScoreBasis::Overlap { hits: h2, words: n2 },
                ScoreBasis::Overlap { hits: h3, words: n3 },
            ) => {
                let (x1, y1, x2, y2, x3, y3) = (h1 as int, n1 as int, h2 as int, n2 as int, h3 as int, n3 as int);
                assert(x1 * y3 >= x3 * y1) by (nonlinear_arith)
                    requires
                        y1 > 0,
                        y2 > 0,
                        y3 > 0,
                        x1 >= 0,
                        x2 >= 0,
                        x3 >= 0,
                        x1 * y2 >= x2 * y1,
                        x2 * y3 >= x3 * y2,
                {
                    assert(x1 * y2 * y3 >= x2 * y1 * y3);
                    assert(x2 * y3 * y1 >= x3 * y2 * y1);
                    assert(x1 * y3 * y2 >= x3 * y1 * y2);
                }
            },
            _ => {},
        }
    }
}

proof fn lemma_insert_keeps_order(s: Seq<HitView>, h: HitView)
    requires
        ranked_order(s),
        forall|k: int| 0 <= k < s.len() ==> basis_ok(#[trigger] s[k].3),
        basis_ok(h.3),
    ensures
        ranked_order(insert_ranked(s, h)),
        insert_ranked(s, h).len() == s.len() + 1,
        forall|k: int| 0 <= k < insert_ranked(s, h).len() ==> #[trigger] insert_ranked(s, h)[k] == h
            || exists|m: int| 0 <= m < s.len() && insert_ranked(s, h)[k] == s[m],
    decreases s.len(),
{
    if s.len() > 0 {
        let t = s.drop_last();
        let l = s.last();
        assert(l == s[s.len() - 1]);
        if scores_below(l.3, h.3) {
            assert forall|i: int, j: int| 0 <= i < j < t.len() implies !scores_below(#[trigger] t[i].3, #[trigger] t[j].3) by {
                assert(t[i] == s[i] && t[j] == s[j]);
            }
            lemma_insert_keeps_order(t, h);
            let r0 = insert_ranked(t, h);
            let r = insert_ranked(s, h);
            assert(r == r0.push(l));
            lemma_below_asym(l.3, h.3);
            assert forall|k: int| 0 <= k < r0.len() implies !scores_below(#[trigger] r0[k].3, l.3) by {
                if r0[k] != h {
                    let m = choose|m: int| 0 <= m < t.len() && r0[k] == t[m];
                    assert(t[m] == s[m]);
                }
            }
            assert forall|i: int, j: int| 0 <= i < j < r.len() implies !scores_below(#[trigger] r[i].3, #[trigger] r[j].3) by {
                if j < r0.len() {
                    assert(r[i] == r0[i] && r[j] == r0[j]);
                } else {
                    assert(r[i] == r0[i] && r[j] == l);
                }
            }
            assert forall|k: int| 0 <= k < r.len() implies #[trigger] r[k] == h || exists|m: int| 0 <= m < s.len() && r[k] == s[m] by {
                if k < r0.len() {
                    assert(r[k] == r0[k]);
                    if r0[k] != h {
                        let m = choose|m: int| 0 <= m < t.len() && r0[k] == t[m];
                        assert(t[m] == s[m]);
                    }
                } else {
                    assert(r[k] == s[s.len() - 1]);
                }
            }
        } else {
            let r = insert_ranked(s, h);
            assert(r == s.push(h));
            assert forall|i: int, j: int| 0 <= i < j < r.len() implies !scores_below(#[trigger] r[i].3, #[trigger] r[j].3) by {
                if j < s.len() {
                    assert(r[i] == s[i] && r[j] == s[j]);
                } else if i == s.len() - 1 {
                    assert(r[i] == l && r[j] == h);
                } else {
                    assert(r[i] == s[i] && r[j] == h);
                    assert(!scores_below(s[i].3, s[s.len() - 1].3));
                    lemma_not_below_trans(s[i].3, l.3, h.3);
                }
            }
            assert forall|k: int| 0 <= k < r.len() implies #[trigger] r[k] == h || exists|m: int| 0 <= m < s.len() && r[k] == s[m] by {
                if k < s.len() {
                    assert(r[k] == s[k]);
                }
            }
        }
    }
}

proof fn lemma_ranked_in_order(hs: Seq<HitView>)
    requires
        forall|k: int| 0 <= k < hs.len() ==> basis_ok(#[trigger] hs[k].3),
    ensures
        ranked_order(ranked(hs)),
        ranked(hs).len() == hs.len(),
        forall|k: int| 0 <= k < ranked(hs).len() ==> exists|m: int| 0 <= m < hs.len() && #[trigger] ranked(hs)[k] == hs[m],
    decreases hs.len(),
{
    if hs.len() > 0 {
        let t = hs.drop_last();
        assert forall|k: int| 0 <= k < t.len() implies basis_ok(#[trigger] t[k].3) by {
            assert(t[k] == hs[k]);
        }
        lemma_ranked_in_order(t);
        let r0 = ranked(t);
        assert forall|k: int| 0 <= k < r0.len() implies basis_ok(#[trigger] r0[k].3) by {
            let m = choose|m: int| 0 <= m < t.len() && r0[k] == t[m];
            assert(t[m] == hs[m]);
        }
        assert(hs.last() == hs[hs.len() - 1]);
        lemma_insert_keeps_order(r0, hs.last());
        let r = ranked(hs);
        assert forall|k: int| 0 <= k < r.len() implies exists|m: int| 0 <= m < hs.len() && #[trigger] r[k] == hs[m] by {
            if r[k] == hs.last() {
                assert(r[k] == hs[hs.len() - 1]);
            } else {
                let m = choose|m: int| 0 <= m < r0.len() && r[k] == r0[m];
                let m2 = choose|m2: int| 0 <= m2 < t.len() && r0[m] == t[m2];
                assert(t[m2] == hs[m2]);
            }
        }
    }
}

// ── implementation ─────────────────────────────────────────────────────────

pub open spec fn char_views(v: Seq<Vec<char>>) -> Seq<Seq<char>> {
    v.map_values(|x: Vec<char>| x@)
}

fn words_of(s: &Vec<char>) -> (r: Vec<Vec<char>>)
    ensures
        char_views(r@) == words(s@),
{
    let mut out: Vec<Vec<char>> = Vec::new();
    let mut cur: Vec<char> = Vec::new();
    let mut i: usize = 0;
    assert(s@.skip(0) =~= s@);
    while i < s.len()
        invariant
            i <= s@.len(),
            words(s@) == char_views(out@) + words_from(s@.skip(i as int), cur@),
        decreases s.len() - i,
    {
        let ghost rest = s@.skip(i as int);
        assert(rest[0] == s@[i as int]);
        assert(rest.drop_first() =~= s@.skip(i + 1));
        let c = s[i];
        if c == '.' || is_whitespace(c) {
            if cur.len() > 0 {
                let ghost o = out@;
                let w = cur;
                out.push(w);
                assert(char_views(out@) =~= char_views(o).push(w@));
                assert(char_views(out@) + words_from(s@.skip(i + 1), seq![]) =~= char_views(o) + (
                seq![w@] + words_from(s@.skip(i + 1), seq![])));
                cur = Vec::new();
            } else {
                assert(cur@ =~= Seq::<char>::empty());
            }
            assert(cur@ =~= Seq::<char>::empty());
        } else {
            cur.push(c);
        }
        i = i + 1;
    }
    assert(s@.skip(i as int) =~= Seq::<char>::empty());
    if cur.len() > 0 {
        let ghost o = out@;
        let w = cur;
        out.push(w);
        assert(char_views(out@) =~= char_views(o).push(w@));
        assert(char_views(out@) =~= char_views(o) + seq![w@]);
    } else {
        assert(char_views(out@) =~= char_views(out@) + Seq::<Seq<char>>::empty());
    }
    out
}

fn count_matched(qt: &Vec<Vec<char>>, ct: &Vec<Vec<char>>) -> (n: usize)
    ensures
        n == matched(char_views(qt@), char_views(ct@)),
{
    let ghost q = char_views(qt@);
    let ghost c = char_views(ct@);
    let mut n: usize = 0;
    let mut i: usize = 0;
    while i < qt.len()
        invariant
            i <= qt@.len(),
            q == char_views(qt@),
            c == char_views(ct@),
            n == matched(q.subrange(0, i as int), c),
            n <= i,
        decreases qt.len() - i,
    {
        assert(q.subrange(0, i + 1).drop_last() =~= q.subrange(0, i as int));
        assert(q.subrange(0, i + 1).last() == qt@[i as int]@);
        let mut found = false;
        let mut j: usize = 0;
        while j < ct.len()
            invariant
                j <= ct@.len(),
                i < qt@.len(),
                c == char_views(ct@),
                found == exists|k: int| 0 <= k < j && has_sub(#[trigger] c[k], qt@[i as int]@),
            decreases ct.len() - j,
        {
            assert(c[j as int] == ct@[j as int]@);
            if vec_contains(&ct[j], &qt[i]) {
                found = true;
            }
            j = j + 1;
        }
        if found {
            n = n + 1;
        }
        i = i + 1;
    }
    assert(q.subrange(0, q.len() as int) =~= q);
    n
}

fn score_basis(q: &str, c: &str) -> (r: Option<ScoreBasis>)
    ensures
        r == basis_of(q@, c@),
        r matches Some(b) ==> basis_ok(b),
{
    if str_eq(c, q) {
        return Some(ScoreBasis::Exact);
    }
    if crate::text::str_contains(c, q) {
        let cb = c.as_bytes().len();
        proof {
            if c@.len() == 0 {
                let i = choose|i: int| crate::text::occurs_at(c@, q@, i);
                assert(q@ =~= c@);
            }
            assert(vstd::utf8::encode_utf8(c@) =~= vstd::utf8::encode_scalar(c@[0] as u32)
                + vstd::utf8::encode_utf8(c@.drop_first()));
            assert(vstd::utf8::encode_scalar(c@[0] as u32).len() > 0);
        }
        return Some(
            ScoreBasis::Substring { query_bytes: q.len(), candidate_bytes: cb },
        );
    }
    let qt = words_of(&chars_of(q));
    let ct = words_of(&chars_of(c));
    if qt.len() == 0 || ct.len() == 0 {
        return None;
    }
    let hits = count_matched(&qt, &ct);
    if hits == 0 {
        None
    } else {
        Some(ScoreBasis::Overlap { hits, words: qt.len() })
    }
}

proof fn lemma_product_fits(a: usize, b: usize)
    ensures
        a as int * b as int <= u128::MAX,
{
    let x = a as int;
    let y = b as int;
    assert(x * y <= 0xffff_ffff_ffff_ffff * 0xffff_ffff_ffff_ffff) by (nonlinear_arith)
        requires
            0 <= x <= 0xffff_ffff_ffff_ffff,
            0 <= y <= 0xffff_ffff_ffff_ffff,
    ;
}

fn kind_rank(b: ScoreBasis) -> (k: u8)
    ensures
        k == score_kind(b),
{
    match b {
        ScoreBasis::Exact => 2,
        ScoreBasis::Substring { .. } => 1,
        ScoreBasis::Overlap { .. } => 0,
    }
}

fn below(a: ScoreBasis, b: ScoreBasis) -> (r: bool)
    ensures
        r == scores_below(a, b),
{
    let ka = kind_rank(a);
    let kb = kind_rank(b);
    if ka != kb {
        return ka < kb;
    }
    match (a, b) {
        (
            ScoreBasis::Substring { query_bytes: q1, candidate_bytes: c1 },
            ScoreBasis::Substring { query_bytes: q2, candidate_bytes: c2 },
        ) => {
            proof {
                lemma_product_fits(q1, c2);
                lemma_product_fits(q2, c1);
            }
            let x = q1 as u128 * c2 as u128;
            let y = q2 as u128 * c1 as u128;
            x < y
        },
        (
            ScoreBasis::Overlap { hits: h1, words: n1 },
            ScoreBasis::Overlap { hits: h2, words: n2 },
        ) => {
            proof {
                lemma_product_fits(h1, n2);
                lemma_product_fits(h2, n1);
            }
            let x = h1 as u128 * n2 as u128;
            let y = h2 as u128 * n1 as u128;
            x < y
        },
        _ => false,
    }
}

proof fn lemma_insert_ranked_step(s: Seq<HitView>, h: HitView, j: int)
    requires
        0 <= j <= s.len(),
        forall|k: int| j <= k < s.len() ==> scores_below(#[trigger] s[k].3, h.3),
    ensures
        insert_ranked(s, h) == insert_ranked(s.subrange(0, j), h) + s.subrange(j, s.len() as int),
    decreases s.len() - j,
{
    if j < s.len() {
        let t = s.drop_last();
        assert(scores_below(s[s.len() - 1].3, h.3));
        lemma_insert_ranked_step(t, h, j);
        assert(t.subrange(0, j) =~= s.subrange(0, j));
        assert(s.subrange(j, s.len() as int) =~= t.subrange(j, t.len() as int).push(s.last()));
    } else {
        assert(s.subrange(0, j) =~= s);
    }
}

fn insert_hit(sorted: &mut Vec<DsQueryHit>, h: DsQueryHit)
    ensures
        hit_views(final(sorted)@) == insert_ranked(hit_views(old(sorted)@), hit_view(h)),
{
    let ghost s = hit_views(sorted@);
    let mut j: usize = sorted.len();
    while j > 0 && below(sorted[j - 1].basis, h.basis)
        invariant
            j <= sorted@.len(),
            s == hit_views(sorted@),
            forall|k: int| j <= k < s.len() ==> scores_below(#[trigger] s[k].3, h.basis),
        decreases j,
    {
        assert(s[j - 1] == hit_view(sorted@[j - 1]));
        j = j - 1;
    }
    proof {
        lemma_insert_ranked_step(s, hit_view(h), j as int);
        if j > 0 {
            assert(s[j - 1] == hit_view(sorted@[j - 1]));
            assert(s.subrange(0, j as int).drop_last() =~= s.subrange(0, j - 1));
        }
    }
    let ghost hv = hit_view(h);
    sorted.insert(j, h);
    assert(hit_views(sorted@) =~= s.subrange(0, j as int).push(hv) + s.subrange(j as int, s.len() as int));
}

fn rank(hits: Vec<DsQueryHit>) -> (r: Vec<DsQueryHit>)
    ensures
        hit_views(r@) == ranked(hit_views(hits@)),
{
    let ghost all = hit_views(hits@);
    let n = hits.len();
    let mut sorted: Vec<DsQueryHit> = Vec::new();
    let mut rest = hits;
    let mut taken: usize = 0;
    assert(hit_views(rest@) =~= all.subrange(0, all.len() as int));
    while rest.len() > 0
        invariant
            all.len() == n,
            taken + rest@.len() == all.len(),
            hit_views(rest@) == all.subrange(taken as int, all.len() as int),
            hit_views(sorted@) == ranked(all.subrange(0, taken as int)),
        decreases rest.len(),
    {
        let ghost r0 = rest@;
        let h = rest.remove(0);
        let ghost hv = hit_view(h);
        proof {
            assert(hit_views(r0)[0] == hv);
            assert(hv == all[taken as int]);
            assert(rest@ =~= r0.subrange(1, r0.len() as int));
            assert(hit_views(rest@) =~= hit_views(r0).subrange(1, r0.len() as int));
            assert(hit_views(rest@) =~= all.subrange(taken + 1, all.len() as int));
            assert(all.subrange(0, taken + 1).drop_last() =~= all.subrange(0, taken as int));
        }
        insert_hit(&mut sorted, h);
        taken = taken + 1;
    }
    assert(all.subrange(0, all.len() as int) =~= all);
    sorted
}

/// Looks `query` up among the design system's token refs (unless `kind`
/// is `"component"`) and component names (unless `kind` is `"token"`),
/// case-insensitively; returns the hits with a non-zero score, ranked
/// highest first (equal scores keep their order), at most `limit`.
pub fn handle_ds_query(ds: &DesignSystem, query: &str, limit: usize, kind: &str) -> (r: DsQueryResult)
    ensures
        r.query@ == query@,
        hit_views(r.hits@) == query_answer(*ds, query@, limit as nat, kind@),
        r.hits@.len() <= limit,
        forall|i: int, j: int|
            0 <= i < j < r.hits@.len() ==> !scores_below(#[trigger] r.hits@[i].basis, #[trigger] r.hits@[j].basis),
{
    let q = to_ascii_lowercase(query);
    let mut hits: Vec<DsQueryHit> = Vec::new();
    let ghost qv = q@;
    if !str_eq(kind, "component") {
        let refs = ds.tokens.all_refs();
        let mut i: usize = 0;
        while i < refs.len()
            invariant
                i <= refs@.len(),
                qv == q@,
                hit_views(hits@) == token_hits(*ds, qv, views(refs@).subrange(0, i as int)),
                forall|k: int| 0 <= k < hits@.len() ==> basis_ok(#[trigger] hits@[k].basis),
            decreases refs.len() - i,
        {
            let ghost pre = views(refs@).subrange(0, i + 1);
            assert(pre.drop_last() =~= views(refs@).subrange(0, i as int));
            assert(pre.last() == refs@[i as int]@);
            let r = refs[i].as_str();
            let lr = to_ascii_lowercase(r);
            match score_basis(q.as_str(), lr.as_str()) {
                Some(b) => {
                    let value = match ds.value_for_ref(r) {
                        Ok(v) => v,
                        Err(_) => String::new(),
                    };
                    proof {
                        reveal(shown_value);
                    }
                    let ghost before = hits@;
                    hits.push(DsQueryHit { kind: "token", reference: to_owned(r), value, basis: b });
                    assert(hit_views(hits@) =~= hit_views(before).push(hit_view(hits@.last())));
                },
                None => {},
            }
            i = i + 1;
        }
        assert(views(refs@).subrange(0, refs@.len() as int) =~= views(refs@));
    }
    let ghost after_tokens = hit_views(hits@);
    if !str_eq(kind, "token") {
        let names = ds.component_names();
        let mut i: usize = 0;
        while i < names.len()
            invariant
                i <= names@.len(),
                qv == q@,
                hit_views(hits@) == after_tokens + component_hits(qv, views(names@).subrange(0, i as int)),
                forall|k: int| 0 <= k < hits@.len() ==> basis_ok(#[trigger] hits@[k].basis),
            decreases names.len() - i,
        {
            let ghost pre = views(names@).subrange(0, i + 1);
            assert(pre.drop_last() =~= views(names@).subrange(0, i as int));
            assert(pre.last() == names@[i as int]@);
            let n = names[i].as_str();
            let ln = to_ascii_lowercase(n);
            match score_basis(q.as_str(), ln.as_str()) {
                Some(b) => {
                    let ghost before = hits@;
                    hits.push(DsQueryHit { kind: "component", reference: to_owned(n), value: to_owned(n), basis: b });
                    assert(hit_views(hits@) =~= hit_views(before).push(hit_view(hits@.last())));
                },
                None => {},
            }
            i = i + 1;
        }
        assert(views(names@).subrange(0, names@.len() as int) =~= views(names@));
    } else {
        assert(after_tokens =~= after_tokens + Seq::<HitView>::empty());
    }
    proof {
        reveal_strlit("token");
        reveal_strlit("component");
        assert(hit_views(hits@) =~= candidates(*ds, query@, kind@));
    }
    let ghost hv = hit_views(hits@);
    proof {
        assert forall|k: int| 0 <= k < hv.len() implies basis_ok(#[trigger] hv[k].3) by {
            assert(hv[k] == hit_view(hits@[k]));
        }
        lemma_ranked_in_order(hv);
    }
    let mut ranked_hits = rank(hits);
    let ghost before = ranked_hits@;
    ranked_hits.truncate(limit);
    proof {
        let rv = hit_views(before);
        assert(rv == ranked(hv));
        assert(ranked_order(rv));
        assert forall|i: int, j: int| 0 <= i < j < ranked_hits@.len() implies !scores_below(
            #[trigger] ranked_hits@[i].basis,
            #[trigger] ranked_hits@[j].basis,
        ) by {
            assert(ranked_hits@[i] == before[i] && ranked_hits@[j] == before[j]);
            assert(rv[i] == hit_view(before[i]) && rv[j] == hit_view(before[j]));
            assert(!scores_below(rv[i].3, rv[j].3));
        }
    }
    DsQueryResult { query: to_owned(query), hits: ranked_hits }
}

// ── every scoring candidate is searched ────────────────────────────────────

proof fn lemma_component_hits_has(q: Seq<char>, names: Seq<Seq<char>>, i: int)
    requires
        0 <= i < names.len(),
        basis_of(q, lower(names[i])) is Some,
    ensures
        component_hits(q, names).contains(
            ("component"@, names[i], names[i], basis_of(q, lower(names[i]))->Some_0),
        ),
    decreases names.len(),
{
    let r = component_hits(q, names);
    if i == names.len() - 1 {
        assert(names.last() == names[i]);
        assert(r[r.len() - 1] == r.last());
    } else {
        assert(names.drop_last()[i] == names[i]);
        lemma_component_hits_has(q, names.drop_last(), i);
        let prev = component_hits(q, names.drop_last());
        let h = ("component"@, names[i], names[i], basis_of(q, lower(names[i]))->Some_0);
        let k = choose|k: int| 0 <= k < prev.len() && prev[k] == h;
        assert(r[k] == prev[k]);
    }
}

proof fn lemma_token_hits_has(ds: DesignSystem, q: Seq<char>, refs: Seq<Seq<char>>, i: int)
    requires
        0 <= i < refs.len(),
        basis_of(q, lower(refs[i])) is Some,
    ensures
        token_hits(ds, q, refs).contains(
            ("token"@, refs[i], shown_value(ds.tokens@, refs[i]), basis_of(q, lower(refs[i]))->Some_0),
        ),
    decreases refs.len(),
{
    let r = token_hits(ds, q, refs);
    if i == refs.len() - 1 {
        assert(refs.last() == refs[i]);
        assert(r[r.len() - 1] == r.last());
    } else {
        assert(refs.drop_last()[i] == refs[i]);
        lemma_token_hits_has(ds, q, refs.drop_last(), i);
        let prev = token_hits(ds, q, refs.drop_last());
        let h = ("token"@, refs[i], shown_value(ds.tokens@, refs[i]), basis_of(q, lower(refs[i]))->Some_0);
        let k = choose|k: int| 0 <= k < prev.len() && prev[k] == h;
        assert(r[k] == prev[k]);
    }
}

proof fn lemma_insert_ranked_keeps(s: Seq<HitView>, h: HitView, x: HitView)
    requires
        s.contains(x) || x == h,
    ensures
        insert_ranked(s, h).contains(x),
    decreases s.len(),
{
    let r = insert_ranked(s, h);
    if s.len() == 0 {
        assert(r[0] == h);
    } else if scores_below(s.last().3, h.3) {
        if x == s.last() {
            assert(r[r.len() - 1] == x);
        } else {
            if s.contains(x) {
                let k = choose|k: int| 0 <= k < s.len() && s[k] == x;
                assert(k < s.len() - 1);
                assert(s.drop_last()[k] == x);
            }
            lemma_insert_ranked_keeps(s.drop_last(), h, x);
            let t = insert_ranked(s.drop_last(), h);
            let k = choose|k: int| 0 <= k < t.len() && t[k] == x;
            assert(r[k] == x);
        }
    } else {
        if x == h {
            assert(r[r.len() - 1] == h);
        } else {
            let k = choose|k: int| 0 <= k < s.len() && s[k] == x;
            assert(r[k] == x);
        }
    }
}

proof fn lemma_ranked_keeps(hits: Seq<HitView>, x: HitView)
    requires
        hits.contains(x),
    ensures
        ranked(hits).contains(x),
    decreases hits.len(),
{
    if x == hits.last() {
        lemma_insert_ranked_keeps(ranked(hits.drop_last()), hits.last(), x);
    } else {
        let k = choose|k: int| 0 <= k < hits.len() && hits[k] == x;
        assert(k < hits.len() - 1);
        assert(hits.drop_last()[k] == x);
        lemma_ranked_keeps(hits.drop_last(), x);
        lemma_insert_ranked_keeps(ranked(hits.drop_last()), hits.last(), x);
    }
}

/// Unless only tokens are asked for (kind `"token"`), every component
/// whose name scores for the query, both taken in lower case, is a
/// candidate with that score, and ranking keeps it; so `"any"` searches
/// components as well as tokens.
pub proof fn law_scoring_components_are_found(ds: DesignSystem, query: Seq<char>, kind: Seq<char>, i: int)
    requires
        kind != "token"@,
        0 <= i < keys_of(ds.components.items@).len(),
        basis_of(lower(query), lower(keys_of(ds.components.items@)[i])) is Some,
    ensures
        ({
            let n = keys_of(ds.components.items@)[i];
            let h = ("component"@, n, n, basis_of(lower(query), lower(n))->Some_0);
            candidates(ds, query, kind).contains(h) && ranked(candidates(ds, query, kind)).contains(h)
        }),
{
    let names = keys_of(ds.components.items@);
    let n = names[i];
    let h = ("component"@, n, n, basis_of(lower(query), lower(n))->Some_0);
    let q = lower(query);
    lemma_component_hits_has(q, names, i);
    let t = if kind != "component"@ {
        token_hits(ds, q, refs_of(ds.tokens@))
    } else {
        seq![]
    };
    let ch = component_hits(q, names);
    let all = candidates(ds, query, kind);
    assert(all == t + ch);
    let k = choose|k: int| 0 <= k < ch.len() && ch[k] == h;
    assert(all[t.len() + k] == h);
    lemma_ranked_keeps(all, h);
}

/// Unless only components are asked for (kind `"component"`), every token
/// ref that scores for the query, both taken in lower case, is a candidate
/// with that score and its shown value, and ranking keeps it.
pub proof fn law_scoring_tokens_are_found(ds: DesignSystem, query: Seq<char>, kind: Seq<char>, i: int)
    requires
        kind != "component"@,
        0 <= i < refs_of(ds.tokens@).len(),
        basis_of(lower(query), lower(refs_of(ds.tokens@)[i])) is Some,
    ensures
        ({
            let r = refs_of(ds.tokens@)[i];
            let h = ("token"@, r, shown_value(ds.tokens@, r), basis_of(lower(query), lower(r))->Some_0);
            candidates(ds, query, kind).contains(h) && ranked(candidates(ds, query, kind)).contains(h)
        }),
{
    let refs = refs_of(ds.tokens@);
    let r = refs[i];
    let q = lower(query);
    let h = ("token"@, r, shown_value(ds.tokens@, r), basis_of(q, lower(r))->Some_0);
    lemma_token_hits_has(ds, q, refs, i);
    let th = token_hits(ds, q, refs);
    let all = candidates(ds, query, kind);
    let k = choose|k: int| 0 <= k < th.len() && th[k] == h;
    assert(all[k] == h);
    lemma_ranked_keeps(all, h);
}

} // verus!
