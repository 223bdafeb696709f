//! tokens.json parser and lookup.
//!
//! The file groups tokens under five sections:
//!   color   — OKLCH strings (e.g. `"oklch(0.99 0 0)"`)
//!   space   — numeric px values
//!   radius  — numeric px values
//!   shadow  — CSS shadow strings
//!   typo    — typography objects (family / weight / size / lineHeight)
//!
//! `color`, `space`, `radius` and `shadow` entries are `{ "value": … }`
//! wrappers. The `space` block also carries a bare `base` key holding the
//! base grid in px; it is kept in [`Tokens::space_base`] and not listed as a
//! token.

use vstd::prelude::*;
use crate::ds::error::{DsError, DsFault};
use crate::json::{decimal_text, get, member, number_label, push_decimal, push_number_label, Decimal, Json};
use crate::sorted_keys::{insert_keyed, keyed_insert, keys_ascending, lemma_insert_ascending, text_less};
use crate::text::{chars_of, dec, push_char, push_dec, push_str, str_eq, string_from_range, to_owned};

verus! {

/// A single typography token.
#[derive(Debug)]
pub struct TypoSpec {
    pub family: String,
    pub weight: u32,
    pub size: Decimal,
    pub line_height: Decimal,
}

/// Uniform value type — tokens.json mixes scalar / string / object shapes.
#[derive(Debug)]
pub enum TokenValue {
    Color(String),
    Number(Decimal),
    Text(String),
    Typo(TypoSpec),
}

/// Parsed tokens.json. Each section lists `(key, value)` in ascending key
/// order, each key once.
#[derive(Debug)]
pub struct Tokens {
    pub version: String,
    pub space_base: u32,
    pub color: Vec<(String, TokenValue)>,
    pub space: Vec<(String, TokenValue)>,
    pub radius: Vec<(String, TokenValue)>,
    pub shadow: Vec<(String, TokenValue)>,
    pub typo: Vec<(String, TokenValue)>,
}

/// The contents of a [`Tokens`].
pub struct TokensModel {
    pub version: Seq<char>,
    pub space_base: u32,
    pub color: Seq<(String, TokenValue)>,
    pub space: Seq<(String, TokenValue)>,
    pub radius: Seq<(String, TokenValue)>,
    pub shadow: Seq<(String, TokenValue)>,
    pub typo: Seq<(String, TokenValue)>,
}

impl View for Tokens {
    type V = TokensModel;

    open spec fn view(&self) -> TokensModel {
        TokensModel {
            version: self.version@,
            space_base: self.space_base,
            color: self.color@,
            space: self.space@,
            radius: self.radius@,
            shadow: self.shadow@,
            typo: self.typo@,
        }
    }
}

// ── specification ──────────────────────────────────────────────────────────

/// What a scalar section's `value` must be.
pub enum Leaf {
    Color,
    Number,
    Text,
}

pub open spec fn malformed(detail: Seq<char>) -> DsFault {
    DsFault::Malformed { piece: "tokens.json"@, detail }
}

pub open spec fn leaf_value(kind: Leaf, v: Json) -> Result<TokenValue, DsFault> {
    match kind {
        Leaf::Color => match v {
            Json::Str(s) => Ok(TokenValue::Color(s)),
            _ => Err(malformed("color value must be a string"@)),
        },
        Leaf::Text => match v {
            Json::Str(s) => Ok(TokenValue::Text(s)),
            _ => Err(malformed("shadow value must be a string"@)),
        },
        Leaf::Number => match v {
            Json::Number(d) => Ok(TokenValue::Number(d)),
            _ => Err(malformed("numeric value expected"@)),
        },
    }
}

/// Entries of a `{ key: { "value": … } }` section, stopping at the first
/// malformed entry.
pub open spec fn scalar_entries(entries: Seq<(String, Json)>, name: Seq<char>, kind: Leaf) -> Result<
    Seq<(String, TokenValue)>,
    DsFault,
>
    decreases entries.len(),
{
    if entries.len() == 0 {
        Ok(seq![])
    } else {
        match scalar_entries(entries.drop_last(), name, kind) {
            Err(e) => Err(e),
            Ok(acc) => {
                let k = entries.last().0;
                match get(entries.last().1, "value"@) {
                    None => Err(malformed(name + "."@ + k@ + " is missing `value`"@)),
                    Some(x) => match leaf_value(kind, x) {
                        Err(e) => Err(e),
                        Ok(t) => Ok(keyed_insert(acc, k, t)),
                    },
                }
            },
        }
    }
}

/// A scalar section; absent or non-object sections are empty.
pub open spec fn scalar_section(section: Option<Json>, name: Seq<char>, kind: Leaf) -> Result<
    Seq<(String, TokenValue)>,
    DsFault,
> {
    match section {
        Some(Json::Object(es)) => scalar_entries(es@, name, kind),
        _ => Ok(seq![]),
    }
}

/// An unsigned integer number, as `Value::as_u64` reads it.
pub open spec fn as_u64(d: Decimal) -> Option<u64> {
    if d.integer && !d.negative && d.exponent == 0 {
        Some(d.digits)
    } else {
        None
    }
}

/// The `space` section's entries and its base grid.
pub open spec fn space_entries(entries: Seq<(String, Json)>) -> Result<
    (u32, Seq<(String, TokenValue)>),
    DsFault,
>
    decreases entries.len(),
{
    if entries.len() == 0 {
        Ok((4u32, seq![]))
    } else {
        match space_entries(entries.drop_last()) {
            Err(e) => Err(e),
            Ok((base, acc)) => {
                let k = entries.last().0;
                let v = entries.last().1;
                if k@ == "base"@ {
                    match v {
                        Json::Number(d) => match as_u64(d) {
                            Some(n) => Ok(
                                (if n <= 0xffff_ffff { n as u32 } else { 4u32 }, acc),
                            ),
                            None => Ok((base, acc)),
                        },
                        _ => Ok((base, acc)),
                    }
                } else {
                    match get(v, "value"@) {
                        None => Err(malformed("space"@ + "."@ + k@ + " is missing `value`"@)),
                        Some(x) => match leaf_value(Leaf::Number, x) {
                            Err(e) => Err(e),
                            Ok(t) => Ok((base, keyed_insert(acc, k, t))),
                        },
                    }
                }
            },
        }
    }
}

pub open spec fn space_section(section: Option<Json>) -> Result<
    (u32, Seq<(String, TokenValue)>),
    DsFault,
> {
    match section {
        Some(Json::Object(es)) => space_entries(es@),
        _ => Ok((4u32, seq![])),
    }
}

/// A typography object, or why it is not one.
pub open spec fn typo_spec_of(v: Json) -> Result<TypoSpec, Seq<char>> {
    match v {
        Json::Object(es) => match member(es@, "family"@) {
            None => Err("missing field `family`"@),
            Some(Json::Str(family)) => match member(es@, "weight"@) {
                None => Err("missing field `weight`"@),
                Some(Json::Number(w)) => if as_u64(w) matches Some(n) && n <= 0xffff_ffff {
                    match member(es@, "size"@) {
                        None => Err("missing field `size`"@),
                        Some(Json::Number(size)) => match member(es@, "lineHeight"@) {
                            None => Err("missing field `lineHeight`"@),
                            Some(Json::Number(lh)) => Ok(
                                TypoSpec {
                                    family,
                                    weight: w.digits as u32,
                                    size,
                                    line_height: lh,
                                },
                            ),
                            _ => Err("invalid type for `lineHeight`, expected a number"@),
                        },
                        _ => Err("invalid type for `size`, expected a number"@),
                    }
                } else {
                    Err("invalid type for `weight`, expected u32"@)
                },
                _ => Err("invalid type for `weight`, expected u32"@),
            },
            _ => Err("invalid type for `family`, expected a string"@),
        },
        _ => Err("invalid type: expected struct TypoSpec"@),
    }
}

pub open spec fn typo_entries(entries: Seq<(String, Json)>) -> Result<
    Seq<(String, TokenValue)>,
    DsFault,
>
    decreases entries.len(),
{
    if entries.len() == 0 {
        Ok(seq![])
    } else {
        match typo_entries(entries.drop_last()) {
            Err(e) => Err(e),
            Ok(acc) => {
                let k = entries.last().0;
                match typo_spec_of(entries.last().1) {
                    Err(why) => Err(malformed("typo."@ + k@ + ": "@ + why)),
                    Ok(t) => Ok(keyed_insert(acc, k, TokenValue::Typo(t))),
                }
            },
        }
    }
}

pub open spec fn typo_section(section: Option<Json>) -> Result<Seq<(String, TokenValue)>, DsFault> {
    match section {
        Some(Json::Object(es)) => typo_entries(es@),
        _ => Ok(seq![]),
    }
}

/// The parsed tokens of a tokens.json document; sections are read in the
/// order color, radius, shadow, space, typo and the first malformed entry
/// is reported.
pub open spec fn parse_tokens(json: Json) -> Result<TokensModel, DsFault> {
    if !(json is Object) {
        Err(malformed("root must be an object"@))
    } else {
        let version = match get(json, "version"@) {
            Some(Json::Str(s)) => s@,
            _ => "0.0.0"@,
        };
        match scalar_section(get(json, "color"@), "color"@, Leaf::Color) {
            Err(e) => Err(e),
            Ok(color) => match scalar_section(get(json, "radius"@), "radius"@, Leaf::Number) {
                Err(e) => Err(e),
                Ok(radius) => match scalar_section(get(json, "shadow"@), "shadow"@, Leaf::Text) {
                    Err(e) => Err(e),
                    Ok(shadow) => match space_section(get(json, "space"@)) {
                        Err(e) => Err(e),
                        Ok((space_base, space)) => match typo_section(get(json, "typo"@)) {
                            Err(e) => Err(e),
                            Ok(typo) => Ok(
                                TokensModel { version, space_base, color, space, radius, shadow, typo },
                            ),
                        },
                    },
                },
            },
        }
    }
}

/// Every section lists its keys in ascending order, each once.
pub open spec fn tokens_wf(t: TokensModel) -> bool {
    keys_ascending(t.color) && keys_ascending(t.space) && keys_ascending(t.radius) && keys_ascending(
        t.shadow,
    ) && keys_ascending(t.typo)
}

/// A ref split at its first `.` into section and key.
pub open spec fn split_ref(r: Seq<char>) -> Option<(Seq<char>, Seq<char>)> {
    if exists|i: int| 0 <= i < r.len() && r[i] == '.' {
        let i = choose|i: int|
            0 <= i < r.len() && r[i] == '.' && forall|j: int| 0 <= j < i ==> r[j] != '.';
        Some((r.subrange(0, i), r.subrange(i + 1, r.len() as int)))
    } else {
        None
    }
}

/// The value of the first entry with the given key.
pub open spec fn lookup(entries: Seq<(String, TokenValue)>, key: Seq<char>) -> Option<TokenValue>
    decreases entries.len(),
{
    if entries.len() == 0 {
        None
    } else if entries[0].0@ == key {
        Some(entries[0].1)
    } else {
        lookup(entries.drop_first(), key)
    }
}

/// The entries of a named section.
pub open spec fn section_of(t: TokensModel, name: Seq<char>) -> Option<Seq<(String, TokenValue)>> {
    if name == "color"@ {
        Some(t.color)
    } else if name == "space"@ {
        Some(t.space)
    } else if name == "radius"@ {
        Some(t.radius)
    } else if name == "shadow"@ {
        Some(t.shadow)
    } else if name == "typo"@ {
        Some(t.typo)
    } else {
        None
    }
}

/// The token a dotted ref (`"color.bg.base"`) names: the first segment
/// selects the section, the rest is the key within it.
pub open spec fn token_at(t: TokensModel, r: Seq<char>) -> Option<TokenValue> {
    match split_ref(r) {
        Some((sec, key)) => match section_of(t, sec) {
            Some(entries) => lookup(entries, key),
            None => None,
        },
        None => None,
    }
}

/// `section.key` for every key of a section, in order.
pub open spec fn section_refs(name: Seq<char>, entries: Seq<(String, TokenValue)>) -> Seq<Seq<char>>
    decreases entries.len(),
{
    if entries.len() == 0 {
        seq![]
    } else {
        section_refs(name, entries.drop_last()).push(name + "."@ + entries.last().0@)
    }
}

/// Every valid ref, grouped by section in the order color, space, radius,
/// shadow, typo.
pub open spec fn refs_of(t: TokensModel) -> Seq<Seq<char>> {
    section_refs("color"@, t.color) + section_refs("space"@, t.space) + section_refs(
        "radius"@,
        t.radius,
    ) + section_refs("shadow"@, t.shadow) + section_refs("typo"@, t.typo)
}

/// How a token value is shown in prompts.
pub open spec fn token_text(v: TokenValue) -> Seq<char> {
    match v {
        TokenValue::Color(s) => s@,
        TokenValue::Text(s) => s@,
        TokenValue::Number(n) => number_label(n),
        TokenValue::Typo(t) => t.family@ + "/"@ + dec(t.weight as nat) + " "@ + decimal_text(t.size)
            + "px/"@ + decimal_text(t.line_height),
    }
}

// ── a malformed entry ends the section ─────────────────────────────────────

proof fn lemma_scalar_error_stays(entries: Seq<(String, Json)>, name: Seq<char>, kind: Leaf, n: int)
    requires
        0 <= n <= entries.len(),
        scalar_entries(entries.subrange(0, n), name, kind) is Err,
    ensures
        scalar_entries(entries, name, kind) == scalar_entries(entries.subrange(0, n), name, kind),
    decreases entries.len(),
{
    if n == entries.len() {
        assert(entries.subrange(0, n) =~= entries);
    } else {
        assert(entries.drop_last().subrange(0, n) =~= entries.subrange(0, n));
        lemma_scalar_error_stays(entries.drop_last(), name, kind, n);
    }
}

proof fn lemma_space_error_stays(entries: Seq<(String, Json)>, n: int)
    requires
        0 <= n <= entries.len(),
        space_entries(entries.subrange(0, n)) is Err,
    ensures
        space_entries(entries) == space_entries(entries.subrange(0, n)),
    decreases entries.len(),
{
    if n == entries.len() {
        assert(entries.subrange(0, n) =~= entries);
    } else {
        assert(entries.drop_last().subrange(0, n) =~= entries.subrange(0, n));
        lemma_space_error_stays(entries.drop_last(), n);
    }
}

proof fn lemma_typo_error_stays(entries: Seq<(String, Json)>, n: int)
    requires
        0 <= n <= entries.len(),
        typo_entries(entries.subrange(0, n)) is Err,
    ensures
        typo_entries(entries) == typo_entries(entries.subrange(0, n)),
    decreases entries.len(),
{
    if n == entries.len() {
        assert(entries.subrange(0, n) =~= entries);
    } else {
        assert(entries.drop_last().subrange(0, n) =~= entries.subrange(0, n));
        lemma_typo_error_stays(entries.drop_last(), n);
    }
}

// ── executable parser ──────────────────────────────────────────────────────

fn copy_str(s: &String) -> (r: String)
    ensures
        r == *s,
{
    s.clone()
}

fn leaf(kind: &Leaf, v: &Json) -> (r: Result<TokenValue, DsError>)
    ensures
        match leaf_value(*kind, *v) {
            Ok(t) => r matches Ok(u) && u == t,
            Err(f) => r matches Err(e) && e@ == f,
        },
{
    match kind {
        Leaf::Color => match v {
            Json::Str(s) => Ok(TokenValue::Color(copy_str(s))),
            _ => Err(
                DsError::Malformed {
                    piece: "tokens.json",
                    detail: to_owned("color value must be a string"),
                },
            ),
        },
        Leaf::Text => match v {
            Json::Str(s) => Ok(TokenValue::Text(copy_str(s))),
            _ => Err(
                DsError::Malformed {
                    piece: "tokens.json",
                    detail: to_owned("shadow value must be a string"),
                },
            ),
        },
        Leaf::Number => match v {
            Json::Number(d) => Ok(TokenValue::Number(*d)),
            _ => Err(
                DsError::Malformed { piece: "tokens.json", detail: to_owned("numeric value expected") },
            ),
        },
    }
}

fn missing_value(name: &str, k: &str) -> (e: DsError)
    ensures
        e@ == malformed(name@ + "."@ + k@ + " is missing `value`"@),
{
    let mut d = String::new();
    push_str(&mut d, name);
    push_str(&mut d, ".");
    push_str(&mut d, k);
    push_str(&mut d, " is missing `value`");
    DsError::Malformed { piece: "tokens.json", detail: d }
}

#[verifier::loop_isolation(false)]
fn parse_scalar_section(section: Option<&Json>, name: &str, kind: Leaf) -> (r: Result<
    Vec<(String, TokenValue)>,
    DsError,
>)
    ensures
        match scalar_section(
            match section {
                Some(j) => Some(*j),
                None => None,
            },
            name@,
            kind,
        ) {
            Ok(es) => r matches Ok(v) && v@ == es,
            Err(f) => r matches Err(e) && e@ == f,
        },
{
    let entries = match section {
        Some(Json::Object(es)) => es,
        _ => {
            return Ok(Vec::new());
        },
    };
    let mut out: Vec<(String, TokenValue)> = Vec::new();
    let mut i: usize = 0;
    while i < entries.len()
        invariant
            i <= entries@.len(),
            scalar_entries(entries@.subrange(0, i as int), name@, kind) == Ok::<
                Seq<(String, TokenValue)>,
                DsFault,
            >(out@),
        decreases entries.len() - i,
    {
        let ghost pre = entries@.subrange(0, i + 1);
        assert(pre.drop_last() =~= entries@.subrange(0, i as int));
        assert(pre.last() == entries@[i as int]);
        let k = &entries[i].0;
        match entries[i].1.get("value") {
            None => {
                proof {
                    lemma_scalar_error_stays(entries@, name@, kind, i + 1);
                }
                return Err(missing_value(name, k.as_str()));
            },
            Some(x) => match leaf(&kind, x) {
                Err(e) => {
                    proof {
                        lemma_scalar_error_stays(entries@, name@, kind, i + 1);
                    }
                    return Err(e);
                },
                Ok(t) => {
                    insert_keyed(&mut out, copy_str(k), t);
                },
            },
        }
        i = i + 1;
    }
    assert(entries@.subrange(0, entries@.len() as int) =~= entries@);
    Ok(out)
}

fn number_as_u64(d: &Decimal) -> (r: Option<u64>)
    ensures
        r == as_u64(*d),
{
    if d.integer && !d.negative && d.exponent == 0 {
        Some(d.digits)
    } else {
        None
    }
}

#[verifier::loop_isolation(false)]
fn parse_space_section(section: Option<&Json>) -> (r: Result<
    (u32, Vec<(String, TokenValue)>),
    DsError,
>)
    ensures
        match space_section(
            match section {
                Some(j) => Some(*j),
                None => None,
            },
        ) {
            Ok((b, es)) => r matches Ok((base, v)) && base == b && v@ == es,
            Err(f) => r matches Err(e) && e@ == f,
        },
{
    let entries = match section {
        Some(Json::Object(es)) => es,
        _ => {
            return Ok((4, Vec::new()));
        },
    };
    let mut base: u32 = 4;
    let mut out: Vec<(String, TokenValue)> = Vec::new();
    let mut i: usize = 0;
    while i < entries.len()
        invariant
            i <= entries@.len(),
            space_entries(entries@.subrange(0, i as int)) == Ok::<
                (u32, Seq<(String, TokenValue)>),
                DsFault,
            >((base, out@)),
        decreases entries.len() - i,
    {
        let ghost pre = entries@.subrange(0, i + 1);
        assert(pre.drop_last() =~= entries@.subrange(0, i as int));
        assert(pre.last() == entries@[i as int]);
        let k = &entries[i].0;
        let v = &entries[i].1;
        if str_eq(k.as_str(), "base") {
            match v {
                Json::Number(d) => match number_as_u64(d) {
                    Some(n) => {
                        base = if n <= 0xffff_ffff {
                            n as u32
                        } else {
                            4
                        };
                    },
                    None => {},
                },
                _ => {},
            }
        } else {
            match v.get("value") {
                None => {
                    proof {
                        lemma_space_error_stays(entries@, i + 1);
                    }
                    return Err(missing_value("space", k.as_str()));
                },
                Some(x) => match leaf(&Leaf::Number, x) {
                    Err(e) => {
                        proof {
                            lemma_space_error_stays(entries@, i + 1);
                        }
                        return Err(e);
                    },
                    Ok(t) => {
                        insert_keyed(&mut out, copy_str(k), t);
                    },
                },
            }
        }
        i = i + 1;
    }
    assert(entries@.subrange(0, entries@.len() as int) =~= entries@);
    Ok((base, out))
}

fn typo_spec(v: &Json) -> (r: Result<TypoSpec, &'static str>)
    ensures
        match typo_spec_of(*v) {
            Ok(t) => r matches Ok(u) && u == t,
            Err(why) => r matches Err(w) && w@ == why,
        },
{
    match v {
        Json::Object(_) => {},
        _ => {
            return Err("invalid type: expected struct TypoSpec");
        },
    }
    let family = match v.get("family") {
        None => {
            return Err("missing field `family`");
        },
        Some(Json::Str(f)) => copy_str(f),
        Some(_) => {
            return Err("invalid type for `family`, expected a string");
        },
    };
    let weight = match v.get("weight") {
        None => {
            return Err("missing field `weight`");
        },
        Some(Json::Number(w)) => match number_as_u64(w) {
            Some(n) => {
                if n <= 0xffff_ffff {
                    n as u32
                } else {
                    return Err("invalid type for `weight`, expected u32");
                }
            },
            None => {
                return Err("invalid type for `weight`, expected u32");
            },
        },
        Some(_) => {
            return Err("invalid type for `weight`, expected u32");
        },
    };
    let size = match v.get("size") {
        None => {
            return Err("missing field `size`");
        },
        Some(Json::Number(s)) => *s,
        Some(_) => {
            return Err("invalid type for `size`, expected a number");
        },
    };
    let line_height = match v.get("lineHeight") {
        None => {
            return Err("missing field `lineHeight`");
        },
        Some(Json::Number(l)) => *l,
        Some(_) => {
            return Err("invalid type for `lineHeight`, expected a number");
        },
    };
    Ok(TypoSpec { family, weight, size, line_height })
}

#[verifier::loop_isolation(false)]
fn parse_typo_section(section: Option<&Json>) -> (r: Result<Vec<(String, TokenValue)>, DsError>)
    ensures
        match typo_section(
            match section {
                Some(j) => Some(*j),
                None => None,
            },
        ) {
            Ok(es) => r matches Ok(v) && v@ == es,
            Err(f) => r matches Err(e) && e@ == f,
        },
{
    let entries = match section {
        Some(Json::Object(es)) => es,
        _ => {
            return Ok(Vec::new());
        },
    };
    let mut out: Vec<(String, TokenValue)> = Vec::new();
    let mut i: usize = 0;
    while i < entries.len()
        invariant
            i <= entries@.len(),
            typo_entries(entries@.subrange(0, i as int)) == Ok::<
                Seq<(String, TokenValue)>,
                DsFault,
            >(out@),
        decreases entries.len() - i,
    {
        let ghost pre = entries@.subrange(0, i + 1);
        assert(pre.drop_last() =~= entries@.subrange(0, i as int));
        assert(pre.last() == entries@[i as int]);
        let k = &entries[i].0;
        match typo_spec(&entries[i].1) {
            Err(why) => {
                let mut d = String::new();
                push_str(&mut d, "typo.");
                push_str(&mut d, k.as_str());
                push_str(&mut d, ": ");
                push_str(&mut d, why);
                proof {
                    lemma_typo_error_stays(entries@, i + 1);
                }
                return Err(DsError::Malformed { piece: "tokens.json", detail: d });
            },
            Ok(t) => {
                insert_keyed(&mut out, copy_str(k), TokenValue::Typo(t));
            },
        }
        i = i + 1;
    }
    assert(entries@.subrange(0, entries@.len() as int) =~= entries@);
    Ok(out)
}

/// Index of the first `.` in `v`.
fn first_dot(v: &Vec<char>) -> (r: Option<usize>)
    ensures
        match r {
            Some(i) => i < v@.len() && v@[i as int] == '.' && forall|j: int|
                0 <= j < i ==> v@[j] != '.',
            None => forall|j: int| 0 <= j < v@.len() ==> v@[j] != '.',
        },
{
    let mut i: usize = 0;
    while i < v.len()
        invariant
            i <= v@.len(),
            forall|j: int| 0 <= j < i ==> v@[j] != '.',
        decreases v.len() - i,
    {
        if v[i] == '.' {
            return Some(i);
        }
        i = i + 1;
    }
    None
}

fn find_entry<'a>(entries: &'a Vec<(String, TokenValue)>, key: &str) -> (r: Option<&'a TokenValue>)
    ensures
        match r {
            Some(t) => lookup(entries@, key@) == Some(*t),
            None => lookup(entries@, key@) is None,
        },
{
    let mut i: usize = 0;
    assert(entries@.skip(0) =~= entries@);
    while i < entries.len()
        invariant
            i <= entries@.len(),
            lookup(entries@, key@) == lookup(entries@.skip(i as int), key@),
        decreases entries.len() - i,
    {
        let ghost rest = entries@.skip(i as int);
        assert(rest[0] == entries@[i as int]);
        if str_eq(entries[i].0.as_str(), key) {
            return Some(&entries[i].1);
        }
        assert(rest.drop_first() =~= entries@.skip(i + 1));
        i = i + 1;
    }
    assert(entries@.skip(i as int).len() == 0);
    None
}

fn push_section_refs(out: &mut Vec<String>, name: &str, entries: &Vec<(String, TokenValue)>)
    ensures
        final(out)@.map_values(|s: String| s@) == old(out)@.map_values(|s: String| s@)
            + section_refs(name@, entries@),
{
    let ghost start = out@.map_values(|s: String| s@);
    let mut i: usize = 0;
    assert(start + section_refs(name@, entries@.subrange(0, 0)) =~= start);
    while i < entries.len()
        invariant
            i <= entries@.len(),
            out@.map_values(|s: String| s@) == start + section_refs(
                name@,
                entries@.subrange(0, i as int),
            ),
        decreases entries.len() - i,
    {
        let ghost pre = entries@.subrange(0, i + 1);
        assert(pre.drop_last() =~= entries@.subrange(0, i as int));
        assert(pre.last() == entries@[i as int]);
        let mut r = String::new();
        push_str(&mut r, name);
        push_str(&mut r, ".");
        push_str(&mut r, entries[i].0.as_str());
        let ghost before = out@;
        out.push(r);
        assert(out@.map_values(|s: String| s@) =~= before.map_values(|s: String| s@).push(r@));
        i = i + 1;
    }
    assert(entries@.subrange(0, entries@.len() as int) =~= entries@);
}

impl TokenValue {
    /// The string form used in prompts and critique snippets: colours and
    /// shadows verbatim, whole numbers as integers, typography as
    /// `family/weight sizepx/lineHeight`.
    pub fn display(&self) -> (r: String)
        ensures
            r@ == token_text(*self),
    {
        match self {
            TokenValue::Color(s) => to_owned(s.as_str()),
            TokenValue::Text(s) => to_owned(s.as_str()),
            TokenValue::Number(n) => {
                let mut r = String::new();
                push_number_label(&mut r, n);
                assert(r@ =~= token_text(*self));
                r
            },
            TokenValue::Typo(t) => {
                let mut r = String::new();
                push_str(&mut r, t.family.as_str());
                push_str(&mut r, "/");
                push_dec(&mut r, t.weight as u64);
                push_str(&mut r, " ");
                push_decimal(&mut r, &t.size);
                push_str(&mut r, "px/");
                push_decimal(&mut r, &t.line_height);
                assert(r@ =~= token_text(*self));
                r
            },
        }
    }
}

impl Tokens {
    /// Parse a tokens.json document.
    pub fn parse(json: &Json) -> (r: Result<Tokens, DsError>)
        ensures
            match parse_tokens(*json) {
                Ok(m) => r matches Ok(t) && t@ == m,
                Err(f) => r matches Err(e) && e@ == f,
            },
            r matches Ok(t) ==> tokens_wf(t@),
    {
        proof {
            lemma_parsed_wf(*json);
        }
        match json {
            Json::Object(_) => {},
            _ => {
                return Err(
                    DsError::Malformed {
                        piece: "tokens.json",
                        detail: to_owned("root must be an object"),
                    },
                );
            },
        }
        let version = match json.get("version") {
            Some(Json::Str(s)) => to_owned(s.as_str()),
            _ => to_owned("0.0.0"),
        };
        let color = parse_scalar_section(json.get("color"), "color", Leaf::Color)?;
        let radius = parse_scalar_section(json.get("radius"), "radius", Leaf::Number)?;
        let shadow = parse_scalar_section(json.get("shadow"), "shadow", Leaf::Text)?;
        let (space_base, space) = parse_space_section(json.get("space"))?;
        let typo = parse_typo_section(json.get("typo"))?;
        Ok(Tokens { version, space_base, color, space, radius, shadow, typo })
    }

    /// Lookup a token by dotted ref (e.g. `"color.bg.base"` or
    /// `"typo.title.lg"`): the first segment selects the section, the rest
    /// is the key within it.
    pub fn get(&self, token_ref: &str) -> (r: Option<&TokenValue>)
        ensures
            match r {
                Some(t) => token_at(self@, token_ref@) == Some(*t),
                None => token_at(self@, token_ref@) is None,
            },
    {
        let v = chars_of(token_ref);
        let dot = match first_dot(&v) {
            Some(i) => i,
            None => {
                return None;
            },
        };
        let section = string_from_range(&v, 0, dot);
        let rest = string_from_range(&v, dot + 1, v.len());
        proof {
            let ghost i = choose|i: int|
                0 <= i < v@.len() && v@[i] == '.' && forall|j: int| 0 <= j < i ==> v@[j] != '.';
            assert(i == dot) by {
                if i < dot {
                    assert(v@[i] != '.');
                } else if i > dot {
                    assert(v@[dot as int] != '.');
                }
            }
        }
        let s = section.as_str();
        if str_eq(s, "color") {
            find_entry(&self.color, rest.as_str())
        } else if str_eq(s, "space") {
            find_entry(&self.space, rest.as_str())
        } else if str_eq(s, "radius") {
            find_entry(&self.radius, rest.as_str())
        } else if str_eq(s, "shadow") {
            find_entry(&self.shadow, rest.as_str())
        } else if str_eq(s, "typo") {
            find_entry(&self.typo, rest.as_str())
        } else {
            None
        }
    }

    /// All valid ref strings, grouped by section, in stable order.
    pub fn all_refs(&self) -> (r: Vec<String>)
        ensures
            r@.map_values(|s: String| s@) == refs_of(self@),
            tokens_wf(self@) ==> r@.map_values(|s: String| s@).no_duplicates(),
    {
        proof {
            if tokens_wf(self@) {
                law_refs_are_distinct(self@);
            }
        }
        let mut out: Vec<String> = Vec::new();
        assert(out@.map_values(|s: String| s@) =~= Seq::<Seq<char>>::empty());
        push_section_refs(&mut out, "color", &self.color);
        push_section_refs(&mut out, "space", &self.space);
        push_section_refs(&mut out, "radius", &self.radius);
        push_section_refs(&mut out, "shadow", &self.shadow);
        push_section_refs(&mut out, "typo", &self.typo);
        assert(out@.map_values(|s: String| s@) =~= refs_of(self@));
        out
    }
}


// ── refs and lookups agree ─────────────────────────────────────────────────

proof fn lemma_lookup_some(entries: Seq<(String, TokenValue)>, key: Seq<char>)
    ensures
        lookup(entries, key) is Some <==> exists|k: int| 0 <= k < entries.len() && #[trigger] entries[k].0@ == key,
    decreases entries.len(),
{
    if entries.len() > 0 {
        lemma_lookup_some(entries.drop_first(), key);
        if lookup(entries.drop_first(), key) is Some {
            let k = choose|k: int| 0 <= k < entries.drop_first().len() && #[trigger] entries.drop_first()[k].0@ == key;
            assert(entries[k + 1].0@ == key);
        }
        if exists|k: int| 0 <= k < entries.len() && #[trigger] entries[k].0@ == key {
            let k = choose|k: int| 0 <= k < entries.len() && #[trigger] entries[k].0@ == key;
            if k > 0 {
                assert(entries.drop_first()[k - 1].0@ == key);
            }
        }
    }
}

proof fn lemma_section_refs_has(name: Seq<char>, entries: Seq<(String, TokenValue)>, x: Seq<char>)
    ensures
        section_refs(name, entries).contains(x) <==> exists|k: int|
            0 <= k < entries.len() && x == name + "."@ + (#[trigger] entries[k]).0@,
    decreases entries.len(),
{
    if entries.len() > 0 {
        let prev = entries.drop_last();
        lemma_section_refs_has(name, prev, x);
        let sr = section_refs(name, entries);
        assert(sr == section_refs(name, prev).push(name + "."@ + entries.last().0@));
        if sr.contains(x) {
            let i = choose|i: int| 0 <= i < sr.len() && sr[i] == x;
            if i < section_refs(name, prev).len() {
                assert(section_refs(name, prev)[i] == x);
                let k = choose|k: int| 0 <= k < prev.len() && x == name + "."@ + (#[trigger] prev[k]).0@;
                assert(entries[k] == prev[k]);
            } else {
                assert(entries[entries.len() - 1] == entries.last());
            }
        }
        if exists|k: int| 0 <= k < entries.len() && x == name + "."@ + (#[trigger] entries[k]).0@ {
            let k = choose|k: int| 0 <= k < entries.len() && x == name + "."@ + (#[trigger] entries[k]).0@;
            if k < entries.len() - 1 {
                assert(prev[k] == entries[k]);
                assert(section_refs(name, prev).contains(x));
                let i = choose|i: int| 0 <= i < section_refs(name, prev).len() && section_refs(name, prev)[i] == x;
                assert(sr[i] == x);
            } else {
                assert(sr[sr.len() - 1] == x);
            }
        }
    }
}

proof fn lemma_split_joined(name: Seq<char>, key: Seq<char>)
    requires
        forall|j: int| 0 <= j < name.len() ==> name[j] != '.',
    ensures
        split_ref(name + "."@ + key) == Some((name, key)),
{
    reveal_strlit(".");
    let r = name + "."@ + key;
    let n = name.len() as int;
    assert(r[n] == '.');
    assert(forall|j: int| 0 <= j < n ==> r[j] == name[j]);
    let i = choose|i: int| 0 <= i < r.len() && r[i] == '.' && forall|j: int| 0 <= j < i ==> r[j] != '.';
    assert(0 <= n < r.len() && r[n] == '.' && forall|j: int| 0 <= j < n ==> r[j] != '.');
    assert(i == n) by {
        if i < n {
            assert(r[i] == name[i]);
        } else if i > n {
            assert(r[n] != '.');
        }
    }
    assert(r.subrange(0, n) =~= name);
    assert(r.subrange(n + 1, r.len() as int) =~= key);
}

proof fn lemma_first_dot(r: Seq<char>, i: int)
    requires
        0 <= i < r.len(),
        r[i] == '.',
    ensures
        exists|m: int| 0 <= m < r.len() && r[m] == '.' && forall|j: int| 0 <= j < m ==> r[j] != '.',
    decreases i,
{
    if exists|j: int| 0 <= j < i && r[j] == '.' {
        let j = choose|j: int| 0 <= j < i && r[j] == '.';
        lemma_first_dot(r, j);
    } else {
        assert(forall|j: int| 0 <= j < i ==> r[j] != '.');
    }
}

proof fn lemma_split_rejoins(r: Seq<char>)
    requires
        split_ref(r) is Some,
    ensures
        r == split_ref(r).unwrap().0 + "."@ + split_ref(r).unwrap().1,
        forall|j: int| 0 <= j < split_ref(r).unwrap().0.len() ==> split_ref(r).unwrap().0[j] != '.',
{
    reveal_strlit(".");
    let d = choose|d: int| 0 <= d < r.len() && r[d] == '.';
    lemma_first_dot(r, d);
    let i = choose|i: int| 0 <= i < r.len() && r[i] == '.' && forall|j: int| 0 <= j < i ==> r[j] != '.';
    let sec = r.subrange(0, i);
    let key = r.subrange(i + 1, r.len() as int);
    assert(split_ref(r) == Some((sec, key)));
    assert(r =~= sec + "."@ + key);
}

proof fn lemma_no_dots()
    ensures
        forall|j: int| 0 <= j < "color"@.len() ==> "color"@[j] != '.',
        forall|j: int| 0 <= j < "space"@.len() ==> "space"@[j] != '.',
        forall|j: int| 0 <= j < "radius"@.len() ==> "radius"@[j] != '.',
        forall|j: int| 0 <= j < "shadow"@.len() ==> "shadow"@[j] != '.',
        forall|j: int| 0 <= j < "typo"@.len() ==> "typo"@[j] != '.',
        "space"@ != "color"@,
        "radius"@ != "color"@ && "radius"@ != "space"@,
        "shadow"@ != "color"@ && "shadow"@ != "space"@ && "shadow"@ != "radius"@,
        "typo"@ != "color"@ && "typo"@ != "space"@ && "typo"@ != "radius"@ && "typo"@ != "shadow"@,
{
    reveal_strlit("color");
    reveal_strlit("space");
    reveal_strlit("radius");
    reveal_strlit("shadow");
    reveal_strlit("typo");
    assert("space"@[0] != "color"@[0]);
    assert("radius"@.len() != "color"@.len() && "radius"@.len() != "space"@.len());
    assert("shadow"@[0] != "color"@[0] && "shadow"@[1] != "space"@[1] && "shadow"@[0] != "radius"@[0]);
    assert("typo"@.len() != "color"@.len() && "typo"@.len() != "space"@.len());
    assert("typo"@.len() != "radius"@.len() && "typo"@.len() != "shadow"@.len());
}

proof fn lemma_in_section(t: TokensModel, name: Seq<char>, entries: Seq<(String, TokenValue)>, r: Seq<char>)
    requires
        section_of(t, name) == Some(entries),
        forall|j: int| 0 <= j < name.len() ==> name[j] != '.',
    ensures
        section_refs(name, entries).contains(r) ==> token_at(t, r) is Some,
{
    if section_refs(name, entries).contains(r) {
        lemma_section_refs_has(name, entries, r);
        let k = choose|k: int| 0 <= k < entries.len() && r == name + "."@ + (#[trigger] entries[k]).0@;
        lemma_split_joined(name, entries[k].0@);
        lemma_lookup_some(entries, entries[k].0@);
    }
}

proof fn lemma_resolved_is_listed(t: TokensModel, r: Seq<char>)
    requires
        token_at(t, r) is Some,
    ensures
        refs_of(t).contains(r),
{
    lemma_no_dots();
    let a = section_refs("color"@, t.color);
    let b = section_refs("space"@, t.space);
    let c = section_refs("radius"@, t.radius);
    let d = section_refs("shadow"@, t.shadow);
    let e = section_refs("typo"@, t.typo);
    let all = refs_of(t);
    assert(all == a + b + c + d + e);
    let (sec, key) = split_ref(r).unwrap();
    lemma_split_rejoins(r);
    let entries = section_of(t, sec).unwrap();
    lemma_lookup_some(entries, key);
    let k = choose|k: int| 0 <= k < entries.len() && #[trigger] entries[k].0@ == key;
    lemma_section_refs_has(sec, entries, r);
    let sr = section_refs(sec, entries);
    let i = choose|i: int| 0 <= i < sr.len() && sr[i] == r;
    if sec == "color"@ {
        assert(all[i] == r);
    } else if sec == "space"@ {
        assert(all[a.len() + i] == r);
    } else if sec == "radius"@ {
        assert(all[a.len() + b.len() + i] == r);
    } else if sec == "shadow"@ {
        assert(all[a.len() + b.len() + c.len() + i] == r);
    } else {
        assert(all[a.len() + b.len() + c.len() + d.len() + i] == r);
    }
}

proof fn lemma_listed_is_resolved(t: TokensModel, r: Seq<char>)
    requires
        refs_of(t).contains(r),
    ensures
        token_at(t, r) is Some,
{
    lemma_no_dots();
    let a = section_refs("color"@, t.color);
    let b = section_refs("space"@, t.space);
    let c = section_refs("radius"@, t.radius);
    let d = section_refs("shadow"@, t.shadow);
    let e = section_refs("typo"@, t.typo);
    let all = refs_of(t);
    assert(all == a + b + c + d + e);
    let i = choose|i: int| 0 <= i < all.len() && all[i] == r;
    if i < a.len() {
        assert(a[i] == r);
        lemma_in_section(t, "color"@, t.color, r);
    } else if i < a.len() + b.len() {
        assert(b[i - a.len()] == r);
        lemma_in_section(t, "space"@, t.space, r);
    } else if i < a.len() + b.len() + c.len() {
        assert(c[i - a.len() - b.len()] == r);
        lemma_in_section(t, "radius"@, t.radius, r);
    } else if i < a.len() + b.len() + c.len() + d.len() {
        assert(d[i - a.len() - b.len() - c.len()] == r);
        lemma_in_section(t, "shadow"@, t.shadow, r);
    } else {
        assert(e[i - a.len() - b.len() - c.len() - d.len()] == r);
        lemma_in_section(t, "typo"@, t.typo, r);
    }
}

/// `Tokens::get` resolves exactly the refs that `Tokens::all_refs` lists.
pub proof fn law_refs_are_what_get_resolves(t: TokensModel, r: Seq<char>)
    ensures
        token_at(t, r) is Some <==> refs_of(t).contains(r),
{
    if token_at(t, r) is Some {
        lemma_resolved_is_listed(t, r);
    }
    if refs_of(t).contains(r) {
        lemma_listed_is_resolved(t, r);
    }
}

// ── sections come out in key order ─────────────────────────────────────────

proof fn lemma_scalar_ascending(entries: Seq<(String, Json)>, name: Seq<char>, kind: Leaf)
    ensures
        scalar_entries(entries, name, kind) matches Ok(es) ==> keys_ascending(es),
    decreases entries.len(),
{
    if entries.len() > 0 {
        lemma_scalar_ascending(entries.drop_last(), name, kind);
        if let Ok(acc) = scalar_entries(entries.drop_last(), name, kind) {
            if let Some(x) = get(entries.last().1, "value"@) {
                if let Ok(t) = leaf_value(kind, x) {
                    lemma_insert_ascending(acc, entries.last().0, t);
                }
            }
        }
    }
}

proof fn lemma_space_ascending(entries: Seq<(String, Json)>)
    ensures
        space_entries(entries) matches Ok((_, es)) ==> keys_ascending(es),
    decreases entries.len(),
{
    if entries.len() > 0 {
        lemma_space_ascending(entries.drop_last());
        if let Ok((_, acc)) = space_entries(entries.drop_last()) {
            if let Some(x) = get(entries.last().1, "value"@) {
                if let Ok(t) = leaf_value(Leaf::Number, x) {
                    lemma_insert_ascending(acc, entries.last().0, t);
                }
            }
        }
    }
}

proof fn lemma_typo_ascending(entries: Seq<(String, Json)>)
    ensures
        typo_entries(entries) matches Ok(es) ==> keys_ascending(es),
    decreases entries.len(),
{
    if entries.len() > 0 {
        lemma_typo_ascending(entries.drop_last());
        if let Ok(acc) = typo_entries(entries.drop_last()) {
            if let Ok(t) = typo_spec_of(entries.last().1) {
                lemma_insert_ascending(acc, entries.last().0, TokenValue::Typo(t));
            }
        }
    }
}

proof fn lemma_parsed_wf(json: Json)
    ensures
        parse_tokens(json) matches Ok(m) ==> tokens_wf(m),
{
    if json is Object {
        if let Some(Json::Object(es)) = get(json, "color"@) {
            lemma_scalar_ascending(es@, "color"@, Leaf::Color);
        }
        if let Some(Json::Object(es)) = get(json, "radius"@) {
            lemma_scalar_ascending(es@, "radius"@, Leaf::Number);
        }
        if let Some(Json::Object(es)) = get(json, "shadow"@) {
            lemma_scalar_ascending(es@, "shadow"@, Leaf::Text);
        }
        if let Some(Json::Object(es)) = get(json, "space"@) {
            lemma_space_ascending(es@);
        }
        if let Some(Json::Object(es)) = get(json, "typo"@) {
            lemma_typo_ascending(es@);
        }
    }
}

// ── no ref is listed twice ─────────────────────────────────────────────────

/// Where a section's refs start in the list of all refs.
pub open spec fn section_base(t: TokensModel, name: Seq<char>) -> int {
    if name == "color"@ {
        0
    } else if name == "space"@ {
        t.color.len() as int
    } else if name == "radius"@ {
        (t.color.len() + t.space.len()) as int
    } else if name == "shadow"@ {
        (t.color.len() + t.space.len() + t.radius.len()) as int
    } else {
        (t.color.len() + t.space.len() + t.radius.len() + t.shadow.len()) as int
    }
}

proof fn lemma_section_refs_at(name: Seq<char>, entries: Seq<(String, TokenValue)>)
    ensures
        section_refs(name, entries).len() == entries.len(),
        forall|p: int| 0 <= p < entries.len() ==> #[trigger] section_refs(name, entries)[p] == name + "."@
            + entries[p].0@,
    decreases entries.len(),
{
    if entries.len() > 0 {
        let prev = entries.drop_last();
        lemma_section_refs_at(name, prev);
        assert forall|p: int| 0 <= p < entries.len() implies #[trigger] section_refs(name, entries)[p] == name
            + "."@ + entries[p].0@ by {
            if p < prev.len() {
                assert(prev[p] == entries[p]);
            }
        }
    }
}

/// The section and position that the `i`-th listed ref comes from.
proof fn lemma_ref_index(t: TokensModel, i: int) -> (res: (Seq<char>, int))
    requires
        0 <= i < refs_of(t).len(),
    ensures
        section_of(t, res.0) is Some,
        0 <= res.1 < section_of(t, res.0).unwrap().len(),
        i == section_base(t, res.0) + res.1,
        split_ref(refs_of(t)[i]) == Some((res.0, section_of(t, res.0).unwrap()[res.1].0@)),
{
    lemma_no_dots();
    lemma_section_refs_at("color"@, t.color);
    lemma_section_refs_at("space"@, t.space);
    lemma_section_refs_at("radius"@, t.radius);
    lemma_section_refs_at("shadow"@, t.shadow);
    lemma_section_refs_at("typo"@, t.typo);
    let a = section_refs("color"@, t.color);
    let b = section_refs("space"@, t.space);
    let c = section_refs("radius"@, t.radius);
    let d = section_refs("shadow"@, t.shadow);
    let e = section_refs("typo"@, t.typo);
    let all = refs_of(t);
    assert(all == a + b + c + d + e);
    let (name, p) = if i < a.len() {
        assert(all[i] == a[i]);
        ("color"@, i)
    } else if i < a.len() + b.len() {
        assert(all[i] == b[i - a.len()]);
        ("space"@, i - a.len())
    } else if i < a.len() + b.len() + c.len() {
        assert(all[i] == c[i - a.len() - b.len()]);
        ("radius"@, i - a.len() - b.len())
    } else if i < a.len() + b.len() + c.len() + d.len() {
        assert(all[i] == d[i - a.len() - b.len() - c.len()]);
        ("shadow"@, i - a.len() - b.len() - c.len())
    } else {
        assert(all[i] == e[i - a.len() - b.len() - c.len() - d.len()]);
        ("typo"@, i - a.len() - b.len() - c.len() - d.len())
    };
    let entries = section_of(t, name).unwrap();
    lemma_split_joined(name, entries[p].0@);
    (name, p)
}

/// In well-formed tokens, `Tokens::all_refs` lists no ref twice.
pub proof fn law_refs_are_distinct(t: TokensModel)
    requires
        tokens_wf(t),
    ensures
        refs_of(t).no_duplicates(),
{
    let all = refs_of(t);
    assert forall|i: int, j: int| 0 <= i < all.len() && 0 <= j < all.len() && i != j implies all[i] != all[j] by {
        let (n1, p) = lemma_ref_index(t, i);
        let (n2, q) = lemma_ref_index(t, j);
        if all[i] == all[j] {
            assert(n1 == n2);
            let es = section_of(t, n1).unwrap();
            assert(keys_ascending(es));
            assert(p != q);
            if p < q {
                assert(text_less(es[p].0@, es[q].0@));
            } else {
                assert(text_less(es[q].0@, es[p].0@));
            }
            crate::sorted_keys::lemma_less_irreflexive(es[p].0@);
        }
    }
}

} // verus!
