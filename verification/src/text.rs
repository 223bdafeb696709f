//! Character-level helpers shared by the rest of the library: whitespace
//! trimming, substring search, ASCII case folding and decimal rendering.

use vstd::prelude::*;

verus! {

// ── specifications ─────────────────────────────────────────────────────────

/// Unicode `White_Space`, the property that `char::is_whitespace` tests.
pub open spec fn is_ws(c: char) -> bool {
    let u = c as u32;
    ||| (0x09 <= u && u <= 0x0d)
    ||| u == 0x20
    ||| u == 0x85
    ||| u == 0xa0
    ||| u == 0x1680
    ||| (0x2000 <= u && u <= 0x200a)
    ||| u == 0x2028
    ||| u == 0x2029
    ||| u == 0x202f
    ||| u == 0x205f
    ||| u == 0x3000
}

/// The text with leading whitespace removed.
pub open spec fn trim_start(s: Seq<char>) -> Seq<char>
    decreases s.len(),
{
    if s.len() > 0 && is_ws(s[0]) {
        trim_start(s.drop_first())
    } else {
        s
    }
}

/// The text with trailing whitespace removed.
pub open spec fn trim_end(s: Seq<char>) -> Seq<char>
    decreases s.len(),
{
    if s.len() > 0 && is_ws(s.last()) {
        trim_end(s.drop_last())
    } else {
        s
    }
}

/// The text with whitespace removed at both ends.
pub open spec fn trim(s: Seq<char>) -> Seq<char> {
    trim_end(trim_start(s))
}

/// `needle` occurs in `hay` at position `i`.
pub open spec fn occurs_at(hay: Seq<char>, needle: Seq<char>, i: int) -> bool {
    &&& 0 <= i
    &&& i + needle.len() <= hay.len()
    &&& hay.subrange(i, i + needle.len()) == needle
}

/// `needle` occurs somewhere in `hay` (the empty text occurs everywhere).
pub open spec fn has_sub(hay: Seq<char>, needle: Seq<char>) -> bool {
    exists|i: int| occurs_at(hay, needle, i)
}

/// `p` is a prefix of `s`.
pub open spec fn starts_with(s: Seq<char>, p: Seq<char>) -> bool {
    p.len() <= s.len() && s.subrange(0, p.len() as int) == p
}

/// `p` is a suffix of `s`.
pub open spec fn ends_with(s: Seq<char>, p: Seq<char>) -> bool {
    p.len() <= s.len() && s.subrange(s.len() - p.len(), s.len() as int) == p
}

/// ASCII upper-case letters map to lower case; every other character stays.
pub open spec fn lower_char(c: char) -> char {
    if 'A' <= c && c <= 'Z' {
        ((c as u32) + 32) as char
    } else {
        c
    }
}

/// ASCII lower-casing of a whole text.
pub open spec fn lower(s: Seq<char>) -> Seq<char> {
    s.map_values(|c: char| lower_char(c))
}

/// The ASCII decimal digit for `d < 10`.
pub open spec fn digit_char(d: nat) -> char {
    (48 + d) as char
}

/// The decimal rendering of a natural number, without leading zeros.
pub open spec fn dec(n: nat) -> Seq<char>
    decreases n,
{
    if n < 10 {
        seq![digit_char(n)]
    } else {
        dec(n / 10).push(digit_char(n % 10))
    }
}

/// Lower-case hexadecimal digit for `d < 16`.
pub open spec fn hex_char(d: nat) -> char {
    if d < 10 {
        (48 + d) as char
    } else {
        (87 + d) as char
    }
}

/// Two lower-case hexadecimal digits of a byte (`{:02x}`).
pub open spec fn hex2(b: nat) -> Seq<char> {
    seq![hex_char(b / 16), hex_char(b % 16)]
}

/// Every character is whitespace.
pub open spec fn all_ws(s: Seq<char>) -> bool {
    forall|i: int| 0 <= i < s.len() ==> is_ws(#[trigger] s[i])
}

// ── lemmas ─────────────────────────────────────────────────────────────────

/// Dropping leading whitespace from a suffix that starts at a whitespace
/// character is the same as starting one character later.
proof fn lemma_trim_start_step(s: Seq<char>, i: int)
    requires
        0 <= i < s.len(),
        is_ws(s[i]),
    ensures
        trim_start(s.subrange(i, s.len() as int)) == trim_start(s.subrange(i + 1, s.len() as int)),
{
    let t = s.subrange(i, s.len() as int);
    assert(t.drop_first() =~= s.subrange(i + 1, s.len() as int));
}

proof fn lemma_trim_end_step(s: Seq<char>, j: int)
    requires
        0 < j <= s.len(),
        is_ws(s[j - 1]),
    ensures
        trim_end(s.subrange(0, j)) == trim_end(s.subrange(0, j - 1)),
{
    let t = s.subrange(0, j);
    assert(t.drop_last() =~= s.subrange(0, j - 1));
}

/// Trimming leaves nothing exactly when every character is whitespace.
pub proof fn lemma_trim_empty_iff_all_ws(s: Seq<char>)
    ensures
        (trim(s).len() == 0) <==> all_ws(s),
    decreases s.len(),
{
    if s.len() > 0 && is_ws(s[0]) {
        lemma_trim_empty_iff_all_ws(s.drop_first());
        assert(trim(s) == trim(s.drop_first()));
        if all_ws(s.drop_first()) {
            assert forall|i: int| 0 <= i < s.len() implies is_ws(#[trigger] s[i]) by {
                if i > 0 {
                    assert(s[i] == s.drop_first()[i - 1]);
                }
            }
        }
        if all_ws(s) {
            assert forall|i: int| 0 <= i < s.drop_first().len() implies is_ws(
                #[trigger] s.drop_first()[i],
            ) by {
                assert(s.drop_first()[i] == s[i + 1]);
            }
        }
    } else if s.len() > 0 {
        // first character is not whitespace: trim_start(s) == s, and trimming the
        // end cannot remove a non-whitespace first character
        lemma_trim_end_keeps_non_ws_head(s);
    }
}

proof fn lemma_trim_end_keeps_non_ws_head(s: Seq<char>)
    requires
        s.len() > 0,
        !is_ws(s[0]),
    ensures
        trim_end(s).len() > 0,
    decreases s.len(),
{
    if is_ws(s.last()) {
        assert(s.len() > 1);
        assert(s.drop_last()[0] == s[0]);
        lemma_trim_end_keeps_non_ws_head(s.drop_last());
    }
}

/// Decimal renderings are never empty and are made of digits.
pub proof fn lemma_dec_nonempty(n: nat)
    ensures
        dec(n).len() >= 1,
    decreases n,
{
    if n >= 10 {
        lemma_dec_nonempty(n / 10);
    }
}

// ── executable helpers ─────────────────────────────────────────────────────

/// Appends one character with `String::push`, which vstd leaves
/// unspecified. Claims that the string's characters gain `c` at the end.
#[verifier::external_body]
pub(crate) fn push_char(s: &mut String, c: char)
    ensures
        final(s)@ == old(s)@.push(c),
{
    s.push(c);
}

/// The characters of a string slice, in order.
pub fn chars_of(s: &str) -> (v: Vec<char>)
    ensures
        v@ == s@,
{
    let mut v: Vec<char> = Vec::new();
    for c in it: s.chars()
        invariant
            v@ == it.seq().take(it.index() as int),
    {
        v.push(c);
    }
    v
}

/// A new string holding `v[lo..hi]`.
pub fn string_from_range(v: &Vec<char>, lo: usize, hi: usize) -> (r: String)
    requires
        lo <= hi <= v.len(),
    ensures
        r@ == v@.subrange(lo as int, hi as int),
{
    let mut r = String::new();
    let mut i = lo;
    while i < hi
        invariant
            lo <= i <= hi <= v.len(),
            r@ == v@.subrange(lo as int, i as int),
        decreases hi - i,
    {
        push_char(&mut r, v[i]);
        i = i + 1;
        assert(r@ =~= v@.subrange(lo as int, i as int));
    }
    r
}

/// A new string holding all of `v`.
pub fn string_from_chars(v: &Vec<char>) -> (r: String)
    ensures
        r@ == v@,
{
    let r = string_from_range(v, 0, v.len());
    assert(v@.subrange(0, v@.len() as int) =~= v@);
    r
}

/// Appends every character of `v` to `s`.
pub fn push_chars(s: &mut String, v: &Vec<char>)
    ensures
        final(s)@ == old(s)@ + v@,
{
    let mut i: usize = 0;
    while i < v.len()
        invariant
            i <= v.len(),
            s@ == old(s)@ + v@.subrange(0, i as int),
        decreases v.len() - i,
    {
        push_char(s, v[i]);
        i = i + 1;
        assert(s@ =~= old(s)@ + v@.subrange(0, i as int));
    }
    assert(v@.subrange(0, v@.len() as int) =~= v@);
}

/// Appends a string slice to `s`.
pub fn push_str(s: &mut String, t: &str)
    ensures
        final(s)@ == old(s)@ + t@,
{
    s.append(t);
}

/// `char::is_whitespace`.
pub fn is_whitespace(c: char) -> (b: bool)
    ensures
        b == is_ws(c),
{
    let u = c as u32;
    (0x09 <= u && u <= 0x0d) || u == 0x20 || u == 0x85 || u == 0xa0 || u == 0x1680 || (0x2000
        <= u && u <= 0x200a) || u == 0x2028 || u == 0x2029 || u == 0x202f || u == 0x205f || u
        == 0x3000
}

/// Bounds `[lo, hi)` such that `v[lo..hi]` is `v` trimmed.
pub fn trim_bounds(v: &Vec<char>) -> (r: (usize, usize))
    ensures
        r.0 <= r.1 <= v.len(),
        v@.subrange(r.0 as int, r.1 as int) == trim(v@),
{
    let n = v.len();
    let mut lo: usize = 0;
    assert(v@.subrange(0, n as int) =~= v@);
    while lo < n && is_whitespace(v[lo])
        invariant
            lo <= n == v.len(),
            trim_start(v@) == trim_start(v@.subrange(lo as int, n as int)),
        decreases n - lo,
    {
        proof {
            lemma_trim_start_step(v@, lo as int);
        }
        lo = lo + 1;
    }
    let ghost t = v@.subrange(lo as int, n as int);
    assert(trim_start(t) == t);
    let mut hi: usize = n;
    assert(t.subrange(0, t.len() as int) =~= t);
    while hi > lo && is_whitespace(v[hi - 1])
        invariant
            lo <= hi <= n == v.len(),
            t == v@.subrange(lo as int, n as int),
            trim_end(t) == trim_end(t.subrange(0, hi - lo)),
        decreases hi,
    {
        proof {
            lemma_trim_end_step(t, (hi - lo) as int);
        }
        hi = hi - 1;
    }
    assert(t.subrange(0, hi - lo) =~= v@.subrange(lo as int, hi as int));
    (lo, hi)
}

/// `str::trim`, as an owned string.
pub fn trim_string(s: &str) -> (r: String)
    ensures
        r@ == trim(s@),
{
    let v = chars_of(s);
    let (lo, hi) = trim_bounds(&v);
    string_from_range(&v, lo, hi)
}

/// `str::trim().is_empty()`.
pub fn is_blank(s: &str) -> (b: bool)
    ensures
        b == (trim(s@).len() == 0),
        b == all_ws(s@),
{
    let v = chars_of(s);
    let (lo, hi) = trim_bounds(&v);
    proof {
        lemma_trim_empty_iff_all_ws(s@);
    }
    lo == hi
}

/// `needle` occurs in `hay` at `i`.
pub fn matches_at(hay: &Vec<char>, needle: &Vec<char>, i: usize) -> (b: bool)
    ensures
        b == occurs_at(hay@, needle@, i as int),
{
    if needle.len() > hay.len() || i > hay.len() - needle.len() {
        return false;
    }
    let mut k: usize = 0;
    while k < needle.len()
        invariant
            k <= needle.len(),
            i + needle.len() <= hay.len(),
            forall|j: int| 0 <= j < k ==> hay@[i + j] == needle@[j],
        decreases needle.len() - k,
    {
        if hay[i + k] != needle[k] {
            assert(hay@.subrange(i as int, i + needle.len())[k as int] != needle@[k as int]);
            return false;
        }
        k = k + 1;
    }
    assert(hay@.subrange(i as int, i + needle.len()) =~= needle@);
    true
}

/// Substring search over character vectors.
pub fn vec_contains(hay: &Vec<char>, needle: &Vec<char>) -> (b: bool)
    ensures
        b == has_sub(hay@, needle@),
{
    if needle.len() > hay.len() {
        return false;
    }
    let last = hay.len() - needle.len();
    let mut i: usize = 0;
    loop
        invariant
            last == hay.len() - needle.len(),
            i <= last,
            forall|j: int| 0 <= j < i ==> !occurs_at(hay@, needle@, j),
        ensures
            forall|j: int| 0 <= j <= last ==> !occurs_at(hay@, needle@, j),
        decreases last - i,
    {
        if matches_at(hay, needle, i) {
            return true;
        }
        if i == last {
            break;
        }
        i = i + 1;
    }
    assert forall|j: int| !occurs_at(hay@, needle@, j) by {
        if 0 <= j && j + needle@.len() <= hay@.len() {
            assert(j <= last);
        }
    }
    false
}

/// `str::contains` for a string needle.
pub fn str_contains(hay: &str, needle: &str) -> (b: bool)
    ensures
        b == has_sub(hay@, needle@),
{
    let h = chars_of(hay);
    let n = chars_of(needle);
    vec_contains(&h, &n)
}

/// `str::starts_with` for a string prefix.
pub fn str_starts_with(s: &str, p: &str) -> (b: bool)
    ensures
        b == starts_with(s@, p@),
{
    let sv = chars_of(s);
    let pv = chars_of(p);
    let b = matches_at(&sv, &pv, 0);
    proof {
        if b {
            assert(starts_with(s@, p@));
        }
        if starts_with(s@, p@) {
            assert(occurs_at(sv@, pv@, 0));
        }
    }
    b
}

/// `str::ends_with` for a string suffix.
pub fn str_ends_with(s: &str, p: &str) -> (b: bool)
    ensures
        b == ends_with(s@, p@),
{
    let sv = chars_of(s);
    let pv = chars_of(p);
    if pv.len() > sv.len() {
        return false;
    }
    matches_at(&sv, &pv, sv.len() - pv.len())
}

/// Equality of two string slices.
pub fn str_eq(a: &str, b: &str) -> (r: bool)
    ensures
        r == (a@ == b@),
{
    let av = chars_of(a);
    let bv = chars_of(b);
    if av.len() != bv.len() {
        return false;
    }
    let mut i: usize = 0;
    while i < av.len()
        invariant
            i <= av.len() == bv.len(),
            av@ == a@,
            bv@ == b@,
            forall|j: int| 0 <= j < i ==> av@[j] == bv@[j],
        decreases av.len() - i,
    {
        if av[i] != bv[i] {
            assert(av@[i as int] != bv@[i as int]);
            return false;
        }
        i = i + 1;
    }
    assert(av@ =~= bv@);
    true
}

/// Copies a string slice into an owned string.
pub fn to_owned(s: &str) -> (r: String)
    ensures
        r@ == s@,
{
    s.to_owned()
}

/// Copies a string.
pub fn copy_string(s: &String) -> (r: String)
    ensures
        r@ == s@,
{
    s.clone()
}

/// ASCII lower-casing of one character.
pub fn to_lower_char(c: char) -> (r: char)
    ensures
        r == lower_char(c),
{
    if 'A' <= c && c <= 'Z' {
        let b: u8 = c as u8;
        let r = (b + 32) as char;
        assert(r == ((c as u32) + 32) as char);
        r
    } else {
        c
    }
}

/// `str::to_ascii_lowercase`, as a character vector.
pub fn lower_chars(s: &str) -> (r: Vec<char>)
    ensures
        r@ == lower(s@),
{
    let v = chars_of(s);
    let mut r: Vec<char> = Vec::new();
    let mut i: usize = 0;
    while i < v.len()
        invariant
            i <= v.len(),
            v@ == s@,
            r@ == lower(v@.subrange(0, i as int)),
        decreases v.len() - i,
    {
        r.push(to_lower_char(v[i]));
        i = i + 1;
        assert(r@ =~= lower(v@.subrange(0, i as int)));
    }
    assert(v@.subrange(0, v@.len() as int) =~= v@);
    r
}

/// `str::to_ascii_lowercase`.
pub fn to_ascii_lowercase(s: &str) -> (r: String)
    ensures
        r@ == lower(s@),
{
    let v = lower_chars(s);
    string_from_chars(&v)
}

/// `str::eq_ignore_ascii_case`.
pub fn eq_ignore_ascii_case(a: &str, b: &str) -> (r: bool)
    ensures
        r == (lower(a@) == lower(b@)),
{
    let av = lower_chars(a);
    let bv = lower_chars(b);
    if av.len() != bv.len() {
        return false;
    }
    let mut i: usize = 0;
    while i < av.len()
        invariant
            i <= av.len() == bv.len(),
            av@ == lower(a@),
            bv@ == lower(b@),
            forall|j: int| 0 <= j < i ==> av@[j] == bv@[j],
        decreases av.len() - i,
    {
        if av[i] != bv[i] {
            assert(av@[i as int] != bv@[i as int]);
            return false;
        }
        i = i + 1;
    }
    assert(av@ =~= bv@);
    true
}

/// The digit character for `d < 10`.
pub fn digit(d: u64) -> (c: char)
    requires
        d < 10,
    ensures
        c == digit_char(d as nat),
{
    let b: u8 = d as u8;
    (b + 48) as char
}

/// Appends the decimal rendering of `n` (`{}` of an unsigned integer).
pub fn push_dec(s: &mut String, n: u64)
    ensures
        final(s)@ == old(s)@ + dec(n as nat),
    decreases n,
{
    if n < 10 {
        push_char(s, digit(n));
        assert(dec(n as nat) =~= seq![digit_char(n as nat)]);
    } else {
        push_dec(s, n / 10);
        push_char(s, digit(n % 10));
        assert(dec(n as nat) == dec((n / 10) as nat).push(digit_char((n % 10) as nat)));
        assert(final(s)@ =~= old(s)@ + dec(n as nat));
    }
}

/// The decimal rendering of `n`.
pub fn dec_string(n: u64) -> (r: String)
    ensures
        r@ == dec(n as nat),
{
    let mut r = String::new();
    push_dec(&mut r, n);
    assert(r@ =~= dec(n as nat));
    r
}

/// One lower-case hexadecimal digit.
pub fn hex_digit(d: u8) -> (c: char)
    requires
        d < 16,
    ensures
        c == hex_char(d as nat),
{
    if d < 10 {
        (d + 48) as char
    } else {
        (d + 87) as char
    }
}

/// Appends `{:02x}` of a byte.
pub fn push_hex2(s: &mut String, b: u8)
    ensures
        final(s)@ == old(s)@ + hex2(b as nat),
{
    push_char(s, hex_digit(b / 16));
    push_char(s, hex_digit(b % 16));
    assert(final(s)@ =~= old(s)@ + hex2(b as nat));
}


// ── keyed lists ────────────────────────────────────────────────────────────

/// The value under the first entry whose key is `key`.
pub open spec fn keyed<V>(entries: Seq<(String, V)>, key: Seq<char>) -> Option<V>
    decreases entries.len(),
{
    if entries.len() == 0 {
        None
    } else if entries[0].0@ == key {
        Some(entries[0].1)
    } else {
        keyed(entries.drop_first(), key)
    }
}

/// The keys of a keyed list, in order.
pub open spec fn keys_of<V>(entries: Seq<(String, V)>) -> Seq<Seq<char>> {
    entries.map_values(|e: (String, V)| e.0@)
}

/// Finds the first entry with the given key.
pub fn find_keyed<'a, V>(entries: &'a Vec<(String, V)>, key: &str) -> (r: Option<&'a V>)
    ensures
        match r {
            Some(v) => keyed(entries@, key@) == Some(*v),
            None => keyed(entries@, key@) is None,
        },
{
    let mut i: usize = 0;
    assert(entries@.skip(0) =~= entries@);
    while i < entries.len()
        invariant
            i <= entries@.len(),
            keyed(entries@, key@) == keyed(entries@.skip(i as int), key@),
        decreases entries.len() - i,
    {
        let ghost rest = entries@.skip(i as int);
        assert(rest[0] == entries@[i as int]);
        if str_eq(entries[i].0.as_str(), key) {
            return Some(&entries[i].1);
        }
        assert(rest.drop_first() =~= entries@.skip(i + 1));
        i = i + 1;
    }
    None
}

/// The keys of a keyed list, copied out in order.
pub fn keys<V>(entries: &Vec<(String, V)>) -> (r: Vec<String>)
    ensures
        r@.map_values(|s: String| s@) == keys_of(entries@),
{
    let mut r: Vec<String> = Vec::new();
    let mut i: usize = 0;
    while i < entries.len()
        invariant
            i <= entries@.len(),
            r@.map_values(|s: String| s@) == keys_of(entries@.subrange(0, i as int)),
        decreases entries.len() - i,
    {
        r.push(copy_string(&entries[i].0));
        assert(keys_of(entries@.subrange(0, i + 1)) =~= keys_of(entries@.subrange(0, i as int)).push(
            entries@[i as int].0@,
        ));
        assert(r@.map_values(|s: String| s@) =~= keys_of(entries@.subrange(0, i + 1)));
        i = i + 1;
    }
    assert(entries@.subrange(0, entries@.len() as int) =~= entries@);
    r
}


// ── joining ────────────────────────────────────────────────────────────────

/// The parts with `sep` between each two of them.
pub open spec fn join(sep: Seq<char>, parts: Seq<Seq<char>>) -> Seq<char>
    decreases parts.len(),
{
    if parts.len() == 0 {
        seq![]
    } else if parts.len() == 1 {
        parts[0]
    } else {
        join(sep, parts.drop_last()) + sep + parts.last()
    }
}

/// The views of a list of strings.
pub open spec fn views(v: Seq<String>) -> Seq<Seq<char>> {
    v.map_values(|s: String| s@)
}

/// `"true"` or `"false"`.
pub open spec fn bool_text(b: bool) -> Seq<char> {
    if b {
        "true"@
    } else {
        "false"@
    }
}

/// Appends `"true"` or `"false"`.
pub fn push_bool(s: &mut String, b: bool)
    ensures
        final(s)@ == old(s)@ + bool_text(b),
{
    if b {
        push_str(s, "true");
    } else {
        push_str(s, "false");
    }
}

/// Appends the parts with `sep` between each two of them.
pub fn push_joined(s: &mut String, parts: &Vec<String>, sep: &str)
    ensures
        final(s)@ == old(s)@ + join(sep@, views(parts@)),
{
    let ghost start = s@;
    let mut i: usize = 0;
    while i < parts.len()
        invariant
            i <= parts@.len(),
            s@ == start + join(sep@, views(parts@.subrange(0, i as int))),
        decreases parts.len() - i,
    {
        let ghost pre = views(parts@.subrange(0, i + 1));
        assert(pre.drop_last() =~= views(parts@.subrange(0, i as int)));
        if i > 0 {
            push_str(s, sep);
        }
        push_str(s, parts[i].as_str());
        proof {
            if i == 0 {
                assert(pre.len() == 1);
                assert(views(parts@.subrange(0, i as int)).len() == 0);
            }
        }
        assert(s@ =~= start + join(sep@, pre));
        i = i + 1;
    }
    assert(parts@.subrange(0, parts@.len() as int) =~= parts@);
}


// ── searching and trimming one character ───────────────────────────────────

/// `i` is where `needle` first occurs in `hay`.
pub open spec fn first_at(hay: Seq<char>, needle: Seq<char>, i: int) -> bool {
    &&& occurs_at(hay, needle, i)
    &&& forall|j: int| 0 <= j < i ==> !occurs_at(hay, needle, j)
}

/// `s` without every trailing `c`.
pub open spec fn trim_end_char(s: Seq<char>, c: char) -> Seq<char>
    decreases s.len(),
{
    if s.len() > 0 && s.last() == c {
        trim_end_char(s.drop_last(), c)
    } else {
        s
    }
}

/// `s` without every leading `c`.
pub open spec fn trim_start_char(s: Seq<char>, c: char) -> Seq<char>
    decreases s.len(),
{
    if s.len() > 0 && s[0] == c {
        trim_start_char(s.drop_first(), c)
    } else {
        s
    }
}

/// Where `needle` first occurs in `hay`, if it does.
pub fn find_first(hay: &Vec<char>, needle: &Vec<char>) -> (r: Option<usize>)
    ensures
        match r {
            Some(i) => first_at(hay@, needle@, i as int),
            None => !has_sub(hay@, needle@),
        },
{
    if needle.len() > hay.len() {
        return None;
    }
    let last = hay.len() - needle.len();
    let mut i: usize = 0;
    loop
        invariant
            last == hay.len() - needle.len(),
            i <= last,
            forall|j: int| 0 <= j < i ==> !occurs_at(hay@, needle@, j),
        ensures
            forall|j: int| 0 <= j <= last ==> !occurs_at(hay@, needle@, j),
        decreases last - i,
    {
        if matches_at(hay, needle, i) {
            return Some(i);
        }
        if i == last {
            break;
        }
        i = i + 1;
    }
    assert forall|j: int| !occurs_at(hay@, needle@, j) by {
        if 0 <= j && j + needle@.len() <= hay@.len() {
            assert(j <= last);
        }
    }
    None
}

/// The end of `v[..hi]` once every trailing `c` is dropped.
pub fn trim_end_char_at(v: &Vec<char>, hi: usize, c: char) -> (r: usize)
    requires
        hi <= v.len(),
    ensures
        r <= hi,
        v@.subrange(0, r as int) == trim_end_char(v@.subrange(0, hi as int), c),
    decreases hi,
{
    if hi > 0 && v[hi - 1] == c {
        assert(v@.subrange(0, hi as int).drop_last() =~= v@.subrange(0, hi - 1));
        trim_end_char_at(v, hi - 1, c)
    } else {
        hi
    }
}

/// The start of `v[lo..]` once every leading `c` is dropped.
pub fn trim_start_char_at(v: &Vec<char>, lo: usize, c: char) -> (r: usize)
    requires
        lo <= v.len(),
    ensures
        lo <= r <= v.len(),
        v@.subrange(r as int, v@.len() as int) == trim_start_char(
            v@.subrange(lo as int, v@.len() as int),
            c,
        ),
    decreases v.len() - lo,
{
    if lo < v.len() && v[lo] == c {
        assert(v@.subrange(lo as int, v@.len() as int).drop_first() =~= v@.subrange(
            lo + 1,
            v@.len() as int,
        ));
        trim_start_char_at(v, lo + 1, c)
    } else {
        lo
    }
}


/// Whether a list of strings holds this text.
pub fn contains_string(v: &Vec<String>, t: &str) -> (b: bool)
    ensures
        b == views(v@).contains(t@),
{
    let mut i: usize = 0;
    while i < v.len()
        invariant
            i <= v@.len(),
            forall|k: int| 0 <= k < i ==> v@[k]@ != t@,
        decreases v.len() - i,
    {
        if str_eq(v[i].as_str(), t) {
            assert(views(v@)[i as int] == t@);
            return true;
        }
        i = i + 1;
    }
    assert forall|k: int| 0 <= k < views(v@).len() implies views(v@)[k] != t@ by {
        assert(views(v@)[k] == v@[k]@);
    }
    false
}


// ── splitting ──────────────────────────────────────────────────────────────

/// The pieces of `s` between separator characters, as `str::split` gives
/// them: one more piece than there are separators, empty pieces included.
pub open spec fn pieces(s: Seq<char>, seps: Seq<char>) -> Seq<Seq<char>>
    decreases s.len(),
{
    if s.len() == 0 {
        seq![seq![]]
    } else {
        let p = pieces(s.drop_last(), seps);
        if seps.contains(s.last()) {
            p.push(seq![])
        } else {
            p.update(p.len() - 1, p.last().push(s.last()))
        }
    }
}

/// Each piece trimmed, the empty ones dropped.
pub open spec fn trimmed_nonempty(ps: Seq<Seq<char>>) -> Seq<Seq<char>>
    decreases ps.len(),
{
    if ps.len() == 0 {
        seq![]
    } else {
        let prev = trimmed_nonempty(ps.drop_last());
        if trim(ps.last()).len() > 0 {
            prev.push(trim(ps.last()))
        } else {
            prev
        }
    }
}

pub proof fn lemma_pieces_nonempty(s: Seq<char>, seps: Seq<char>)
    ensures
        pieces(s, seps).len() >= 1,
    decreases s.len(),
{
    if s.len() > 0 {
        lemma_pieces_nonempty(s.drop_last(), seps);
    }
}

/// Splits `s` at every separator character, trims each piece and keeps
/// the non-empty ones, in order.
pub fn split_trimmed(s: &str, seps: &Vec<char>) -> (r: Vec<String>)
    ensures
        views(r@) == trimmed_nonempty(pieces(s@, seps@)),
{
    let v = chars_of(s);
    let mut out: Vec<String> = Vec::new();
    let mut cur: Vec<char> = Vec::new();
    let mut i: usize = 0;
    while i < v.len()
        invariant
            i <= v@.len(),
            v@ == s@,
            pieces(v@.subrange(0, i as int), seps@).len() >= 1,
            views(out@) == trimmed_nonempty(pieces(v@.subrange(0, i as int), seps@).drop_last()),
            cur@ == pieces(v@.subrange(0, i as int), seps@).last(),
        decreases v.len() - i,
    {
        let ghost pre = v@.subrange(0, i + 1);
        let ghost p0 = pieces(v@.subrange(0, i as int), seps@);
        assert(pre.drop_last() =~= v@.subrange(0, i as int));
        assert(pre.last() == v@[i as int]);
        let c = v[i];
        let mut is_sep = false;
        let mut k: usize = 0;
        while k < seps.len()
            invariant
                k <= seps@.len(),
                is_sep == seps@.subrange(0, k as int).contains(c),
            decreases seps.len() - k,
        {
            if seps[k] == c {
                is_sep = true;
            }
            proof {
                assert(seps@.subrange(0, k + 1) =~= seps@.subrange(0, k as int).push(seps@[k as int]));
                if seps@.subrange(0, k + 1).contains(c) && !seps@.subrange(0, k as int).contains(c) {
                    assert(seps@[k as int] == c) by {
                        let w = choose|w: int|
                            0 <= w < k + 1 && #[trigger] seps@.subrange(0, k + 1)[w] == c;
                        if w < k {
                            assert(seps@.subrange(0, k as int)[w] == c);
                        }
                    }
                }
                if seps@.subrange(0, k as int).contains(c) {
                    let w = choose|w: int|
                        0 <= w < k && #[trigger] seps@.subrange(0, k as int)[w] == c;
                    assert(seps@.subrange(0, k + 1)[w] == c);
                }
                if seps@[k as int] == c {
                    assert(seps@.subrange(0, k + 1)[k as int] == c);
                }
            }
            k = k + 1;
        }
        assert(seps@.subrange(0, seps@.len() as int) =~= seps@);
        if is_sep {
            let piece = string_from_chars(&cur);
            let t = trim_string(piece.as_str());
            if !t.as_str().is_empty() {
                let ghost o = out@;
                out.push(t);
                assert(views(out@) =~= views(o).push(t@));
            }
            cur = Vec::new();
            proof {
                let p1 = p0.push(seq![]);
                assert(p1.drop_last() =~= p0);
                assert(p0 =~= p0.drop_last().push(p0.last()));
            }
        } else {
            cur.push(c);
            proof {
                let p1 = p0.update(p0.len() - 1, p0.last().push(c));
                assert(p1.drop_last() =~= p0.drop_last());
            }
        }
        i = i + 1;
    }
    assert(v@.subrange(0, v@.len() as int) =~= v@);
    let ghost pall = pieces(s@, seps@);
    assert(pall =~= pall.drop_last().push(pall.last()));
    let piece = string_from_chars(&cur);
    let t = trim_string(piece.as_str());
    if !t.as_str().is_empty() {
        let ghost o = out@;
        out.push(t);
        assert(views(out@) =~= views(o).push(t@));
    }
    out
}

} // verus!
