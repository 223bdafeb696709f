//! Anti-slop rule set: banned colours, emoji, display fonts, and the
//! placeholder / fabricated-metric patterns.

use vstd::prelude::*;
use crate::patterns::{regex_accepts, regex_compile};
use crate::text::{lower, to_ascii_lowercase, to_owned, views};

verus! {

/// Rule file contents as written (`anti-ai-slop.json`).
#[derive(Debug)]
pub struct RawRules {
    pub version: u32,
    pub banned_hex: Vec<String>,
    pub banned_emoji: Vec<String>,
    pub banned_display_fonts: Vec<String>,
    pub placeholder_regex: Vec<String>,
    pub fabricated_metric_regex: Vec<String>,
}

/// Ready-to-use rule set: colours lower-cased, every pattern known to
/// compile.
#[derive(Debug)]
pub struct AntiSlopRules {
    pub version: u32,
    pub banned_hex: Vec<String>,
    pub banned_emoji: Vec<String>,
    pub banned_display_fonts: Vec<String>,
    pub placeholder_regex: Vec<String>,
    pub fabricated_metric_regex: Vec<String>,
}

/// A pattern of the rule file does not compile.
#[derive(Debug)]
pub enum RulesError {
    BadRegex { pattern: String, source: regex::Error },
}

/// The first pattern that does not compile.
pub open spec fn first_rejected(pats: Seq<String>) -> Option<String>
    decreases pats.len(),
{
    if pats.len() == 0 {
        None
    } else if !regex_accepts(pats[0]@) {
        Some(pats[0])
    } else {
        first_rejected(pats.drop_first())
    }
}

/// The first pattern text that does not compile.
pub open spec fn first_rejected_text(pats: Seq<Seq<char>>) -> Option<Seq<char>>
    decreases pats.len(),
{
    if pats.len() == 0 {
        None
    } else if !regex_accepts(pats[0]) {
        Some(pats[0])
    } else {
        first_rejected_text(pats.drop_first())
    }
}

proof fn lemma_first_rejected_views(pats: Seq<String>)
    ensures
        match first_rejected(pats) {
            Some(p) => first_rejected_text(views(pats)) == Some(p@),
            None => first_rejected_text(views(pats)) is None,
        },
    decreases pats.len(),
{
    if pats.len() > 0 {
        assert(views(pats.drop_first()) =~= views(pats).drop_first());
        lemma_first_rejected_views(pats.drop_first());
    }
}

/// Every pattern compiles.
pub open spec fn all_accepted(pats: Seq<String>) -> bool {
    forall|i: int| 0 <= i < pats.len() ==> regex_accepts(#[trigger] pats[i]@)
}

impl AntiSlopRules {
    /// The rule set can be used as compiled: all patterns compile.
    pub open spec fn wf(&self) -> bool {
        &&& all_accepted(self.placeholder_regex@)
        &&& all_accepted(self.fabricated_metric_regex@)
    }
}

proof fn lemma_first_rejected_none(pats: Seq<String>)
    ensures
        first_rejected(pats) is None <==> all_accepted(pats),
    decreases pats.len(),
{
    if pats.len() > 0 {
        lemma_first_rejected_none(pats.drop_first());
        if all_accepted(pats) {
            assert forall|i: int| 0 <= i < pats.drop_first().len() implies regex_accepts(
                #[trigger] pats.drop_first()[i]@,
            ) by {
                assert(pats.drop_first()[i] == pats[i + 1]);
            }
        }
        if regex_accepts(pats[0]@) && all_accepted(pats.drop_first()) {
            assert forall|i: int| 0 <= i < pats.len() implies regex_accepts(#[trigger] pats[i]@) by {
                if i > 0 {
                    assert(pats[i] == pats.drop_first()[i - 1]);
                }
            }
        }
    }
}

/// Checks that every pattern compiles; reports the first that does not.
fn check_patterns(pats: &Vec<String>) -> (r: Result<(), RulesError>)
    ensures
        match first_rejected(pats@) {
            None => r is Ok,
            Some(p) => r matches Err(RulesError::BadRegex { pattern, .. }) && pattern@ == p@,
        },
{
    let mut i: usize = 0;
    assert(pats@.skip(0) =~= pats@);
    while i < pats.len()
        invariant
            i <= pats@.len(),
            first_rejected(pats@) == first_rejected(pats@.skip(i as int)),
        decreases pats.len() - i,
    {
        let ghost rest = pats@.skip(i as int);
        assert(rest[0] == pats@[i as int]);
        match regex_compile(pats[i].as_str()) {
            Ok(()) => {},
            Err(source) => {
                return Err(RulesError::BadRegex { pattern: to_owned(pats[i].as_str()), source });
            },
        }
        assert(rest.drop_first() =~= pats@.skip(i + 1));
        i = i + 1;
    }
    assert(pats@.skip(i as int).len() == 0);
    Ok(())
}

/// Lower-cases every text of a list.
fn lower_all(v: &Vec<String>) -> (r: Vec<String>)
    ensures
        r@.len() == v@.len(),
        forall|i: int| 0 <= i < v@.len() ==> #[trigger] r@[i]@ == lower(v@[i]@),
{
    let mut r: Vec<String> = Vec::new();
    let mut i: usize = 0;
    while i < v.len()
        invariant
            i <= v.len(),
            r@.len() == i,
            forall|j: int| 0 <= j < i ==> #[trigger] r@[j]@ == lower(v@[j]@),
        decreases v.len() - i,
    {
        r.push(to_ascii_lowercase(v[i].as_str()));
        i = i + 1;
    }
    r
}

impl AntiSlopRules {
    /// Compile a rule file: lower-case the banned colours and check that
    /// every placeholder pattern, then every metric pattern, compiles.
    pub fn from_raw(raw: RawRules) -> (r: Result<Self, RulesError>)
        ensures
            match (first_rejected(raw.placeholder_regex@), first_rejected(
                raw.fabricated_metric_regex@,
            )) {
                (Some(p), _) => r matches Err(RulesError::BadRegex { pattern, .. }) && pattern@
                    == p@,
                (None, Some(p)) => r matches Err(RulesError::BadRegex { pattern, .. }) && pattern@
                    == p@,
                (None, None) => r matches Ok(rules) && rules.wf() && rules.version == raw.version
                    && rules.banned_hex@.len() == raw.banned_hex@.len() && (forall|i: int|
                    0 <= i < raw.banned_hex@.len() ==> #[trigger] rules.banned_hex@[i]@ == lower(
                        raw.banned_hex@[i]@,
                    )) && rules.banned_emoji == raw.banned_emoji && rules.banned_display_fonts
                    == raw.banned_display_fonts && rules.placeholder_regex == raw.placeholder_regex
                    && rules.fabricated_metric_regex == raw.fabricated_metric_regex,
            },
    {
        let banned_hex = lower_all(&raw.banned_hex);
        check_patterns(&raw.placeholder_regex)?;
        check_patterns(&raw.fabricated_metric_regex)?;
        proof {
            lemma_first_rejected_none(raw.placeholder_regex@);
            lemma_first_rejected_none(raw.fabricated_metric_regex@);
        }
        Ok(AntiSlopRules {
            version: raw.version,
            banned_hex,
            banned_emoji: raw.banned_emoji,
            banned_display_fonts: raw.banned_display_fonts,
            placeholder_regex: raw.placeholder_regex,
            fabricated_metric_regex: raw.fabricated_metric_regex,
        })
    }
}


// ── the bundled rule file ──────────────────────────────────────────────────

/// The brand colours the bundled rules ban: the default indigo and violet
/// ramps that generated designs reach for.
pub open spec fn bundled_hex() -> Seq<Seq<char>> {
    seq![
        "#6366F1"@,
        "#4F46E5"@,
        "#818CF8"@,
        "#8B5CF6"@,
        "#7C3AED"@,
        "#A855F7"@,
        "#9333EA"@,
    ]
}

/// Emoji banned in functional roles (buttons, headings, bullets).
pub open spec fn bundled_emoji() -> Seq<Seq<char>> {
    seq![
        "🚀"@, "✨"@, "🔥"@, "💡"@, "🎯"@, "⚡"@, "🎉"@, "💎"@, "🌟"@, "✅"@, "📈"@, "🔒"@,
        "💪"@, "🙌"@, "👉"@, "⭐"@, "🏆"@,
    ]
}

/// Fonts that read as an unconsidered default when used for display.
pub open spec fn bundled_fonts() -> Seq<Seq<char>> {
    seq!["Helvetica Neue"@, "Helvetica"@, "Arial"@, "Roboto"@, "Open Sans"@, "Montserrat"@, "Poppins"@]
}

/// Placeholder copy: lorem ipsum, numbered features, stock names.
pub open spec fn bundled_placeholders() -> Seq<Seq<char>> {
    seq![
        "(?i)lorem ipsum"@,
        "(?i)\\bfeature (one|two|three|four|1|2|3|4)\\b"@,
        "(?i)\\b(john|jane) doe\\b"@,
        "(?i)your (company|product|brand) name"@,
    ]
}

/// Bold claims with made-up numbers.
pub open spec fn bundled_metrics() -> Seq<Seq<char>> {
    seq![
        "(?i)\\b\\d+(\\.\\d+)?x (faster|more|better|cheaper|smarter)\\b"@,
        "(?i)\\b\\d{2,3}% of (users|customers|teams|companies)\\b"@,
        "(?i)\\b(trusted by|loved by) \\d[\\d,.]*\\+? "@,
    ]
}

fn strings(v: Vec<&str>) -> (r: Vec<String>)
    ensures
        views(r@) == v@.map_values(|s: &str| s@),
{
    let mut r: Vec<String> = Vec::new();
    let mut i: usize = 0;
    while i < v.len()
        invariant
            i <= v@.len(),
            views(r@) == v@.subrange(0, i as int).map_values(|s: &str| s@),
        decreases v.len() - i,
    {
        let ghost before = r@;
        let t = to_owned(v[i]);
        r.push(t);
        assert(views(r@) =~= views(before).push(v@[i as int]@));
        assert(v@.subrange(0, i + 1).map_values(|s: &str| s@) =~= v@.subrange(0, i as int).map_values(
            |s: &str| s@,
        ).push(v@[i as int]@));
        i = i + 1;
    }
    assert(v@.subrange(0, v@.len() as int) =~= v@);
    r
}

/// The rule file bundled with the library, as written.
pub fn bundled_raw() -> (raw: RawRules)
    ensures
        raw.version == 1,
        views(raw.banned_hex@) == bundled_hex(),
        views(raw.banned_emoji@) == bundled_emoji(),
        views(raw.banned_display_fonts@) == bundled_fonts(),
        views(raw.placeholder_regex@) == bundled_placeholders(),
        views(raw.fabricated_metric_regex@) == bundled_metrics(),
{
    let banned_hex = strings(
        vec!["#6366F1", "#4F46E5", "#818CF8", "#8B5CF6", "#7C3AED", "#A855F7", "#9333EA"],
    );
    let banned_emoji = strings(
        vec![
            "🚀", "✨", "🔥", "💡", "🎯", "⚡", "🎉", "💎", "🌟", "✅", "📈", "🔒", "💪", "🙌",
            "👉", "⭐", "🏆",
        ],
    );
    let banned_display_fonts = strings(
        vec!["Helvetica Neue", "Helvetica", "Arial", "Roboto", "Open Sans", "Montserrat", "Poppins"],
    );
    let placeholder_regex = strings(
        vec![
            "(?i)lorem ipsum",
            "(?i)\\bfeature (one|two|three|four|1|2|3|4)\\b",
            "(?i)\\b(john|jane) doe\\b",
            "(?i)your (company|product|brand) name",
        ],
    );
    let fabricated_metric_regex = strings(
        vec![
            "(?i)\\b\\d+(\\.\\d+)?x (faster|more|better|cheaper|smarter)\\b",
            "(?i)\\b\\d{2,3}% of (users|customers|teams|companies)\\b",
            "(?i)\\b(trusted by|loved by) \\d[\\d,.]*\\+? ",
        ],
    );
    RawRules {
        version: 1,
        banned_hex,
        banned_emoji,
        banned_display_fonts,
        placeholder_regex,
        fabricated_metric_regex,
    }
}

impl AntiSlopRules {
    /// The rules bundled with the library, compiled.
    pub fn bundled() -> (r: Result<Self, RulesError>)
        ensures
            ({
                match (first_rejected_text(bundled_placeholders()), first_rejected_text(
                    bundled_metrics(),
                )) {
                    (Some(p), _) => r matches Err(RulesError::BadRegex { pattern, .. }) && pattern@
                        == p,
                    (None, Some(p)) => r matches Err(RulesError::BadRegex { pattern, .. })
                        && pattern@ == p,
                    (None, None) => r matches Ok(rules) && rules.wf() && rules.version == 1
                        && views(rules.banned_hex@) == bundled_hex().map_values(
                        |h: Seq<char>| lower(h),
                    ) && views(rules.banned_emoji@) == bundled_emoji() && views(
                        rules.banned_display_fonts@,
                    ) == bundled_fonts() && views(rules.placeholder_regex@)
                        == bundled_placeholders() && views(rules.fabricated_metric_regex@)
                        == bundled_metrics(),
                }
            }),
    {
        let raw = bundled_raw();
        let ghost hex = raw.banned_hex@;
        proof {
            lemma_first_rejected_views(raw.placeholder_regex@);
            lemma_first_rejected_views(raw.fabricated_metric_regex@);
        }
        let r = Self::from_raw(raw);
        proof {
            if r is Ok {
                let rules = r->Ok_0;
                assert(views(rules.banned_hex@) =~= bundled_hex().map_values(|h: Seq<char>| lower(h)))
                    by {
                    assert forall|i: int| 0 <= i < hex.len() implies views(rules.banned_hex@)[i]
                        == lower(bundled_hex()[i]) by {
                        assert(views(hex)[i] == hex[i]@);
                    }
                }
            }
        }
        r
    }
}

} // verus!
