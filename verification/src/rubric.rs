//! Five-dimensional critique rubric.
//!
//! The Critic model emits a report through the `critic_emit` tool. This
//! module owns the rubric prompt ([`RUBRIC_MD`]) and the deterministic gate
//! ([`validate_report`]) that enforces the discipline rules the model may
//! otherwise skip: scores in range, the innovation cap, bands matching
//! scores, the `why_not_5` / `why_not_7` justifications, worst-of-5 totals,
//! and concrete (non-vacuous) evidence.

use vstd::prelude::*;
use crate::json::Json;
use crate::text::{all_ws, has_sub, is_blank, lower, lower_chars, chars_of, push_str, vec_contains};

verus! {

/// The rubric prompt the Critic role receives verbatim.
pub const RUBRIC_MD: &'static str = "# 5-Dimensional Critique Rubric

Score the design on five dimensions, each on a 1-10 scale:

1. **Philosophy consistency** — does every screen express the same design
   intent, tone and visual direction as the DS and the brief?
2. **Visual hierarchy** — is the primary action obvious, is reading order
   clear, does type scale carry importance?
3. **Craft** — grid, spacing rhythm, alignment, token use, state coverage.
4. **Functionality** — can the user complete the job: labels, feedback,
   error and empty states, affordances.
5. **Innovation** — is there a considered idea beyond the default layout?
   Innovation is capped at 8.

## Bands

- 1-2 broken, 3-4 needs_work, 5-6 acceptable, 7-8 good, 9-10 exemplary.
- The band must match the score.

## Discipline

- A score of 6 or more requires `why_not_5`: what makes it better than
  merely acceptable.
- A score of 8 or more also requires `why_not_7`.
- `totalScore` is the worst-of-5: the minimum of the five scores, and
  `worstDimension` names the first dimension with that score.
- Evidence must be a concrete observation about a node. Vacuous adjectives
  (looks good, feels clean, professional, modern, sleek, polished, clean
  look, nice touch) are rejected.

## Output

Emit exactly one `critic_emit` tool call. No prose.
";

#[derive(Debug, Clone, Copy, PartialEq, Eq, Structural)]
pub enum Dimension {
    Philosophy,
    Hierarchy,
    Craft,
    Functionality,
    Innovation,
}

#[derive(Debug, Clone, Copy, PartialEq, Eq, Structural)]
pub enum Band {
    /// 1–2
    Broken,
    /// 3–4
    NeedsWork,
    /// 5–6
    Acceptable,
    /// 7–8
    Good,
    /// 9–10 — reserved for landmark work (and never for `innovation`).
    Exemplary,
}

#[derive(Debug)]
pub struct DimensionScore {
    pub score: u8,
    pub band: Band,
    pub why_not_5: Option<String>,
    pub why_not_7: Option<String>,
}

/// One fix operation proposed by a finding.
#[derive(Debug)]
pub struct FixOp {
    pub op: String,
    pub parent: Option<String>,
    pub instance_ref: Option<String>,
    pub props: Option<Json>,
    pub extra: Vec<(String, Json)>,
}

#[derive(Debug)]
pub struct RubricFinding {
    pub dimension: Dimension,
    /// `P0` / `P1` / `P2`.
    pub severity: String,
    pub node_id: String,
    pub evidence: String,
    pub fix_ops: Vec<Json>,
}

#[derive(Debug)]
pub struct CritiqueScores {
    pub philosophy: DimensionScore,
    pub hierarchy: DimensionScore,
    pub craft: DimensionScore,
    pub functionality: DimensionScore,
    pub innovation: DimensionScore,
}

#[derive(Debug)]
pub struct CritiqueReport {
    pub plan_id: String,
    pub scores: CritiqueScores,
    pub total_score: u8,
    pub worst_dimension: Dimension,
    pub findings: Vec<RubricFinding>,
}

/// Why a report was rejected.
#[derive(Debug)]
#[allow(inconsistent_fields)]
pub enum RubricError {
    Decode(String),
    OutOfRange(u8, &'static str),
    InnovationCap(u8),
    MissingWhyNot5(&'static str, u8),
    MissingWhyNot7(&'static str, u8),
    TotalScoreMismatch { claimed: u8, actual: u8 },
    WorstDimensionMismatch { claimed: &'static str, actual: &'static str },
    BandMismatch { dim: &'static str, score: u8, band: &'static str },
    VacuousEvidence(&'static str),
    EmptyEvidence,
}

/// A rejection, with texts as character sequences.
#[allow(inconsistent_fields)]
pub enum RubricFault {
    Decode(Seq<char>),
    OutOfRange(u8, Seq<char>),
    InnovationCap(u8),
    MissingWhyNot5(Seq<char>, u8),
    MissingWhyNot7(Seq<char>, u8),
    TotalScoreMismatch { claimed: u8, actual: u8 },
    WorstDimensionMismatch { claimed: Seq<char>, actual: Seq<char> },
    BandMismatch { dim: Seq<char>, score: u8, band: Seq<char> },
    VacuousEvidence(Seq<char>),
    EmptyEvidence,
}

impl View for RubricError {
    type V = RubricFault;

    open spec fn view(&self) -> RubricFault {
        match *self {
            RubricError::Decode(m) => RubricFault::Decode(m@),
            RubricError::OutOfRange(s, n) => RubricFault::OutOfRange(s, n@),
            RubricError::InnovationCap(s) => RubricFault::InnovationCap(s),
            RubricError::MissingWhyNot5(n, s) => RubricFault::MissingWhyNot5(n@, s),
            RubricError::MissingWhyNot7(n, s) => RubricFault::MissingWhyNot7(n@, s),
            RubricError::TotalScoreMismatch { claimed, actual } => RubricFault::TotalScoreMismatch {
                claimed,
                actual,
            },
            RubricError::WorstDimensionMismatch { claimed, actual } =>
                RubricFault::WorstDimensionMismatch { claimed: claimed@, actual: actual@ },
            RubricError::BandMismatch { dim, score, band } => RubricFault::BandMismatch {
                dim: dim@,
                score,
                band: band@,
            },
            RubricError::VacuousEvidence(p) => RubricFault::VacuousEvidence(p@),
            RubricError::EmptyEvidence => RubricFault::EmptyEvidence,
        }
    }
}

// ── specification ──────────────────────────────────────────────────────────

pub open spec fn dimension_name(d: Dimension) -> Seq<char> {
    match d {
        Dimension::Philosophy => "philosophy"@,
        Dimension::Hierarchy => "hierarchy"@,
        Dimension::Craft => "craft"@,
        Dimension::Functionality => "functionality"@,
        Dimension::Innovation => "innovation"@,
    }
}

/// `{:?}` of a band.
pub open spec fn band_debug(b: Band) -> Seq<char> {
    match b {
        Band::Broken => "Broken"@,
        Band::NeedsWork => "NeedsWork"@,
        Band::Acceptable => "Acceptable"@,
        Band::Good => "Good"@,
        Band::Exemplary => "Exemplary"@,
    }
}

/// The band a score belongs to; none outside `1..=10`.
pub open spec fn band_for(score: u8) -> Option<Band> {
    if 1 <= score && score <= 2 {
        Some(Band::Broken)
    } else if 3 <= score && score <= 4 {
        Some(Band::NeedsWork)
    } else if 5 <= score && score <= 6 {
        Some(Band::Acceptable)
    } else if 7 <= score && score <= 8 {
        Some(Band::Good)
    } else if 9 <= score && score <= 10 {
        Some(Band::Exemplary)
    } else {
        None
    }
}

/// A justification is present and non-empty.
pub open spec fn justified(j: Option<String>) -> bool {
    j matches Some(s) && s@.len() > 0
}

/// The first discipline rule one dimension's score breaks.
pub open spec fn dim_fault(d: Dimension, s: DimensionScore) -> Option<RubricFault> {
    let name = dimension_name(d);
    if !(1 <= s.score && s.score <= 10) {
        Some(RubricFault::OutOfRange(s.score, name))
    } else if d == Dimension::Innovation && s.score > 8 {
        Some(RubricFault::InnovationCap(s.score))
    } else if band_for(s.score) != Some(s.band) {
        Some(RubricFault::BandMismatch { dim: name, score: s.score, band: band_debug(s.band) })
    } else if s.score >= 6 && !justified(s.why_not_5) {
        Some(RubricFault::MissingWhyNot5(name, s.score))
    } else if s.score >= 8 && !justified(s.why_not_7) {
        Some(RubricFault::MissingWhyNot7(name, s.score))
    } else {
        None
    }
}

pub open spec fn score_of(sc: CritiqueScores, d: Dimension) -> DimensionScore {
    match d {
        Dimension::Philosophy => sc.philosophy,
        Dimension::Hierarchy => sc.hierarchy,
        Dimension::Craft => sc.craft,
        Dimension::Functionality => sc.functionality,
        Dimension::Innovation => sc.innovation,
    }
}

/// The five dimensions in rubric order.
pub open spec fn dims() -> Seq<Dimension> {
    seq![
        Dimension::Philosophy,
        Dimension::Hierarchy,
        Dimension::Craft,
        Dimension::Functionality,
        Dimension::Innovation,
    ]
}

/// The first fault among the five dimensions, in rubric order.
pub open spec fn scores_fault(sc: CritiqueScores) -> Option<RubricFault> {
    if dim_fault(Dimension::Philosophy, sc.philosophy) is Some {
        dim_fault(Dimension::Philosophy, sc.philosophy)
    } else if dim_fault(Dimension::Hierarchy, sc.hierarchy) is Some {
        dim_fault(Dimension::Hierarchy, sc.hierarchy)
    } else if dim_fault(Dimension::Craft, sc.craft) is Some {
        dim_fault(Dimension::Craft, sc.craft)
    } else if dim_fault(Dimension::Functionality, sc.functionality) is Some {
        dim_fault(Dimension::Functionality, sc.functionality)
    } else {
        dim_fault(Dimension::Innovation, sc.innovation)
    }
}

/// Worst-of-5 over the first `n` dimensions: the lowest score, and the
/// first dimension that has it.
pub open spec fn worst_prefix(sc: CritiqueScores, n: nat) -> (Dimension, u8)
    decreases n,
{
    if n <= 1 {
        (Dimension::Philosophy, sc.philosophy.score)
    } else {
        let prev = worst_prefix(sc, (n - 1) as nat);
        let d = dims()[n - 1];
        if score_of(sc, d).score < prev.1 {
            (d, score_of(sc, d).score)
        } else {
            prev
        }
    }
}

/// Worst-of-5: the lowest score and the first dimension that has it.
pub open spec fn worst(sc: CritiqueScores) -> (Dimension, u8) {
    worst_prefix(sc, 5)
}

/// The banned vacuous evidence phrases.
pub open spec fn phrases() -> Seq<Seq<char>> {
    seq![
        "looks good"@,
        "feels clean"@,
        "professional"@,
        "modern"@,
        "sleek"@,
        "polished"@,
        "clean look"@,
        "nice touch"@,
    ]
}

/// The first banned phrase contained in the (lower-cased) evidence.
pub open spec fn first_phrase_in(ev: Seq<char>, n: nat) -> Option<Seq<char>>
    decreases 8 - n,
{
    if n >= 8 {
        None
    } else if has_sub(ev, phrases()[n as int]) {
        Some(phrases()[n as int])
    } else {
        first_phrase_in(ev, n + 1)
    }
}

/// The first finding whose evidence is blank or vacuous.
pub open spec fn findings_fault(fs: Seq<RubricFinding>) -> Option<RubricFault>
    decreases fs.len(),
{
    if fs.len() == 0 {
        None
    } else if all_ws(fs[0].evidence@) {
        Some(RubricFault::EmptyEvidence)
    } else if first_phrase_in(lower(fs[0].evidence@), 0) is Some {
        Some(RubricFault::VacuousEvidence(first_phrase_in(lower(fs[0].evidence@), 0)->0))
    } else {
        findings_fault(fs.drop_first())
    }
}

/// The first rule a report breaks, in the order `validate_report` tests them.
pub open spec fn report_fault(r: CritiqueReport) -> Option<RubricFault> {
    let (wd, ws) = worst(r.scores);
    if scores_fault(r.scores) is Some {
        scores_fault(r.scores)
    } else if r.total_score != ws {
        Some(RubricFault::TotalScoreMismatch { claimed: r.total_score, actual: ws })
    } else if r.worst_dimension != wd {
        Some(
            RubricFault::WorstDimensionMismatch {
                claimed: dimension_name(r.worst_dimension),
                actual: dimension_name(wd),
            },
        )
    } else {
        findings_fault(r.findings@)
    }
}

// ── executable gate ────────────────────────────────────────────────────────

/// The banned vacuous evidence phrases (see the rubric's discipline).
pub const BANNED_EVIDENCE_PHRASES: [&'static str; 8] = [
    "looks good",
    "feels clean",
    "professional",
    "modern",
    "sleek",
    "polished",
    "clean look",
    "nice touch",
];

fn phrase(i: usize) -> (p: &'static str)
    requires
        i < 8,
    ensures
        p@ == phrases()[i as int],
{
    match i {
        0 => "looks good",
        1 => "feels clean",
        2 => "professional",
        3 => "modern",
        4 => "sleek",
        5 => "polished",
        6 => "clean look",
        _ => "nice touch",
    }
}

impl Dimension {
    /// The dimension's name as it appears in reports.
    pub fn as_str(self) -> (s: &'static str)
        ensures
            s@ == dimension_name(self),
    {
        match self {
            Dimension::Philosophy => "philosophy",
            Dimension::Hierarchy => "hierarchy",
            Dimension::Craft => "craft",
            Dimension::Functionality => "functionality",
            Dimension::Innovation => "innovation",
        }
    }

    /// Same as [`Dimension::as_str`].
    fn as_str_static(self) -> (s: &'static str)
        ensures
            s@ == dimension_name(self),
    {
        self.as_str()
    }
}

fn band_name(b: Band) -> (s: &'static str)
    ensures
        s@ == band_debug(b),
{
    match b {
        Band::Broken => "Broken",
        Band::NeedsWork => "NeedsWork",
        Band::Acceptable => "Acceptable",
        Band::Good => "Good",
        Band::Exemplary => "Exemplary",
    }
}

impl Band {
    /// The band a score belongs to; `None` outside `1..=10`.
    pub fn from_score(score: u8) -> (r: Option<Band>)
        ensures
            r == band_for(score),
    {
        if 1 <= score && score <= 2 {
            Some(Band::Broken)
        } else if 3 <= score && score <= 4 {
            Some(Band::NeedsWork)
        } else if 5 <= score && score <= 6 {
            Some(Band::Acceptable)
        } else if 7 <= score && score <= 8 {
            Some(Band::Good)
        } else if 9 <= score && score <= 10 {
            Some(Band::Exemplary)
        } else {
            None
        }
    }
}

fn copy_opt(o: &Option<String>) -> (r: Option<String>)
    ensures
        r == *o,
{
    match o {
        Some(s) => Some(s.clone()),
        None => None,
    }
}

impl DimensionScore {
    /// A copy of the score.
    pub fn copy(&self) -> (r: DimensionScore)
        ensures
            r == *self,
    {
        DimensionScore {
            score: self.score,
            band: self.band,
            why_not_5: copy_opt(&self.why_not_5),
            why_not_7: copy_opt(&self.why_not_7),
        }
    }
}

impl CritiqueScores {
    /// The score of one dimension.
    pub fn by_dimension(&self, d: Dimension) -> (r: &DimensionScore)
        ensures
            *r == score_of(*self, d),
    {
        match d {
            Dimension::Philosophy => &self.philosophy,
            Dimension::Hierarchy => &self.hierarchy,
            Dimension::Craft => &self.craft,
            Dimension::Functionality => &self.functionality,
            Dimension::Innovation => &self.innovation,
        }
    }

    /// The five dimensions with their scores, in rubric order.
    pub fn iter(&self) -> (r: Vec<(Dimension, DimensionScore)>)
        ensures
            r@.len() == 5,
            forall|i: int| 0 <= i < 5 ==> #[trigger] r@[i] == (dims()[i], score_of(*self, dims()[i])),
    {
        let mut r: Vec<(Dimension, DimensionScore)> = Vec::new();
        r.push((Dimension::Philosophy, self.philosophy.copy()));
        r.push((Dimension::Hierarchy, self.hierarchy.copy()));
        r.push((Dimension::Craft, self.craft.copy()));
        r.push((Dimension::Functionality, self.functionality.copy()));
        r.push((Dimension::Innovation, self.innovation.copy()));
        r
    }
}

fn is_justified(j: &Option<String>) -> (b: bool)
    ensures
        b == justified(*j),
{
    match j {
        Some(s) => !s.as_str().is_empty(),
        None => false,
    }
}

fn check_dim_score(dim: Dimension, s: &DimensionScore) -> (r: Result<(), RubricError>)
    ensures
        match dim_fault(dim, *s) {
            None => r is Ok,
            Some(f) => r matches Err(e) && e@ == f,
        },
{
    let name = dim.as_str_static();
    if !(1 <= s.score && s.score <= 10) {
        return Err(RubricError::OutOfRange(s.score, name));
    }
    if dim == Dimension::Innovation && s.score > 8 {
        return Err(RubricError::InnovationCap(s.score));
    }
    match Band::from_score(s.score) {
        Some(expected) => {
            if expected != s.band {
                return Err(
                    RubricError::BandMismatch { dim: name, score: s.score, band: band_name(s.band) },
                );
            }
        },
        None => {},
    }
    if s.score >= 6 && !is_justified(&s.why_not_5) {
        return Err(RubricError::MissingWhyNot5(name, s.score));
    }
    if s.score >= 8 && !is_justified(&s.why_not_7) {
        return Err(RubricError::MissingWhyNot7(name, s.score));
    }
    Ok(())
}

/// Worst-of-5: the lowest score and the first dimension that has it.
fn worst_of_five(scores: &CritiqueScores) -> (r: (Dimension, u8))
    ensures
        r == worst(*scores),
{
    let mut w = (Dimension::Philosophy, scores.philosophy.score);
    if scores.hierarchy.score < w.1 {
        w = (Dimension::Hierarchy, scores.hierarchy.score);
    }
    if scores.craft.score < w.1 {
        w = (Dimension::Craft, scores.craft.score);
    }
    if scores.functionality.score < w.1 {
        w = (Dimension::Functionality, scores.functionality.score);
    }
    if scores.innovation.score < w.1 {
        w = (Dimension::Innovation, scores.innovation.score);
    }
    proof {
        reveal_with_fuel(worst_prefix, 5);
    }
    w
}

/// The first banned phrase contained in `ev` (already lower-cased).
fn find_phrase(ev: &Vec<char>) -> (r: Option<&'static str>)
    ensures
        match first_phrase_in(ev@, 0) {
            None => r is None,
            Some(p) => r matches Some(q) && q@ == p,
        },
{
    let mut i: usize = 0;
    while i < 8
        invariant
            i <= 8,
            first_phrase_in(ev@, 0) == first_phrase_in(ev@, i as nat),
        decreases 8 - i,
    {
        let p = phrase(i);
        let pv = chars_of(p);
        if vec_contains(ev, &pv) {
            return Some(p);
        }
        i = i + 1;
    }
    None
}

fn check_findings(fs: &Vec<RubricFinding>) -> (r: Result<(), RubricError>)
    ensures
        match findings_fault(fs@) {
            None => r is Ok,
            Some(f) => r matches Err(e) && e@ == f,
        },
{
    let mut i: usize = 0;
    assert(fs@.skip(0) =~= fs@);
    while i < fs.len()
        invariant
            i <= fs@.len(),
            findings_fault(fs@) == findings_fault(fs@.skip(i as int)),
        decreases fs.len() - i,
    {
        let ghost rest = fs@.skip(i as int);
        assert(rest[0] == fs@[i as int]);
        let ev = fs[i].evidence.as_str();
        if is_blank(ev) {
            return Err(RubricError::EmptyEvidence);
        }
        let low = lower_chars(ev);
        match find_phrase(&low) {
            Some(p) => {
                return Err(RubricError::VacuousEvidence(p));
            },
            None => {},
        }
        assert(rest.drop_first() =~= fs@.skip(i + 1));
        i = i + 1;
    }
    assert(fs@.skip(i as int).len() == 0);
    Ok(())
}

/// Validate a decoded critique report, enforcing the rubric's discipline
/// rules in order: each dimension's score (philosophy first), the
/// worst-of-5 total, the worst dimension, then every finding's evidence.
/// Returns the report only when every rule holds.
pub fn validate_report(report: CritiqueReport) -> (r: Result<CritiqueReport, RubricError>)
    ensures
        match report_fault(report) {
            None => r matches Ok(rep) && rep == report,
            Some(f) => r matches Err(e) && e@ == f,
        },
{
    check_dim_score(Dimension::Philosophy, &report.scores.philosophy)?;
    check_dim_score(Dimension::Hierarchy, &report.scores.hierarchy)?;
    check_dim_score(Dimension::Craft, &report.scores.craft)?;
    check_dim_score(Dimension::Functionality, &report.scores.functionality)?;
    check_dim_score(Dimension::Innovation, &report.scores.innovation)?;
    let (actual_worst_dim, actual_worst_score) = worst_of_five(&report.scores);
    if report.total_score != actual_worst_score {
        return Err(
            RubricError::TotalScoreMismatch {
                claimed: report.total_score,
                actual: actual_worst_score,
            },
        );
    }
    if report.worst_dimension != actual_worst_dim {
        return Err(
            RubricError::WorstDimensionMismatch {
                claimed: report.worst_dimension.as_str(),
                actual: actual_worst_dim.as_str(),
            },
        );
    }
    check_findings(&report.findings)?;
    Ok(report)
}


// ── the `critic_emit` tool schema ──────────────────────────────────────────

/// The JSON text of one dimension's score object in the `critic_emit`
/// schema, with its cap.
pub open spec fn dim_score_schema(dim: Seq<char>, cap: Seq<char>) -> Seq<char> {
    "{\"type\": \"object\", \"required\": [\"score\", \"band\"], \"properties\": {\"score\": {\"type\": \"integer\", \"minimum\": 1, \"maximum\": "@
        + cap
        + "}, \"band\": {\"type\": \"string\", \"enum\": [\"broken\",\"needs_work\",\"acceptable\",\"good\",\"exemplary\"]}, \"why_not_5\": {\"type\": \"string\"}, \"why_not_7\": {\"type\": \"string\"}}, \"description\": \""@
        + dim
        + " dimension score; if score>=6 why_not_5 is REQUIRED, if score>=8 why_not_7 is REQUIRED\", \"additionalProperties\": false}"@
}

/// The JSON text of the `critic_emit` tool schema: the report shape that
/// [`validate_report`] checks, with the innovation score capped at 8.
pub open spec fn critic_emit_schema_text() -> Seq<char> {
    "{\"type\": \"function\", \"function\": {\"name\": \"critic_emit\", \"description\": \"Emit a 5-dimensional critique report. totalScore = min of the 5 scores (worst-of-5).\", \"parameters\": {\"type\": \"object\", \"required\": [\"planId\", \"scores\", \"totalScore\", \"worstDimension\", \"findings\"], \"properties\": {\"planId\": {\"type\": \"string\"}, \"scores\": {\"type\": \"object\", \"required\": [\"philosophy\",\"hierarchy\",\"craft\",\"functionality\",\"innovation\"], \"properties\": {\"philosophy\": "@
        + dim_score_schema("philosophy"@, "10"@)
        + ", \"hierarchy\": "@
        + dim_score_schema("hierarchy"@, "10"@)
        + ", \"craft\": "@
        + dim_score_schema("craft"@, "10"@)
        + ", \"functionality\": "@
        + dim_score_schema("functionality"@, "10"@)
        + ", \"innovation\": "@
        + dim_score_schema("innovation"@, "8"@)
        + "}, \"additionalProperties\": false}, \"totalScore\": {\"type\": \"integer\", \"minimum\": 1, \"maximum\": 10}, \"worstDimension\": {\"type\": \"string\", \"enum\": [\"philosophy\",\"hierarchy\",\"craft\",\"functionality\",\"innovation\"]}, \"findings\": {\"type\": \"array\", \"items\": {\"type\": \"object\", \"required\": [\"dimension\", \"severity\", \"evidence\"], \"properties\": {\"dimension\": {\"type\": \"string\", \"enum\": [\"philosophy\",\"hierarchy\",\"craft\",\"functionality\",\"innovation\"]}, \"severity\": {\"type\": \"string\", \"enum\": [\"P0\",\"P1\",\"P2\"]}, \"nodeId\": {\"type\": \"string\"}, \"evidence\": {\"type\": \"string\"}, \"fixOps\": {\"type\": \"array\"}}, \"additionalProperties\": false}}}, \"additionalProperties\": false}}}"@
}

fn push_dim_score_schema(s: &mut String, dim: &str, cap: &str)
    ensures
        final(s)@ == old(s)@ + dim_score_schema(dim@, cap@),
{
    push_str(
        s,
        "{\"type\": \"object\", \"required\": [\"score\", \"band\"], \"properties\": {\"score\": {\"type\": \"integer\", \"minimum\": 1, \"maximum\": ",
    );
    push_str(s, cap);
    push_str(
        s,
        "}, \"band\": {\"type\": \"string\", \"enum\": [\"broken\",\"needs_work\",\"acceptable\",\"good\",\"exemplary\"]}, \"why_not_5\": {\"type\": \"string\"}, \"why_not_7\": {\"type\": \"string\"}}, \"description\": \"",
    );
    push_str(s, dim);
    push_str(
        s,
        " dimension score; if score>=6 why_not_5 is REQUIRED, if score>=8 why_not_7 is REQUIRED\", \"additionalProperties\": false}",
    );
}

/// The `critic_emit` tool schema, as JSON text.
pub fn critic_emit_schema() -> (r: String)
    ensures
        r@ == critic_emit_schema_text(),
{
    let mut s = String::new();
    push_str(
        &mut s,
        "{\"type\": \"function\", \"function\": {\"name\": \"critic_emit\", \"description\": \"Emit a 5-dimensional critique report. totalScore = min of the 5 scores (worst-of-5).\", \"parameters\": {\"type\": \"object\", \"required\": [\"planId\", \"scores\", \"totalScore\", \"worstDimension\", \"findings\"], \"properties\": {\"planId\": {\"type\": \"string\"}, \"scores\": {\"type\": \"object\", \"required\": [\"philosophy\",\"hierarchy\",\"craft\",\"functionality\",\"innovation\"], \"properties\": {\"philosophy\": ",
    );
    push_dim_score_schema(&mut s, "philosophy", "10");
    push_str(&mut s, ", \"hierarchy\": ");
    push_dim_score_schema(&mut s, "hierarchy", "10");
    push_str(&mut s, ", \"craft\": ");
    push_dim_score_schema(&mut s, "craft", "10");
    push_str(&mut s, ", \"functionality\": ");
    push_dim_score_schema(&mut s, "functionality", "10");
    push_str(&mut s, ", \"innovation\": ");
    push_dim_score_schema(&mut s, "innovation", "8");
    push_str(
        &mut s,
        "}, \"additionalProperties\": false}, \"totalScore\": {\"type\": \"integer\", \"minimum\": 1, \"maximum\": 10}, \"worstDimension\": {\"type\": \"string\", \"enum\": [\"philosophy\",\"hierarchy\",\"craft\",\"functionality\",\"innovation\"]}, \"findings\": {\"type\": \"array\", \"items\": {\"type\": \"object\", \"required\": [\"dimension\", \"severity\", \"evidence\"], \"properties\": {\"dimension\": {\"type\": \"string\", \"enum\": [\"philosophy\",\"hierarchy\",\"craft\",\"functionality\",\"innovation\"]}, \"severity\": {\"type\": \"string\", \"enum\": [\"P0\",\"P1\",\"P2\"]}, \"nodeId\": {\"type\": \"string\"}, \"evidence\": {\"type\": \"string\"}, \"fixOps\": {\"type\": \"array\"}}, \"additionalProperties\": false}}}, \"additionalProperties\": false}}}",
    );
    assert(s@ =~= critic_emit_schema_text());
    s
}


// ── what an accepted report guarantees ─────────────────────────────────────

proof fn lemma_worst_is_minimum(sc: CritiqueScores)
    ensures
        forall|k: int| 0 <= k < 5 ==> worst(sc).1 <= #[trigger] score_of(sc, dims()[k]).score,
        score_of(sc, worst(sc).0).score == worst(sc).1,
        forall|k: int| 0 <= k < 5 && #[trigger] score_of(sc, dims()[k]).score == worst(sc).1 ==> {
            let w = worst(sc).0;
            exists|m: int| 0 <= m <= k && dims()[m] == w
        },
{
    reveal_with_fuel(worst_prefix, 6);
    let d = dims();
    assert(d[0] == Dimension::Philosophy && d[1] == Dimension::Hierarchy && d[2] == Dimension::Craft);
    assert(d[3] == Dimension::Functionality && d[4] == Dimension::Innovation);
    assert forall|k: int| 0 <= k < 5 && #[trigger] score_of(sc, dims()[k]).score == worst(sc).1 implies {
        let w = worst(sc).0;
        exists|m: int| 0 <= m <= k && dims()[m] == w
    } by {
        let w = worst(sc).0;
        if w == Dimension::Philosophy {
            assert(dims()[0] == w);
        } else if w == Dimension::Hierarchy {
            assert(dims()[1] == w);
        } else if w == Dimension::Craft {
            assert(dims()[2] == w);
        } else if w == Dimension::Functionality {
            assert(dims()[3] == w);
        } else {
            assert(dims()[4] == w);
        }
    }
}

/// A report that `validate_report` accepts is scored worst-of-5: its total
/// is the lowest of the five scores and its worst dimension is the first
/// dimension in rubric order with that score; every score lies in
/// `1..=10` in the band it names, and innovation stays at or below 8.
proof fn lemma_fault_free_scores(sc: CritiqueScores)
    requires
        scores_fault(sc) is None,
    ensures
        forall|k: int|
            0 <= k < 5 ==> 1 <= #[trigger] score_of(sc, dims()[k]).score <= 10 && band_for(
                score_of(sc, dims()[k]).score,
            ) == Some(score_of(sc, dims()[k]).band),
        sc.innovation.score <= 8,
{
    assert(dim_fault(Dimension::Philosophy, sc.philosophy) is None);
    assert(dim_fault(Dimension::Hierarchy, sc.hierarchy) is None);
    assert(dim_fault(Dimension::Craft, sc.craft) is None);
    assert(dim_fault(Dimension::Functionality, sc.functionality) is None);
    assert(dim_fault(Dimension::Innovation, sc.innovation) is None);
    let d = dims();
    assert(d[0] == Dimension::Philosophy && d[1] == Dimension::Hierarchy && d[2] == Dimension::Craft);
    assert(d[3] == Dimension::Functionality && d[4] == Dimension::Innovation);
}

/// A report that `validate_report` accepts is scored worst-of-5: its total
/// is the lowest of the five scores and its worst dimension is the first
/// dimension in rubric order with that score; every score lies in
/// `1..=10` in the band it names, and innovation stays at or below 8.
pub proof fn law_accepted_report_is_worst_of_five(r: CritiqueReport)
    requires
        report_fault(r) is None,
    ensures
        forall|k: int| 0 <= k < 5 ==> r.total_score <= #[trigger] score_of(r.scores, dims()[k]).score,
        score_of(r.scores, r.worst_dimension).score == r.total_score,
        forall|k: int|
            0 <= k < 5 && #[trigger] score_of(r.scores, dims()[k]).score == r.total_score ==> exists|m: int|
                0 <= m <= k && dims()[m] == r.worst_dimension,
        forall|k: int|
            0 <= k < 5 ==> 1 <= #[trigger] score_of(r.scores, dims()[k]).score <= 10 && band_for(
                score_of(r.scores, dims()[k]).score,
            ) == Some(score_of(r.scores, dims()[k]).band),
        r.scores.innovation.score <= 8,
{
    assert(scores_fault(r.scores) is None);
    assert(r.total_score == worst(r.scores).1);
    assert(r.worst_dimension == worst(r.scores).0);
    lemma_worst_is_minimum(r.scores);
    lemma_fault_free_scores(r.scores);
}

} // verus!
