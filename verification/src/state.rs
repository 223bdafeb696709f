//! Session state machine.
//!
//! Phases, in strict order:
//!   Intake     — raw PRD received
//!   Interpret  — Interpreter produced (or restored) a Brief
//!   Clarify    — Turn-1 form asked; awaiting answers
//!   DsBound    — DS loaded, direction pinned
//!   Planned    — DesignPlan emitted
//!   Executed   — the Figma run returned a readback
//!   Critiqued  — Critic findings attached; terminal
//!
//! Each transition is fallible; an invalid jump returns an error and leaves
//! the session as it was.

use vstd::prelude::*;
use crate::brief::{Brief, ClarifyAnswer, ClarifyAsk, Platform};
use crate::json::Json;
use crate::text::{str_eq, views};

verus! {

#[derive(Debug, Clone, Copy, PartialEq, Eq, Structural)]
pub enum Phase {
    Intake,
    Interpret,
    Clarify,
    DsBound,
    Planned,
    Executed,
    Critiqued,
}

/// Why a transition was refused.
#[derive(Debug)]
pub enum Transition {
    /// The session is not in a phase the transition starts from.
    Invalid { from: Phase, to: Phase },
    /// A phase needs a piece of data that is not set.
    Missing(Phase, String),
}

/// A full session. Fields accumulate as phases advance; earlier phases
/// never clear later-phase data (allows resume + replay).
#[derive(Debug)]
pub struct Session {
    pub id: String,
    pub phase: Phase,
    pub prd: String,
    pub brief: Option<Brief>,
    pub asks: Vec<ClarifyAsk>,
    pub answers: Vec<ClarifyAnswer>,
    pub ds_ref: Option<String>,
    pub direction: Option<String>,
    pub plan: Option<Json>,
    pub readback: Option<Json>,
    pub findings: Option<Json>,
}

// ── specification ──────────────────────────────────────────────────────────

/// The phase a session normally moves to next (the terminal phase maps to
/// itself).
pub open spec fn next_phase_of(p: Phase) -> Phase {
    match p {
        Phase::Intake => Phase::Interpret,
        Phase::Interpret => Phase::Clarify,
        Phase::Clarify => Phase::DsBound,
        Phase::DsBound => Phase::Planned,
        Phase::Planned => Phase::Executed,
        Phase::Executed => Phase::Critiqued,
        Phase::Critiqued => Phase::Critiqued,
    }
}

/// Position of a phase in the strict order.
pub open spec fn rank(p: Phase) -> nat {
    match p {
        Phase::Intake => 0,
        Phase::Interpret => 1,
        Phase::Clarify => 2,
        Phase::DsBound => 3,
        Phase::Planned => 4,
        Phase::Executed => 5,
        Phase::Critiqued => 6,
    }
}

/// The refusal a session in phase `p` answers with.
pub open spec fn refusal(p: Phase) -> Transition {
    Transition::Invalid { from: p, to: next_phase_of(p) }
}

/// A session that has just received its PRD: only the id and the PRD are
/// set.
pub open spec fn is_fresh(s: Session, id: String, prd: String) -> bool {
    &&& s.id == id
    &&& s.phase == Phase::Intake
    &&& s.prd == prd
    &&& s.brief is None
    &&& s.asks@.len() == 0
    &&& s.answers@.len() == 0
    &&& s.ds_ref is None
    &&& s.direction is None
    &&& s.plan is None
    &&& s.readback is None
    &&& s.findings is None
}

pub open spec fn step_interpret(s: Session, brief: Brief) -> Result<Session, Transition> {
    if s.phase == Phase::Intake {
        Ok(Session { brief: Some(brief), phase: Phase::Interpret, ..s })
    } else {
        Err(refusal(s.phase))
    }
}

pub open spec fn step_clarify_ask(s: Session, asks: Vec<ClarifyAsk>) -> Result<Session, Transition> {
    if s.phase == Phase::Interpret {
        Ok(Session { asks, phase: Phase::Clarify, ..s })
    } else {
        Err(refusal(s.phase))
    }
}

/// The values of the first non-empty answer to the ask with this id.
pub open spec fn answer_values(answers: Seq<ClarifyAnswer>, id: Seq<char>) -> Option<Vec<String>>
    decreases answers.len(),
{
    if answers.len() == 0 {
        None
    } else if answers[0].id@ == id && answers[0].values@.len() > 0 {
        Some(answers[0].values)
    } else {
        answer_values(answers.drop_first(), id)
    }
}

/// The first value of the first non-empty answer to the `direction` ask.
pub open spec fn direction_answer(answers: Seq<ClarifyAnswer>) -> Option<String> {
    match answer_values(answers, "direction"@) {
        Some(v) => Some(v@[0]),
        None => None,
    }
}

/// The platform a name stands for (`mobile`, `desktop`, `responsive`).
pub open spec fn platform_named(n: Seq<char>) -> Option<Platform> {
    if n == "mobile"@ {
        Some(Platform::Mobile)
    } else if n == "desktop"@ {
        Some(Platform::Desktop)
    } else if n == "responsive"@ {
        Some(Platform::Responsive)
    } else {
        None
    }
}

/// The platform a `platform` answer names: its first value.
pub open spec fn platform_answer(answers: Seq<ClarifyAnswer>) -> Option<Platform> {
    match answer_values(answers, "platform"@) {
        Some(v) => platform_named(v@[0]@),
        None => None,
    }
}

/// A Brief with the Turn-1 answers merged in: the answered direction, the
/// platform named by a `platform` answer, and the values of a `screens`
/// answer replace the Brief's own; fields without an answer stay.
pub open spec fn merged_brief(b: Brief, answers: Seq<ClarifyAnswer>) -> Brief {
    Brief {
        direction: match direction_answer(answers) {
            Some(d) => Some(d),
            None => b.direction,
        },
        platform: match platform_answer(answers) {
            Some(p) => Some(p),
            None => b.platform,
        },
        screens: match answer_values(answers, "screens"@) {
            Some(v) => v,
            None => b.screens,
        },
        ..b
    }
}

pub open spec fn brief_after_answers(b: Option<Brief>, answers: Seq<ClarifyAnswer>) -> Option<Brief> {
    match b {
        Some(b) => Some(merged_brief(b, answers)),
        None => None,
    }
}

pub open spec fn step_clarify_answer(s: Session, answers: Vec<ClarifyAnswer>) -> Result<
    Session,
    Transition,
> {
    if s.phase == Phase::Clarify {
        Ok(
            Session {
                answers,
                direction: match direction_answer(answers@) {
                    Some(d) => Some(d),
                    None => s.direction,
                },
                brief: brief_after_answers(s.brief, answers@),
                ..s
            },
        )
    } else {
        Err(refusal(s.phase))
    }
}

/// The brief with its direction replaced.
pub open spec fn brief_with_direction(b: Option<Brief>, d: String) -> Option<Brief> {
    match b {
        Some(b) => Some(Brief { direction: Some(d), ..b }),
        None => None,
    }
}

pub open spec fn step_ds_bind(s: Session, ds_ref: String, direction: Option<String>) -> Result<
    Session,
    Transition,
> {
    if s.phase == Phase::Interpret || s.phase == Phase::Clarify {
        match direction {
            Some(d) => Ok(
                Session {
                    ds_ref: Some(ds_ref),
                    direction: Some(d),
                    brief: brief_with_direction(s.brief, d),
                    phase: Phase::DsBound,
                    ..s
                },
            ),
            None => Ok(Session { ds_ref: Some(ds_ref), phase: Phase::DsBound, ..s }),
        }
    } else {
        Err(refusal(s.phase))
    }
}

pub open spec fn step_plan(s: Session, plan: Json) -> Result<Session, Transition> {
    if s.phase == Phase::DsBound {
        Ok(Session { plan: Some(plan), phase: Phase::Planned, ..s })
    } else {
        Err(refusal(s.phase))
    }
}

pub open spec fn step_execute(s: Session, readback: Json) -> Result<Session, Transition> {
    if s.phase == Phase::Planned {
        Ok(Session { readback: Some(readback), phase: Phase::Executed, ..s })
    } else {
        Err(refusal(s.phase))
    }
}

pub open spec fn step_critique(s: Session, findings: Json) -> Result<Session, Transition> {
    if s.phase == Phase::Executed {
        Ok(Session { findings: Some(findings), phase: Phase::Critiqued, ..s })
    } else {
        Err(refusal(s.phase))
    }
}

/// How a transition call relates the session before and after to the
/// specified step: on success the session becomes the step's result, on
/// refusal it is left unchanged and the refusal is returned.
pub open spec fn applied(
    before: Session,
    after: Session,
    r: Result<(), Transition>,
    step: Result<Session, Transition>,
) -> bool {
    match step {
        Ok(t) => r is Ok && same_session(after, t),
        Err(e) => r == Err::<(), Transition>(e) && after == before,
    }
}

/// Two briefs that agree on every field, the screens compared by their
/// texts.
pub open spec fn same_brief(a: Option<Brief>, b: Option<Brief>) -> bool {
    match (a, b) {
        (Some(x), Some(y)) => Brief { screens: x.screens, ..y } == x && views(x.screens@) == views(
            y.screens@,
        ),
        (None, None) => true,
        _ => false,
    }
}

/// Two sessions that agree on every field, the Brief's screens compared by
/// their texts.
pub open spec fn same_session(a: Session, b: Session) -> bool {
    Session { brief: a.brief, ..b } == a && same_brief(a.brief, b.brief)
}

// ── executable state machine ───────────────────────────────────────────────

/// The phase a session normally moves to next.
pub fn next_phase(p: Phase) -> (r: Phase)
    ensures
        r == next_phase_of(p),
{
    match p {
        Phase::Intake => Phase::Interpret,
        Phase::Interpret => Phase::Clarify,
        Phase::Clarify => Phase::DsBound,
        Phase::DsBound => Phase::Planned,
        Phase::Planned => Phase::Executed,
        Phase::Executed | Phase::Critiqued => Phase::Critiqued,
    }
}

fn copy_opt_string(o: &Option<String>) -> (r: Option<String>)
    ensures
        r == *o,
{
    match o {
        Some(s) => Some(s.clone()),
        None => None,
    }
}

fn set_brief_direction(b: &mut Option<Brief>, d: &String)
    ensures
        *final(b) == brief_with_direction(*old(b), *d),
{
    match b {
        Some(inner) => {
            inner.direction = Some(d.clone());
        },
        None => {},
    }
}

/// Position of the answer [`answer_values`] picks for this id.
fn find_answer(answers: &Vec<ClarifyAnswer>, id: &str) -> (r: Option<usize>)
    ensures
        match answer_values(answers@, id@) {
            Some(v) => r matches Some(i) && i < answers@.len() && answers@[i as int].values == v
                && v@.len() > 0,
            None => r is None,
        },
{
    let mut i: usize = 0;
    assert(answers@.skip(0) =~= answers@);
    while i < answers.len()
        invariant
            i <= answers@.len(),
            answer_values(answers@, id@) == answer_values(answers@.skip(i as int), id@),
        decreases answers.len() - i,
    {
        let ghost rest = answers@.skip(i as int);
        assert(rest[0] == answers@[i as int]);
        if str_eq(answers[i].id.as_str(), id) && answers[i].values.len() > 0 {
            return Some(i);
        }
        assert(rest.drop_first() =~= answers@.skip(i + 1));
        i = i + 1;
    }
    assert(answers@.skip(i as int).len() == 0);
    None
}

/// The platform a name stands for.
fn platform_of(n: &str) -> (r: Option<Platform>)
    ensures
        r == platform_named(n@),
{
    if str_eq(n, "mobile") {
        Some(Platform::Mobile)
    } else if str_eq(n, "desktop") {
        Some(Platform::Desktop)
    } else if str_eq(n, "responsive") {
        Some(Platform::Responsive)
    } else {
        None
    }
}

impl Session {
    /// A session that has just received its PRD.
    pub fn new(id: String, prd: String) -> (s: Self)
        ensures
            is_fresh(s, id, prd),
    {
        Session {
            id,
            phase: Phase::Intake,
            prd,
            brief: None,
            asks: Vec::new(),
            answers: Vec::new(),
            ds_ref: None,
            direction: None,
            plan: None,
            readback: None,
            findings: None,
        }
    }

    /// Succeeds iff the session is in one of the `allowed` phases.
    fn check_from(&self, allowed: &[Phase]) -> (r: Result<(), Transition>)
        ensures
            r is Ok <==> allowed@.contains(self.phase),
            r is Err ==> r == Err::<(), Transition>(refusal(self.phase)),
    {
        let mut i: usize = 0;
        while i < allowed.len()
            invariant
                i <= allowed@.len(),
                forall|j: int| 0 <= j < i ==> allowed@[j] != self.phase,
            decreases allowed.len() - i,
        {
            if allowed[i] == self.phase {
                return Ok(());
            }
            i = i + 1;
        }
        Err(Transition::Invalid { from: self.phase, to: next_phase(self.phase) })
    }

    /// Advance to Interpret — attaches the Brief.
    pub fn interpret(&mut self, brief: Brief) -> (r: Result<(), Transition>)
        ensures
            applied(*old(self), *final(self), r, step_interpret(*old(self), brief)),
    {
        let allowed = [Phase::Intake];
        if let Err(e) = self.check_from(&allowed) {
            return Err(e);
        }
        self.brief = Some(brief);
        self.phase = Phase::Interpret;
        Ok(())
    }

    /// Queue Turn-1 questions.
    pub fn clarify_ask(&mut self, asks: Vec<ClarifyAsk>) -> (r: Result<(), Transition>)
        ensures
            applied(*old(self), *final(self), r, step_clarify_ask(*old(self), asks)),
    {
        let allowed = [Phase::Interpret];
        if let Err(e) = self.check_from(&allowed) {
            return Err(e);
        }
        self.asks = asks;
        self.phase = Phase::Clarify;
        Ok(())
    }

    /// Record Turn-1 answers and merge them into the Brief: an answered
    /// `direction` is pinned on the session and the Brief, a `platform`
    /// answer sets the platform it names, and a `screens` answer sets the
    /// screens. The session stays in Clarify until a DS is bound.
    pub fn clarify_answer(&mut self, answers: Vec<ClarifyAnswer>) -> (r: Result<(), Transition>)
        ensures
            applied(*old(self), *final(self), r, step_clarify_answer(*old(self), answers)),
    {
        let allowed = [Phase::Clarify];
        if let Err(e) = self.check_from(&allowed) {
            return Err(e);
        }
        let direction = match find_answer(&answers, "direction") {
            Some(i) => Some(answers[i].values[0].clone()),
            None => None,
        };
        let platform = match find_answer(&answers, "platform") {
            Some(i) => platform_of(answers[i].values[0].as_str()),
            None => None,
        };
        let screens = match find_answer(&answers, "screens") {
            Some(i) => {
                let v = answers[i].values.clone();
                assert(v@ =~= answers@[i as int].values@);
                Some(v)
            },
            None => None,
        };
        self.answers = answers;
        if let Some(d) = &direction {
            self.direction = Some(d.clone());
        }
        match &mut self.brief {
            Some(b) => {
                if let Some(d) = direction {
                    b.direction = Some(d);
                }
                if let Some(p) = platform {
                    b.platform = Some(p);
                }
                if let Some(v) = screens {
                    b.screens = v;
                }
            },
            None => {},
        }
        Ok(())
    }

    /// Bind a DS and lock the visual direction.
    pub fn ds_bind(&mut self, ds_ref: String, direction: Option<String>) -> (r: Result<
        (),
        Transition,
    >)
        ensures
            applied(*old(self), *final(self), r, step_ds_bind(*old(self), ds_ref, direction)),
    {
        let allowed = [Phase::Interpret, Phase::Clarify];
        if let Err(e) = self.check_from(&allowed) {
            return Err(e);
        }
        self.ds_ref = Some(ds_ref);
        if let Some(d) = &direction {
            self.direction = copy_opt_string(&direction);
            set_brief_direction(&mut self.brief, d);
        }
        self.phase = Phase::DsBound;
        Ok(())
    }

    /// Attach a DesignPlan.
    pub fn plan(&mut self, plan: Json) -> (r: Result<(), Transition>)
        ensures
            applied(*old(self), *final(self), r, step_plan(*old(self), plan)),
    {
        let allowed = [Phase::DsBound];
        if let Err(e) = self.check_from(&allowed) {
            return Err(e);
        }
        self.plan = Some(plan);
        self.phase = Phase::Planned;
        Ok(())
    }

    /// Attach a Figma readback.
    pub fn execute(&mut self, readback: Json) -> (r: Result<(), Transition>)
        ensures
            applied(*old(self), *final(self), r, step_execute(*old(self), readback)),
    {
        let allowed = [Phase::Planned];
        if let Err(e) = self.check_from(&allowed) {
            return Err(e);
        }
        self.readback = Some(readback);
        self.phase = Phase::Executed;
        Ok(())
    }

    /// Attach Critic findings (terminal).
    pub fn critique(&mut self, findings: Json) -> (r: Result<(), Transition>)
        ensures
            applied(*old(self), *final(self), r, step_critique(*old(self), findings)),
    {
        let allowed = [Phase::Executed];
        if let Err(e) = self.check_from(&allowed) {
            return Err(e);
        }
        self.findings = Some(findings);
        self.phase = Phase::Critiqued;
        Ok(())
    }
}

} // verus!

verus! {

// ── laws ───────────────────────────────────────────────────────────────────

/// One call on a session, with its argument.
pub enum Event {
    Interpret(Brief),
    ClarifyAsk(Vec<ClarifyAsk>),
    ClarifyAnswer(Vec<ClarifyAnswer>),
    DsBind(String, Option<String>),
    Plan(Json),
    Execute(Json),
    Critique(Json),
}

/// What a call does to a session (each method's contract is this step).
pub open spec fn step(s: Session, e: Event) -> Result<Session, Transition> {
    match e {
        Event::Interpret(b) => step_interpret(s, b),
        Event::ClarifyAsk(a) => step_clarify_ask(s, a),
        Event::ClarifyAnswer(a) => step_clarify_answer(s, a),
        Event::DsBind(r, d) => step_ds_bind(s, r, d),
        Event::Plan(p) => step_plan(s, p),
        Event::Execute(r) => step_execute(s, r),
        Event::Critique(f) => step_critique(s, f),
    }
}

/// Phases only move forward: a successful call moves the session to the
/// next phase, except that recording Turn-1 answers keeps it in Clarify and
/// binding a DS straight after interpretation skips Clarify.
pub proof fn law_phases_advance_in_order(s: Session, e: Event)
    ensures
        step(s, e) matches Ok(t) ==> {
            ||| rank(t.phase) == rank(s.phase) + 1
            ||| (e is ClarifyAnswer && t.phase == s.phase && s.phase == Phase::Clarify)
            ||| (e is DsBind && s.phase == Phase::Interpret && t.phase == Phase::DsBound)
        },
        step(s, e) matches Ok(t) ==> rank(t.phase) >= rank(s.phase),
{
}

/// A refused call always names the phase the session is in and the phase
/// it would normally move to.
pub proof fn law_refusal_names_phases(s: Session, e: Event)
    ensures
        step(s, e) matches Err(err) ==> err == refusal(s.phase),
{
}

/// A critiqued session is terminal: every call is refused.
pub proof fn law_critiqued_is_terminal(s: Session, e: Event)
    requires
        s.phase == Phase::Critiqued,
    ensures
        step(s, e) is Err,
{
}

/// Data accumulates: a successful call never clears anything an earlier
/// phase set, and never changes the session's id or PRD.
pub proof fn law_data_accumulates(s: Session, e: Event)
    ensures
        step(s, e) matches Ok(t) ==> {
            &&& t.id == s.id
            &&& t.prd == s.prd
            &&& (s.brief is Some ==> t.brief is Some)
            &&& (s.ds_ref is Some ==> t.ds_ref is Some)
            &&& (s.direction is Some ==> t.direction is Some)
            &&& (s.plan is Some ==> t.plan is Some)
            &&& (s.readback is Some ==> t.readback is Some)
            &&& (s.findings is Some ==> t.findings is Some)
        },
{
}

/// A plan can only be attached to a session whose DS is bound (and, in
/// general, each call succeeds from exactly the phases it starts from).
pub proof fn law_calls_start_from_fixed_phases(s: Session, e: Event)
    ensures
        step(s, e) is Ok <==> match e {
            Event::Interpret(_) => s.phase == Phase::Intake,
            Event::ClarifyAsk(_) => s.phase == Phase::Interpret,
            Event::ClarifyAnswer(_) => s.phase == Phase::Clarify,
            Event::DsBind(_, _) => s.phase == Phase::Interpret || s.phase == Phase::Clarify,
            Event::Plan(_) => s.phase == Phase::DsBound,
            Event::Execute(_) => s.phase == Phase::Planned,
            Event::Critique(_) => s.phase == Phase::Executed,
        },
{
}

/// The full pipeline succeeds from a fresh session, whatever is attached
/// along the way, and ends Critiqued.
pub proof fn law_full_pipeline_reaches_critiqued(
    s0: Session,
    brief: Brief,
    asks: Vec<ClarifyAsk>,
    answers: Vec<ClarifyAnswer>,
    ds_ref: String,
    direction: Option<String>,
    plan: Json,
    readback: Json,
    findings: Json,
)
    requires
        is_fresh(s0, s0.id, s0.prd),
    ensures
        step_interpret(s0, brief) matches Ok(s1) && step_clarify_ask(s1, asks) matches Ok(s2)
            && step_clarify_answer(s2, answers) matches Ok(s3) && step_ds_bind(
            s3,
            ds_ref,
            direction,
        ) matches Ok(s4) && step_plan(s4, plan) matches Ok(s5) && step_execute(s5, readback)
            matches Ok(s6) && step_critique(s6, findings) matches Ok(s7) && s7.phase
            == Phase::Critiqued,
{
}

/// Binding a DS may skip the Turn-1 form: interpret then bind succeeds.
pub proof fn law_bind_without_clarify(s0: Session, brief: Brief, ds_ref: String)
    requires
        is_fresh(s0, s0.id, s0.prd),
    ensures
        step_interpret(s0, brief) matches Ok(s1) && step_ds_bind(s1, ds_ref, None) matches Ok(s2)
            && s2.phase == Phase::DsBound,
{
}

/// A direction answered in Turn-1 is pinned on the session and on its
/// Brief.
pub proof fn law_answered_direction_is_pinned(s: Session, answers: Vec<ClarifyAnswer>, d: String)
    requires
        s.phase == Phase::Clarify,
        direction_answer(answers@) == Some(d),
    ensures
        step_clarify_answer(s, answers) matches Ok(t) && t.direction == Some(d) && (s.brief is Some
            ==> (t.brief matches Some(b) && b.direction == Some(d))),
{
}

/// Turn-1 answers merge into the Brief: a `platform` answer naming a
/// platform sets it, a `screens` answer sets the screens, and everything
/// else the Brief held stays.
pub proof fn law_answers_merge_into_brief(s: Session, answers: Vec<ClarifyAnswer>, b: Brief)
    requires
        s.phase == Phase::Clarify,
        s.brief == Some(b),
    ensures
        step_clarify_answer(s, answers) matches Ok(t) && t.brief matches Some(nb) && (
        platform_answer(answers@) matches Some(p) ==> nb.platform == Some(p)) && (platform_answer(
            answers@,
        ) is None ==> nb.platform == b.platform) && (answer_values(answers@, "screens"@) matches Some(
            v,
        ) ==> nb.screens == v) && (answer_values(answers@, "screens"@) is None ==> nb.screens
            == b.screens) && nb.intent == b.intent && nb.users == b.users && nb.jobs == b.jobs
            && nb.constraints == b.constraints && nb.success_signals == b.success_signals
            && nb.notes == b.notes,
{
}

} // verus!
