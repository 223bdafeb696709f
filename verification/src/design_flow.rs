//! The decisions of the `design` command, one step at a time.
//!
//! The command alternates outside work (starting the Figma bridge, the
//! Plan request, decoding and compiling the plan, writing the bundle,
//! running it in Figma, reviewing the readback) with decisions about what
//! comes next. The caller performs each action and reports how it went;
//! `design_step` says what to do next. Whatever happens, a started bridge
//! is shut down before the command finishes, a dry run never touches
//! Figma, and `--no-critique` keeps the Critic out.

use vstd::prelude::*;

verus! {

/// Where the command stands.
#[derive(Debug, Clone, Copy, PartialEq, Eq, Structural)]
pub enum DesignPhase {
    /// Nothing done yet.
    Start,
    /// The Figma bridge is being started.
    Spawning,
    /// The Plan request is out.
    Planning,
    /// The model's plan is being decoded.
    Decoding,
    /// The plan is being compiled and bundled.
    Compiling,
    /// The bundle is being written to disk (dry run).
    Writing,
    /// The bundle runs in Figma.
    Pushing,
    /// The readback is being linted (and critiqued).
    Reviewing,
    /// The command has finished.
    Done,
}

/// The command's state: its options, whether a bridge is running, and its
/// phase.
#[derive(Debug, Clone, Copy, PartialEq, Eq, Structural)]
pub struct DesignFlow {
    pub dry_run: bool,
    pub no_critique: bool,
    pub bridge_live: bool,
    pub phase: DesignPhase,
}

/// How the last action went.
#[derive(Debug, Clone, Copy, PartialEq, Eq, Structural)]
pub enum DesignEvent {
    /// The command begins.
    Begin,
    BridgeReady,
    BridgeFailed,
    PlanReturned,
    PlanFailed,
    PlanDecoded,
    PlanRejected,
    Compiled,
    CompileFailed,
    Written,
    WriteFailed,
    /// `figma_execute` answered; `readback` says whether its text is a JSON
    /// document to review.
    FigmaAnswered { readback: bool },
    FigmaFailed,
    Reviewed,
}

/// What the caller does next.
#[derive(Debug, Clone, Copy, PartialEq, Eq, Structural)]
pub enum DesignAction {
    StartBridge,
    RequestPlan,
    DecodePlan,
    CompilePlan,
    WriteBundle,
    RunInFigma,
    /// Lint the readback, then run the Critic when `critique` is set.
    Review { critique: bool },
    /// Shut the bridge down when `shutdown` is set, then exit.
    Finish { shutdown: bool, success: bool },
    /// The event does not fit the phase; nothing to do.
    Ignore,
}

/// A fresh `design` run.
pub open spec fn initial_flow(dry_run: bool, no_critique: bool) -> DesignFlow {
    DesignFlow { dry_run, no_critique, bridge_live: false, phase: DesignPhase::Start }
}

/// Finishing from `f`: the bridge is shut down exactly when it runs.
pub open spec fn finish(f: DesignFlow, success: bool) -> (DesignFlow, DesignAction) {
    (
        DesignFlow { bridge_live: false, phase: DesignPhase::Done, ..f },
        DesignAction::Finish { shutdown: f.bridge_live, success },
    )
}

pub open spec fn moving(f: DesignFlow, phase: DesignPhase, a: DesignAction) -> (DesignFlow, DesignAction) {
    (DesignFlow { phase, ..f }, a)
}

/// The next state and action, as the `design` command decides them.
pub open spec fn next_design(f: DesignFlow, e: DesignEvent) -> (DesignFlow, DesignAction) {
    match (f.phase, e) {
        (DesignPhase::Start, DesignEvent::Begin) => if f.dry_run {
            moving(f, DesignPhase::Planning, DesignAction::RequestPlan)
        } else {
            moving(f, DesignPhase::Spawning, DesignAction::StartBridge)
        },
        (DesignPhase::Spawning, DesignEvent::BridgeReady) => (
            DesignFlow { bridge_live: true, phase: DesignPhase::Planning, ..f },
            DesignAction::RequestPlan,
        ),
        (DesignPhase::Spawning, DesignEvent::BridgeFailed) => finish(f, false),
        (DesignPhase::Planning, DesignEvent::PlanReturned) => moving(
            f,
            DesignPhase::Decoding,
            DesignAction::DecodePlan,
        ),
        (DesignPhase::Planning, DesignEvent::PlanFailed) => finish(f, false),
        (DesignPhase::Decoding, DesignEvent::PlanDecoded) => moving(
            f,
            DesignPhase::Compiling,
            DesignAction::CompilePlan,
        ),
        (DesignPhase::Decoding, DesignEvent::PlanRejected) => finish(f, false),
        (DesignPhase::Compiling, DesignEvent::Compiled) => if f.dry_run {
            moving(f, DesignPhase::Writing, DesignAction::WriteBundle)
        } else {
            moving(f, DesignPhase::Pushing, DesignAction::RunInFigma)
        },
        (DesignPhase::Compiling, DesignEvent::CompileFailed) => finish(f, false),
        (DesignPhase::Writing, DesignEvent::Written) => finish(f, true),
        (DesignPhase::Writing, DesignEvent::WriteFailed) => finish(f, false),
        (DesignPhase::Pushing, DesignEvent::FigmaAnswered { readback }) => if readback {
            moving(f, DesignPhase::Reviewing, DesignAction::Review { critique: !f.no_critique })
        } else {
            finish(f, true)
        },
        (DesignPhase::Pushing, DesignEvent::FigmaFailed) => finish(f, false),
        (DesignPhase::Reviewing, DesignEvent::Reviewed) => finish(f, true),
        _ => (f, DesignAction::Ignore),
    }
}

/// What every reachable state keeps: a bridge runs only in a live run,
/// never in a dry run, and never once the command is done.
pub open spec fn flow_ok(f: DesignFlow) -> bool {
    &&& f.bridge_live ==> !f.dry_run
    &&& f.phase == DesignPhase::Done ==> !f.bridge_live
    &&& (f.phase == DesignPhase::Start || f.phase == DesignPhase::Spawning) ==> !f.bridge_live
    &&& (f.phase == DesignPhase::Planning || f.phase == DesignPhase::Decoding
        || f.phase == DesignPhase::Compiling || f.phase == DesignPhase::Pushing
        || f.phase == DesignPhase::Reviewing) ==> (f.bridge_live || f.dry_run)
    &&& f.phase == DesignPhase::Spawning ==> !f.dry_run
    &&& f.phase == DesignPhase::Writing ==> f.dry_run
    &&& (f.phase == DesignPhase::Pushing || f.phase == DesignPhase::Reviewing) ==> !f.dry_run
}

/// A fresh `design` run.
pub fn start_flow(dry_run: bool, no_critique: bool) -> (f: DesignFlow)
    ensures
        f == initial_flow(dry_run, no_critique),
        flow_ok(f),
{
    DesignFlow { dry_run, no_critique, bridge_live: false, phase: DesignPhase::Start }
}

fn finish_now(f: DesignFlow, success: bool) -> (r: (DesignFlow, DesignAction))
    ensures
        r == finish(f, success),
{
    (
        DesignFlow { bridge_live: false, phase: DesignPhase::Done, ..f },
        DesignAction::Finish { shutdown: f.bridge_live, success },
    )
}

/// Decides the next step of `design` from the current state and how the
/// last action went. Options never change; the bridge is shut down
/// exactly when it runs and the command finishes; a dry run never starts
/// the bridge or runs anything in Figma; `--no-critique` never asks for
/// the Critic.
pub fn design_step(f: DesignFlow, e: DesignEvent) -> (r: (DesignFlow, DesignAction))
    requires
        flow_ok(f),
    ensures
        r == next_design(f, e),
        flow_ok(r.0),
        r.0.dry_run == f.dry_run && r.0.no_critique == f.no_critique,
        r.1 matches DesignAction::Finish { shutdown, .. } ==> shutdown == f.bridge_live
            && r.0.phase == DesignPhase::Done,
        f.dry_run ==> r.1 != DesignAction::StartBridge && r.1 != DesignAction::RunInFigma,
        f.no_critique ==> r.1 != (DesignAction::Review { critique: true }),
        r.1 matches DesignAction::Finish { success: true, .. } ==> (f.phase == DesignPhase::Writing
            || f.phase == DesignPhase::Pushing || f.phase == DesignPhase::Reviewing),
{
    match (f.phase, e) {
        (DesignPhase::Start, DesignEvent::Begin) => {
            if f.dry_run {
                (DesignFlow { phase: DesignPhase::Planning, ..f }, DesignAction::RequestPlan)
            } else {
                (DesignFlow { phase: DesignPhase::Spawning, ..f }, DesignAction::StartBridge)
            }
        },
        (DesignPhase::Spawning, DesignEvent::BridgeReady) => (
            DesignFlow { bridge_live: true, phase: DesignPhase::Planning, ..f },
            DesignAction::RequestPlan,
        ),
        (DesignPhase::Spawning, DesignEvent::BridgeFailed) => finish_now(f, false),
        (DesignPhase::Planning, DesignEvent::PlanReturned) => (
            DesignFlow { phase: DesignPhase::Decoding, ..f },
            DesignAction::DecodePlan,
        ),
        (DesignPhase::Planning, DesignEvent::PlanFailed) => finish_now(f, false),
        (DesignPhase::Decoding, DesignEvent::PlanDecoded) => (
            DesignFlow { phase: DesignPhase::Compiling, ..f },
            DesignAction::CompilePlan,
        ),
        (DesignPhase::Decoding, DesignEvent::PlanRejected) => finish_now(f, false),
        (DesignPhase::Compiling, DesignEvent::Compiled) => {
            if f.dry_run {
                (DesignFlow { phase: DesignPhase::Writing, ..f }, DesignAction::WriteBundle)
            } else {
                (DesignFlow { phase: DesignPhase::Pushing, ..f }, DesignAction::RunInFigma)
            }
        },
        (DesignPhase::Compiling, DesignEvent::CompileFailed) => finish_now(f, false),
        (DesignPhase::Writing, DesignEvent::Written) => finish_now(f, true),
        (DesignPhase::Writing, DesignEvent::WriteFailed) => finish_now(f, false),
        (DesignPhase::Pushing, DesignEvent::FigmaAnswered { readback }) => {
            if readback {
                (
                    DesignFlow { phase: DesignPhase::Reviewing, ..f },
                    DesignAction::Review { critique: !f.no_critique },
                )
            } else {
                finish_now(f, true)
            }
        },
        (DesignPhase::Pushing, DesignEvent::FigmaFailed) => finish_now(f, false),
        (DesignPhase::Reviewing, DesignEvent::Reviewed) => finish_now(f, true),
        _ => (f, DesignAction::Ignore),
    }
}

/// The state after a run of events, from `f`.
pub open spec fn run_flow(f: DesignFlow, events: Seq<DesignEvent>) -> DesignFlow
    decreases events.len(),
{
    if events.len() == 0 {
        f
    } else {
        next_design(run_flow(f, events.drop_last()), events.last()).0
    }
}

proof fn lemma_step_keeps(f: DesignFlow, e: DesignEvent)
    requires
        flow_ok(f),
    ensures
        flow_ok(next_design(f, e).0),
        next_design(f, e).0.dry_run == f.dry_run,
        next_design(f, e).0.no_critique == f.no_critique,
{
}

/// Every state that a `design` run reaches, whatever its actions report,
/// keeps the flow's invariant: in particular a finished run leaves no
/// bridge running, and a dry run never has one.
pub proof fn law_runs_keep_the_flow_invariant(dry_run: bool, no_critique: bool, events: Seq<DesignEvent>)
    ensures
        flow_ok(run_flow(initial_flow(dry_run, no_critique), events)),
        run_flow(initial_flow(dry_run, no_critique), events).phase == DesignPhase::Done ==> !run_flow(
            initial_flow(dry_run, no_critique),
            events,
        ).bridge_live,
        dry_run ==> !run_flow(initial_flow(dry_run, no_critique), events).bridge_live,
        run_flow(initial_flow(dry_run, no_critique), events).dry_run == dry_run,
        run_flow(initial_flow(dry_run, no_critique), events).no_critique == no_critique,
    decreases events.len(),
{
    if events.len() > 0 {
        law_runs_keep_the_flow_invariant(dry_run, no_critique, events.drop_last());
        lemma_step_keeps(run_flow(initial_flow(dry_run, no_critique), events.drop_last()), events.last());
    }
}

/// Once finished, a run stays finished: every later event is ignored.
pub proof fn law_done_is_final(f: DesignFlow, e: DesignEvent)
    requires
        f.phase == DesignPhase::Done,
    ensures
        next_design(f, e) == (f, DesignAction::Ignore),
{
}

} // verus!
