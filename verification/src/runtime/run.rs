//! One run of a worker: its steps from loading the main module to the end of the event loop.

use vstd::prelude::*;

use crate::lifecycle::RuntimeState;

verus! {

/// How a worker is run. `T` is where its use of the processor is reported to.
#[derive(Debug)]
pub struct RunOptions<T> {
    /// Whether a loop with nothing left to do stays open until it is told to end.
    pub wait_termination_request_token: bool,
    pub maybe_cpu_usage_metrics_tx: Option<T>,
}

/// Builds [`RunOptions`].
#[derive(Debug)]
pub struct RunOptionsBuilder<T> {
    pub wait_termination_request_token: bool,
    pub maybe_cpu_usage_metrics_tx: Option<T>,
}

impl<T> RunOptionsBuilder<T> {
    pub fn new() -> (r: RunOptionsBuilder<T>)
        ensures
            r.wait_termination_request_token,
            r.maybe_cpu_usage_metrics_tx is None,
    {
        RunOptionsBuilder {
            wait_termination_request_token: true,
            maybe_cpu_usage_metrics_tx: None,
        }
    }

    pub fn wait_termination_request_token(self, val: bool) -> (r: RunOptionsBuilder<T>)
        ensures
            r == (RunOptionsBuilder { wait_termination_request_token: val, ..self }),
    {
        RunOptionsBuilder { wait_termination_request_token: val, ..self }
    }

    pub fn cpu_usage_metrics_tx(self, val: Option<T>) -> (r: RunOptionsBuilder<T>)
        ensures
            r == (RunOptionsBuilder { maybe_cpu_usage_metrics_tx: val, ..self }),
    {
        RunOptionsBuilder { maybe_cpu_usage_metrics_tx: val, ..self }
    }

    pub fn build(self) -> (r: RunOptions<T>)
        ensures
            r.wait_termination_request_token == self.wait_termination_request_token,
            r.maybe_cpu_usage_metrics_tx == self.maybe_cpu_usage_metrics_tx,
    {
        RunOptions {
            wait_termination_request_token: self.wait_termination_request_token,
            maybe_cpu_usage_metrics_tx: self.maybe_cpu_usage_metrics_tx,
        }
    }
}

/// Where a run stands: what it waits for.
#[derive(Debug, Clone, Copy, PartialEq, Eq, Structural)]
pub enum RunStage {
    /// The main module is being loaded.
    Loading,
    /// A debugger is being waited for.
    Inspector,
    /// The main module is being evaluated, and the event loop runs beside it.
    Evaluating,
    /// The load event is being dispatched.
    LoadEvent,
    /// The event loop runs.
    EventLoop,
    Finished,
}

/// What happened.
#[derive(Debug, Clone, Copy, PartialEq, Eq, Structural)]
pub enum RunEvent {
    /// The main module was loaded, and is or is not known by a number now.
    Loaded { has_id: bool },
    LoadFailed,
    /// The wait for a debugger is over.
    InspectorReady,
    /// The main module was evaluated.
    Evaluated,
    EvaluationFailed,
    /// The event loop failed before the main module was evaluated.
    LoopFailedInEvaluation,
    LoadEventDispatched,
    LoadEventFailed,
    LoopEnded,
    LoopFailed,
}

/// How a run ended.
#[derive(Debug, Clone, Copy, PartialEq, Eq, Structural)]
pub enum RunResult {
    Success,
    /// The main module could not be loaded.
    LoadFailed,
    NoModuleId,
    EvaluationFailed,
    LoopFailedInEvaluation,
    LoadEventFailed,
    LoopFailed,
}

/// What is done next.
#[derive(Debug, Clone, Copy, PartialEq, Eq, Structural)]
pub enum RunAction {
    WaitForInspector,
    /// Evaluate the main module, with the event loop beside it.
    Evaluate,
    DispatchLoadEvent,
    RunEventLoop,
    /// The run is over. `counts_cpu` says whether the processor time that was used is reported, and
    /// not zero.
    Return { result: RunResult, counts_cpu: bool },
}

/// What a step looks at besides the event.
#[derive(Debug, Clone, Copy, PartialEq, Eq, Structural)]
pub struct RunFacts {
    pub has_inspector: bool,
    pub termination_requested: bool,
    /// Whether every promise of the worker has been settled.
    pub promises_settled: bool,
}

/// A run of a worker.
#[derive(Debug, Clone, Copy, PartialEq, Eq, Structural)]
pub struct Run {
    pub stage: RunStage,
    pub state: RuntimeState,
}

/// Whether an event can happen at a stage.
pub open spec fn fits(stage: RunStage, e: RunEvent) -> bool {
    match stage {
        RunStage::Loading => e is Loaded || e is LoadFailed,
        RunStage::Inspector => e is InspectorReady,
        RunStage::Evaluating => e is Evaluated || e is EvaluationFailed
            || e is LoopFailedInEvaluation,
        RunStage::LoadEvent => e is LoadEventDispatched || e is LoadEventFailed,
        RunStage::EventLoop => e is LoopEnded || e is LoopFailed,
        RunStage::Finished => false,
    }
}

/// Whether nothing is left to do once the main module has been evaluated.
pub open spec fn is_done_early(s: RuntimeState, f: RunFacts) -> bool {
    s.event_loop_completed && f.promises_settled
}

/// What is done after an event.
pub open spec fn run_action(s: RuntimeState, e: RunEvent, f: RunFacts) -> RunAction {
    match e {
        RunEvent::LoadFailed => RunAction::Return {
            result: RunResult::LoadFailed,
            counts_cpu: false,
        },
        RunEvent::Loaded { has_id } => if !has_id {
            RunAction::Return { result: RunResult::NoModuleId, counts_cpu: false }
        } else if f.has_inspector {
            RunAction::WaitForInspector
        } else {
            RunAction::Evaluate
        },
        RunEvent::InspectorReady => if f.termination_requested {
            RunAction::Return { result: RunResult::Success, counts_cpu: false }
        } else {
            RunAction::Evaluate
        },
        RunEvent::EvaluationFailed => RunAction::Return {
            result: RunResult::EvaluationFailed,
            counts_cpu: true,
        },
        RunEvent::LoopFailedInEvaluation => RunAction::Return {
            result: RunResult::LoopFailedInEvaluation,
            counts_cpu: true,
        },
        RunEvent::Evaluated => if is_done_early(s, f) {
            RunAction::Return { result: RunResult::Success, counts_cpu: true }
        } else if f.termination_requested {
            RunAction::RunEventLoop
        } else {
            RunAction::DispatchLoadEvent
        },
        RunEvent::LoadEventFailed => RunAction::Return {
            result: RunResult::LoadEventFailed,
            counts_cpu: true,
        },
        RunEvent::LoadEventDispatched => RunAction::RunEventLoop,
        RunEvent::LoopEnded => RunAction::Return { result: RunResult::Success, counts_cpu: true },
        RunEvent::LoopFailed => RunAction::Return {
            result: RunResult::LoopFailed,
            counts_cpu: true,
        },
    }
}

/// The stage that an action leads to.
pub open spec fn stage_of(a: RunAction) -> RunStage {
    match a {
        RunAction::WaitForInspector => RunStage::Inspector,
        RunAction::Evaluate => RunStage::Evaluating,
        RunAction::DispatchLoadEvent => RunStage::LoadEvent,
        RunAction::RunEventLoop => RunStage::EventLoop,
        RunAction::Return { result, counts_cpu } => RunStage::Finished,
    }
}

/// The flags of the runtime once an action has been decided on after an event.
pub open spec fn flags_after(s: RuntimeState, e: RunEvent, a: RunAction) -> RuntimeState {
    let seen = if e is InspectorReady {
        RuntimeState { found_inspector_session: true, ..s }
    } else {
        s
    };
    match a {
        RunAction::WaitForInspector => seen,
        RunAction::Evaluate => RuntimeState { evaluating_mod: true, ..seen },
        RunAction::DispatchLoadEvent => seen,
        RunAction::RunEventLoop => RuntimeState {
            evaluating_mod: false,
            init: false,
            event_loop_completed: false,
            ..seen
        },
        RunAction::Return { result, counts_cpu } => RuntimeState {
            evaluating_mod: false,
            init: false,
            terminated: true,
            ..seen
        },
    }
}

impl Run {
    /// Begins a run: the main module is to be loaded.
    pub fn begin(state: RuntimeState) -> (r: Run)
        ensures
            r.stage is Loading,
            r.state == (RuntimeState { init: true, ..state }),
    {
        let mut s = state;
        s.init = true;
        Run { stage: RunStage::Loading, state: s }
    }

    /// Takes in what happened and gives what is done next. When the run is over, the runtime counts
    /// as terminated.
    pub fn step(&mut self, event: RunEvent, facts: RunFacts) -> (r: RunAction)
        requires
            fits(old(self).stage, event),
        ensures
            r == run_action(old(self).state, event, facts),
            final(self).stage == stage_of(r),
            final(self).state == flags_after(old(self).state, event, r),
    {
        let action = match event {
            RunEvent::LoadFailed => RunAction::Return {
                result: RunResult::LoadFailed,
                counts_cpu: false,
            },
            RunEvent::Loaded { has_id } => {
                if !has_id {
                    RunAction::Return { result: RunResult::NoModuleId, counts_cpu: false }
                } else if facts.has_inspector {
                    RunAction::WaitForInspector
                } else {
                    RunAction::Evaluate
                }
            },
            RunEvent::InspectorReady => {
                self.state.found_inspector_session = true;
                if facts.termination_requested {
                    RunAction::Return { result: RunResult::Success, counts_cpu: false }
                } else {
                    RunAction::Evaluate
                }
            },
            RunEvent::EvaluationFailed => RunAction::Return {
                result: RunResult::EvaluationFailed,
                counts_cpu: true,
            },
            RunEvent::LoopFailedInEvaluation => RunAction::Return {
                result: RunResult::LoopFailedInEvaluation,
                counts_cpu: true,
            },
            RunEvent::Evaluated => {
                if self.state.event_loop_completed && facts.promises_settled {
                    RunAction::Return { result: RunResult::Success, counts_cpu: true }
                } else if facts.termination_requested {
                    RunAction::RunEventLoop
                } else {
                    RunAction::DispatchLoadEvent
                }
            },
            RunEvent::LoadEventFailed => RunAction::Return {
                result: RunResult::LoadEventFailed,
                counts_cpu: true,
            },
            RunEvent::LoadEventDispatched => RunAction::RunEventLoop,
            RunEvent::LoopEnded => RunAction::Return {
                result: RunResult::Success,
                counts_cpu: true,
            },
            RunEvent::LoopFailed => RunAction::Return {
                result: RunResult::LoopFailed,
                counts_cpu: true,
            },
        };
        match action {
            RunAction::WaitForInspector => {
                self.stage = RunStage::Inspector;
            },
            RunAction::Evaluate => {
                self.stage = RunStage::Evaluating;
                self.state.evaluating_mod = true;
            },
            RunAction::DispatchLoadEvent => {
                self.stage = RunStage::LoadEvent;
            },
            RunAction::RunEventLoop => {
                self.stage = RunStage::EventLoop;
                self.state.evaluating_mod = false;
                self.state.init = false;
                self.state.event_loop_completed = false;
            },
            RunAction::Return { result: _, counts_cpu: _ } => {
                self.stage = RunStage::Finished;
                self.state.evaluating_mod = false;
                self.state.init = false;
                self.state.terminated = true;
            },
        }
        action
    }
}

/// How many steps a run has left at most.
pub open spec fn steps_left(stage: RunStage) -> nat {
    match stage {
        RunStage::Loading => 5,
        RunStage::Inspector => 4,
        RunStage::Evaluating => 3,
        RunStage::LoadEvent => 2,
        RunStage::EventLoop => 1,
        RunStage::Finished => 0,
    }
}

/// A run always moves on, so it ends after five events at most, and a finished run leaves the
/// runtime terminated and neither starting nor evaluating.
pub proof fn law_run_moves_on(stage: RunStage, s: RuntimeState, e: RunEvent, f: RunFacts)
    requires
        fits(stage, e),
    ensures
        steps_left(stage_of(run_action(s, e, f))) < steps_left(stage),
        stage_of(run_action(s, e, f)) is Finished ==> {
            let t = flags_after(s, e, run_action(s, e, f));
            t.terminated && !t.init && !t.evaluating_mod
        },
{
}


/// Each stage of a run takes the outcomes of what it does, and no stage takes those of another.
pub proof fn law_outcomes_belong_to_one_stage(a: RunStage, b: RunStage, e: RunEvent)
    requires
        fits(a, e),
        fits(b, e),
    ensures
        a == b,
        !(a is Finished),
        e is Loaded || e is LoadFailed ==> a is Loading,
        e is InspectorReady ==> a is Inspector,
        e is Evaluated || e is EvaluationFailed || e is LoopFailedInEvaluation ==> a is Evaluating,
        e is LoadEventDispatched || e is LoadEventFailed ==> a is LoadEvent,
        e is LoopEnded || e is LoopFailed ==> a is EventLoop,
{
}

/// No outcome is without a stage that takes it.
pub proof fn law_every_outcome_is_taken(e: RunEvent)
    ensures
        exists|a: RunStage| fits(a, e),
{
    assert(fits(RunStage::Loading, e) || fits(RunStage::Inspector, e) || fits(
        RunStage::Evaluating,
        e,
    ) || fits(RunStage::LoadEvent, e) || fits(RunStage::EventLoop, e));
}

/// A failure ends the run with its own name. A run ends well where the loop ends, where evaluating
/// has left nothing to wait for, and where it was called off before it began. Time on the processor
/// is counted from the moment that code was evaluated.
pub proof fn law_runs_end_for_a_reason(s: RuntimeState, e: RunEvent, f: RunFacts)
    ensures
        ({
            let a = run_action(s, e, f);
            &&& a is Return && a->result == RunResult::Success <==> e is LoopEnded || (e
                is Evaluated && s.event_loop_completed && f.promises_settled) || (e
                is InspectorReady && f.termination_requested)
            &&& a is Return && a->result == RunResult::LoadFailed <==> e is LoadFailed
            &&& a is Return && a->result == RunResult::NoModuleId <==> e == (RunEvent::Loaded {
                has_id: false,
            })
            &&& a is Return && a->result == RunResult::EvaluationFailed <==> e is EvaluationFailed
            &&& a is Return && a->result == RunResult::LoopFailedInEvaluation <==> e
                is LoopFailedInEvaluation
            &&& a is Return && a->result == RunResult::LoadEventFailed <==> e is LoadEventFailed
            &&& a is Return && a->result == RunResult::LoopFailed <==> e is LoopFailed
            &&& a is Return ==> (a->counts_cpu <==> !(e is Loaded || e is LoadFailed || e
                is InspectorReady))
        }),
{
}

/// A module that was loaded is evaluated, once an inspector has come where one is expected. Then
/// the load event is dispatched, unless the run has been called off by now, and the event loop runs.
pub proof fn law_runs_go_on_in_order(s: RuntimeState, e: RunEvent, f: RunFacts)
    ensures
        ({
            let a = run_action(s, e, f);
            let loaded = e == (RunEvent::Loaded { has_id: true });
            &&& a == RunAction::WaitForInspector <==> loaded && f.has_inspector
            &&& a == RunAction::Evaluate <==> (loaded && !f.has_inspector) || (e is InspectorReady
                && !f.termination_requested)
            &&& a == RunAction::DispatchLoadEvent <==> e is Evaluated && !(s.event_loop_completed
                && f.promises_settled) && !f.termination_requested
            &&& a == RunAction::RunEventLoop <==> e is LoadEventDispatched || (e is Evaluated && !(
            s.event_loop_completed && f.promises_settled) && f.termination_requested)
            &&& a == RunAction::WaitForInspector ==> stage_of(a) is Inspector
            &&& a == RunAction::Evaluate ==> stage_of(a) is Evaluating
            &&& a == RunAction::DispatchLoadEvent ==> stage_of(a) is LoadEvent
            &&& a == RunAction::RunEventLoop ==> stage_of(a) is EventLoop
            &&& a is Return <==> stage_of(a) is Finished
        }),
{
}

/// The flags say how far a run has come: a module is being evaluated from when that begins until
/// the loop runs or the run ends; the loop has not completed when it starts; what ends is
/// terminated; an inspector has been found once one is ready. Nothing else changes.
pub proof fn law_flags_say_how_far(s: RuntimeState, e: RunEvent, a: RunAction)
    ensures
        ({
            let t = flags_after(s, e, a);
            let over = a == RunAction::RunEventLoop || a is Return;
            &&& t.evaluating_mod <==> a == RunAction::Evaluate || (s.evaluating_mod && !over)
            &&& t.init <==> s.init && !over
            &&& t.terminated <==> s.terminated || a is Return
            &&& t.event_loop_completed <==> s.event_loop_completed && a != RunAction::RunEventLoop
            &&& t.found_inspector_session <==> s.found_inspector_session || e is InspectorReady
            &&& t.mem_reached_half == s.mem_reached_half
            &&& t.wall_clock_beforeunload_triggered == s.wall_clock_beforeunload_triggered
            &&& t.drain_triggered == s.drain_triggered
            &&& t.phase == s.phase
        }),
{
}

} // verus!
