//! Driving the event loop of a worker: what one poll of it looks at, which events it dispatches,
//! and how it ends.

use vstd::prelude::*;

use crate::lifecycle::RuntimeState;

verus! {

/// Why a worker is about to be terminated.
#[derive(Debug, Clone, Copy, PartialEq, Eq, Structural)]
pub enum WillTerminateReason {
    CPU,
    Memory,
    WallClock,
    EarlyDrop,
    Termination,
}

impl WillTerminateReason {
    pub open spec fn name(self) -> Seq<char> {
        match self {
            WillTerminateReason::CPU => "cpu"@,
            WillTerminateReason::Memory => "memory"@,
            WillTerminateReason::WallClock => "wall_clock"@,
            WillTerminateReason::EarlyDrop => "early_drop"@,
            WillTerminateReason::Termination => "termination"@,
        }
    }

    /// The name under which the worker learns of the reason.
    pub fn as_str(&self) -> (r: &'static str)
        ensures
            r@ == self.name(),
    {
        match self {
            WillTerminateReason::CPU => "cpu",
            WillTerminateReason::Memory => "memory",
            WillTerminateReason::WallClock => "wall_clock",
            WillTerminateReason::EarlyDrop => "early_drop",
            WillTerminateReason::Termination => "termination",
        }
    }
}

/// Whether a poll keeps the loop open for a debugger: only while one is attached, and never once
/// the worker is to be killed.
pub fn waits_for_inspector(
    has_inspector: bool,
    terminated: bool,
    termination_requested: bool,
    has_active_session: bool,
    has_blocking_session: bool,
) -> (r: bool)
    ensures
        r == (has_inspector && !terminated && !termination_requested && (has_active_session
            || has_blocking_session)),
{
    has_inspector && !terminated && !termination_requested && (has_active_session
        || has_blocking_session)
}

/// The checks that follow each poll, in their order.
#[derive(Debug, Clone, Copy, PartialEq, Eq, Structural)]
pub enum Stage {
    Cpu,
    Memory,
    WallClock,
    Drain,
}

impl Stage {
    /// The check that follows this one in a poll.
    pub open spec fn successor(self) -> Option<Stage> {
        match self {
            Stage::Cpu => Some(Stage::Memory),
            Stage::Memory => Some(Stage::WallClock),
            Stage::WallClock => Some(Stage::Drain),
            Stage::Drain => None,
        }
    }

    /// The check that comes first in a poll.
    pub fn first() -> (r: Stage)
        ensures
            r == Stage::Cpu,
    {
        Stage::Cpu
    }

    /// The check that follows this one in a poll, if there is one.
    pub fn next(self) -> (r: Option<Stage>)
        ensures
            r == self.successor(),
    {
        match self {
            Stage::Cpu => Some(Stage::Memory),
            Stage::Memory => Some(Stage::WallClock),
            Stage::WallClock => Some(Stage::Drain),
            Stage::Drain => None,
        }
    }
}

/// The check of a poll that has `n` checks before it.
pub open spec fn stage_at(n: nat) -> Option<Stage>
    decreases n,
{
    if n == 0 {
        Some(Stage::Cpu)
    } else {
        match stage_at((n - 1) as nat) {
            Some(s) => s.successor(),
            None => None,
        }
    }
}

/// An event that the worker is sent.
#[derive(Debug, Clone, Copy, PartialEq, Eq, Structural)]
pub enum Dispatch {
    BeforeUnload(WillTerminateReason),
    Drain,
}

/// What a check looks at.
#[derive(Debug, Clone, Copy, PartialEq, Eq, Structural)]
pub struct PollFacts {
    pub accumulated_cpu_ns: i64,
    /// The memory that counts against the limit.
    pub memory_bytes: usize,
    /// Whether the memory limit has been reached.
    pub memory_exceeded: bool,
}

/// The state of the event loop that outlives a poll.
#[derive(Debug, Clone, Copy, PartialEq, Eq, Structural)]
pub struct EventLoop {
    pub state: RuntimeState,
    /// The processor time, in milliseconds, at which the worker is warned, until it has been.
    pub cpu_threshold_ms: Option<u64>,
    /// The memory at which the worker is warned, until it has been.
    pub memory_threshold_bytes: Option<u64>,
    pub memory_limit: Option<usize>,
}

impl EventLoop {
    pub open spec fn cpu_due(self, f: PollFacts) -> bool {
        self.cpu_threshold_ms matches Some(ms) && f.accumulated_cpu_ns >= ms * 1_000_000
    }

    pub open spec fn memory_due(self, f: PollFacts) -> bool {
        self.memory_threshold_bytes matches Some(b) && f.memory_bytes >= b
    }

    /// Whether half of the memory is in use, where there is a limit.
    pub open spec fn half_reached(self, f: PollFacts) -> bool {
        match self.memory_limit {
            Some(limit) => f.memory_bytes >= limit / 2,
            None => self.state.mem_reached_half,
        }
    }

    /// The state once a check has been made.
    pub open spec fn after(self, stage: Stage, f: PollFacts) -> EventLoop {
        match stage {
            Stage::Cpu => EventLoop {
                cpu_threshold_ms: if self.cpu_due(f) {
                    None
                } else {
                    self.cpu_threshold_ms
                },
                ..self
            },
            Stage::Memory => EventLoop {
                memory_threshold_bytes: if self.memory_due(f) {
                    None
                } else {
                    self.memory_threshold_bytes
                },
                state: RuntimeState { mem_reached_half: self.half_reached(f), ..self.state },
                ..self
            },
            Stage::WallClock => EventLoop {
                state: RuntimeState { wall_clock_beforeunload_triggered: false, ..self.state },
                ..self
            },
            Stage::Drain => EventLoop {
                state: RuntimeState { drain_triggered: false, ..self.state },
                ..self
            },
        }
    }

    /// What a check dispatches. A worker that has been terminated is sent nothing, and one that has
    /// reached its memory limit is not warned of it.
    pub open spec fn dispatches(self, stage: Stage, f: PollFacts) -> Option<Dispatch> {
        if self.state.terminated {
            None
        } else {
            match stage {
                Stage::Cpu => if self.cpu_due(f) {
                    Some(Dispatch::BeforeUnload(WillTerminateReason::CPU))
                } else {
                    None
                },
                Stage::Memory => if self.memory_due(f) && !f.memory_exceeded {
                    Some(Dispatch::BeforeUnload(WillTerminateReason::Memory))
                } else {
                    None
                },
                Stage::WallClock => if self.state.wall_clock_beforeunload_triggered {
                    Some(Dispatch::BeforeUnload(WillTerminateReason::WallClock))
                } else {
                    None
                },
                Stage::Drain => if self.state.drain_triggered {
                    Some(Dispatch::Drain)
                } else {
                    None
                },
            }
        }
    }

    /// Makes one of the checks that follow a poll. What triggered it is used up, whether or not
    /// something is dispatched.
    pub fn check(&mut self, stage: Stage, facts: PollFacts) -> (r: Option<Dispatch>)
        ensures
            *final(self) == old(self).after(stage, facts),
            r == old(self).dispatches(stage, facts),
    {
        let quiet = self.state.terminated;
        match stage {
            Stage::Cpu => {
                match self.cpu_threshold_ms {
                    Some(ms) => {
                        if facts.accumulated_cpu_ns as i128 >= ms as i128 * 1_000_000 {
                            self.cpu_threshold_ms = None;
                            if !quiet {
                                return Some(Dispatch::BeforeUnload(WillTerminateReason::CPU));
                            }
                        }
                    },
                    None => {},
                }
                None
            },
            Stage::Memory => {
                match self.memory_limit {
                    Some(limit) => {
                        self.state.mem_reached_half = facts.memory_bytes >= limit / 2;
                    },
                    None => {},
                }
                match self.memory_threshold_bytes {
                    Some(bytes) => {
                        if facts.memory_bytes as u64 >= bytes {
                            self.memory_threshold_bytes = None;
                            if !quiet && !facts.memory_exceeded {
                                return Some(Dispatch::BeforeUnload(WillTerminateReason::Memory));
                            }
                        }
                    },
                    None => {},
                }
                None
            },
            Stage::WallClock => {
                let raised = self.state.wall_clock_beforeunload_triggered;
                self.state.wall_clock_beforeunload_triggered = false;
                if raised && !quiet {
                    Some(Dispatch::BeforeUnload(WillTerminateReason::WallClock))
                } else {
                    None
                }
            },
            Stage::Drain => {
                let raised = self.state.drain_triggered;
                self.state.drain_triggered = false;
                if raised && !quiet {
                    Some(Dispatch::Drain)
                } else {
                    None
                }
            },
        }
    }

    /// Ends a poll in which no dispatch failed. `polled` says whether the script was run at all,
    /// `result` what that gave, and `wait_for_termination` whether a loop with nothing left to do
    /// stays open until it is told to end.
    pub fn finish_poll(
        &mut self,
        polled: bool,
        result: ScriptPoll,
        termination_requested: bool,
        wait_for_termination: bool,
    ) -> (r: LoopPoll)
        requires
            !polled ==> result is Pending,
        ensures
            r == poll_end(
                old(self).state.evaluating_mod,
                polled,
                result,
                termination_requested,
                wait_for_termination,
            ),
            *final(self) == (EventLoop {
                state: RuntimeState {
                    event_loop_completed: old(self).state.event_loop_completed || result is Done,
                    ..old(self).state
                },
                ..*old(self)
            }),
    {
        match result {
            ScriptPoll::Pending => {
                if polled && termination_requested {
                    if self.state.evaluating_mod {
                        LoopPoll::ExecutionTerminated
                    } else {
                        LoopPoll::Ended
                    }
                } else {
                    LoopPoll::Pending
                }
            },
            ScriptPoll::Failed => LoopPoll::Failed,
            ScriptPoll::Done => {
                self.state.event_loop_completed = true;
                if wait_for_termination && !termination_requested {
                    LoopPoll::Pending
                } else {
                    LoopPoll::Ended
                }
            },
        }
    }
}

/// What running the script gave.
#[derive(Debug, Clone, Copy, PartialEq, Eq, Structural)]
pub enum ScriptPoll {
    /// It waits for something.
    Pending,
    Failed,
    /// It has nothing left to do.
    Done,
}

/// How a poll of the event loop ends.
#[derive(Debug, Clone, Copy, PartialEq, Eq, Structural)]
pub enum LoopPoll {
    Pending,
    Ended,
    /// The error is the script's own.
    Failed,
    /// The error is that execution was terminated.
    ExecutionTerminated,
}

pub open spec fn poll_end(
    evaluating_mod: bool,
    polled: bool,
    result: ScriptPoll,
    termination_requested: bool,
    wait_for_termination: bool,
) -> LoopPoll {
    match result {
        ScriptPoll::Pending => if polled && termination_requested {
            if evaluating_mod {
                LoopPoll::ExecutionTerminated
            } else {
                LoopPoll::Ended
            }
        } else {
            LoopPoll::Pending
        },
        ScriptPoll::Failed => LoopPoll::Failed,
        ScriptPoll::Done => if wait_for_termination && !termination_requested {
            LoopPoll::Pending
        } else {
            LoopPoll::Ended
        },
    }
}

/// How the poll ends in which a dispatch failed: with the error of the dispatch, unless the worker
/// has been terminated in the meantime.
pub fn after_failed_dispatch(terminated: bool) -> (r: LoopPoll)
    ensures
        r == if terminated {
            LoopPoll::ExecutionTerminated
        } else {
            LoopPoll::Failed
        },
{
    if terminated {
        LoopPoll::ExecutionTerminated
    } else {
        LoopPoll::Failed
    }
}

// ---------------------------------------------------------------------------
// Dispatching events
// ---------------------------------------------------------------------------

/// How a call of a worker's event handler ended.
#[derive(Debug, Clone, Copy, PartialEq, Eq, Structural)]
pub struct HandlerCall {
    /// Whether the call threw or was cut short.
    pub caught: bool,
    /// Whether it was cut short because the worker was terminated.
    pub terminated: bool,
    /// Whether there is an exception to report.
    pub has_exception: bool,
    /// What it returned, if anything: whether that is the value `false`.
    pub returned_false: Option<bool>,
}

/// A handler threw an exception.
#[derive(Debug, Clone, Copy, PartialEq, Eq, Structural)]
pub struct HandlerThrew;

/// Whether a handler threw an exception, other than by being cut short.
pub open spec fn threw(call: HandlerCall) -> bool {
    call.caught && !call.terminated && call.has_exception
}

/// How the dispatch of an event without an answer ended: a worker that was terminated meanwhile has
/// not failed.
pub open spec fn dispatched(call: HandlerCall) -> Result<(), HandlerThrew> {
    if threw(call) {
        Err(HandlerThrew)
    } else {
        Ok(())
    }
}

fn dispatch_result(call: HandlerCall) -> (r: Result<(), HandlerThrew>)
    ensures
        r == dispatched(call),
{
    if call.caught && !call.terminated && call.has_exception {
        Err(HandlerThrew)
    } else {
        Ok(())
    }
}

/// How the dispatch of the load event ended.
pub fn dispatch_load_event(call: HandlerCall) -> (r: Result<(), HandlerThrew>)
    ensures
        r == dispatched(call),
{
    dispatch_result(call)
}

/// How the dispatch of the unload event ended.
pub fn dispatch_unload_event(call: HandlerCall) -> (r: Result<(), HandlerThrew>)
    ensures
        r == dispatched(call),
{
    dispatch_result(call)
}

/// How the dispatch of the drain event ended.
pub fn dispatch_drain_event(call: HandlerCall) -> (r: Result<(), HandlerThrew>)
    ensures
        r == dispatched(call),
{
    dispatch_result(call)
}

/// How the dispatch of the warning ended, and whether the worker asked to go on: its handler
/// returned `false`.
pub fn dispatch_beforeunload_event(call: HandlerCall) -> (r: Result<bool, HandlerThrew>)
    ensures
        r == if threw(call) {
            Err::<bool, HandlerThrew>(HandlerThrew)
        } else {
            Ok::<bool, HandlerThrew>(
                !(call.caught && call.terminated) && call.returned_false == Some(true),
            )
        },
{
    if call.caught {
        if call.terminated {
            return Ok(false);
        }
        if call.has_exception {
            return Err(HandlerThrew);
        }
    }
    match call.returned_false {
        Some(is_false) => Ok(is_false),
        None => Ok(false),
    }
}

// ---------------------------------------------------------------------------
// Laws
// ---------------------------------------------------------------------------

/// The loop after a run of checks.
pub open spec fn after_checks(l: EventLoop, checks: Seq<(Stage, PollFacts)>) -> EventLoop
    decreases checks.len(),
{
    if checks.len() == 0 {
        l
    } else {
        after_checks(l, checks.drop_last()).after(checks.last().0, checks.last().1)
    }
}

/// A worker is warned of its processor time and of its memory at most once each: a check that
/// dispatches the warning uses the threshold up, and no later check brings it back.
pub proof fn law_thresholds_fire_once(
    l: EventLoop,
    stage: Stage,
    f: PollFacts,
    checks: Seq<(Stage, PollFacts)>,
    later: PollFacts,
)
    ensures
        stage == Stage::Cpu && l.dispatches(stage, f) is Some ==> after_checks(
            l.after(stage, f),
            checks,
        ).dispatches(Stage::Cpu, later) is None,
        stage == Stage::Memory && l.dispatches(stage, f) is Some ==> after_checks(
            l.after(stage, f),
            checks,
        ).dispatches(Stage::Memory, later) is None,
    decreases checks.len(),
{
    lemma_used_up_thresholds_stay(l.after(stage, f), checks);
}

proof fn lemma_used_up_thresholds_stay(l: EventLoop, checks: Seq<(Stage, PollFacts)>)
    ensures
        l.cpu_threshold_ms is None ==> after_checks(l, checks).cpu_threshold_ms is None,
        l.memory_threshold_bytes is None ==> after_checks(l, checks).memory_threshold_bytes is None,
    decreases checks.len(),
{
    if checks.len() > 0 {
        lemma_used_up_thresholds_stay(l, checks.drop_last());
    }
}

/// After each poll the processor time is checked first, then the memory, then the wall clock, and
/// then whether to drain; and each of them once.
pub proof fn law_checks_come_in_order(n: nat)
    ensures
        stage_at(0) == Some(Stage::Cpu),
        stage_at(1) == Some(Stage::Memory),
        stage_at(2) == Some(Stage::WallClock),
        stage_at(3) == Some(Stage::Drain),
        n >= 4 ==> stage_at(n) is None,
    decreases n,
{
    reveal_with_fuel(stage_at, 5);
    if n > 4 {
        law_checks_come_in_order((n - 1) as nat);
    }
}

/// A terminated worker is sent nothing.
pub proof fn law_terminated_worker_is_left_alone(l: EventLoop, stage: Stage, f: PollFacts)
    requires
        l.state.terminated,
    ensures
        l.dispatches(stage, f) is None,
{
}


/// An event is dispatched for what has come about: the share of processor time is used up, the
/// share of memory is, unless all of it is gone, the wall clock has struck, or draining was asked
/// for. Each stage looks at its own of these alone.
pub proof fn law_events_have_a_cause(l: EventLoop, stage: Stage, f: PollFacts)
    ensures
        ({
            let live = !l.state.terminated;
            let d = l.dispatches(stage, f);
            &&& d == Some(Dispatch::BeforeUnload(WillTerminateReason::CPU)) <==> stage == Stage::Cpu
                && live && l.cpu_threshold_ms is Some && f.accumulated_cpu_ns
                >= l.cpu_threshold_ms->0 * 1_000_000
            &&& d == Some(Dispatch::BeforeUnload(WillTerminateReason::Memory)) <==> stage
                == Stage::Memory && live && l.memory_threshold_bytes is Some && f.memory_bytes
                >= l.memory_threshold_bytes->0 && !f.memory_exceeded
            &&& d == Some(Dispatch::BeforeUnload(WillTerminateReason::WallClock)) <==> stage
                == Stage::WallClock && live && l.state.wall_clock_beforeunload_triggered
            &&& d == Some(Dispatch::Drain) <==> stage == Stage::Drain && live
                && l.state.drain_triggered
            &&& d != Some(Dispatch::BeforeUnload(WillTerminateReason::EarlyDrop))
            &&& d != Some(Dispatch::BeforeUnload(WillTerminateReason::Termination))
        }),
{
}

/// A look uses up what it acts on and nothing else: a threshold that was reached, the stroke of
/// the wall clock, the request to drain. How full the memory is is noted whenever it is looked at
/// under a limit: from half of it on.
pub proof fn law_looks_use_up_their_cause(l: EventLoop, stage: Stage, f: PollFacts)
    ensures
        ({
            let n = l.after(stage, f);
            &&& n.cpu_threshold_ms == if stage == Stage::Cpu && l.cpu_threshold_ms is Some
                && f.accumulated_cpu_ns >= l.cpu_threshold_ms->0 * 1_000_000 {
                None
            } else {
                l.cpu_threshold_ms
            }
            &&& n.memory_threshold_bytes == if stage == Stage::Memory && l.memory_threshold_bytes
                is Some && f.memory_bytes >= l.memory_threshold_bytes->0 {
                None
            } else {
                l.memory_threshold_bytes
            }
            &&& n.memory_limit == l.memory_limit
            &&& n.state.mem_reached_half == if stage == Stage::Memory && l.memory_limit is Some {
                2 * f.memory_bytes + 1 >= l.memory_limit->0
            } else {
                l.state.mem_reached_half
            }
            &&& n.state.wall_clock_beforeunload_triggered <==> stage != Stage::WallClock
                && l.state.wall_clock_beforeunload_triggered
            &&& n.state.drain_triggered <==> stage != Stage::Drain && l.state.drain_triggered
            &&& n.state.init == l.state.init
            &&& n.state.evaluating_mod == l.state.evaluating_mod
            &&& n.state.event_loop_completed == l.state.event_loop_completed
            &&& n.state.terminated == l.state.terminated
            &&& n.state.found_inspector_session == l.state.found_inspector_session
            &&& n.state.phase == l.state.phase
        }),
{
}

/// A loop that fails says so at once. One that has work left goes on, unless it was polled and has
/// been called off: that ends it, as a termination while a module is being evaluated. One that is
/// done ends, unless it is to wait to be called off.
pub proof fn law_loops_end_when_done_or_called_off(
    evaluating_mod: bool,
    polled: bool,
    result: ScriptPoll,
    termination_requested: bool,
    wait_for_termination: bool,
)
    ensures
        ({
            let r = poll_end(
                evaluating_mod,
                polled,
                result,
                termination_requested,
                wait_for_termination,
            );
            &&& r == LoopPoll::Failed <==> result == ScriptPoll::Failed
            &&& r == LoopPoll::ExecutionTerminated <==> result == ScriptPoll::Pending && polled
                && termination_requested && evaluating_mod
            &&& r == LoopPoll::Ended <==> (result == ScriptPoll::Done && (termination_requested
                || !wait_for_termination)) || (result == ScriptPoll::Pending && polled
                && termination_requested && !evaluating_mod)
            &&& r == LoopPoll::Pending ==> !termination_requested || !polled
        }),
{
}

/// A handler threw if something was caught that is an exception, and not the end of the worker.
pub proof fn law_exceptions_are_told_from_ends(call: HandlerCall)
    ensures
        dispatched(call) is Err <==> call.caught && call.has_exception && !call.terminated,
        threw(call) <==> call.caught && call.has_exception && !call.terminated,
{
}

/// The reasons for which a worker is about to end have names that tell them apart, in lower case.
pub proof fn law_reasons_are_told_apart(a: WillTerminateReason, b: WillTerminateReason, i: int)
    ensures
        a.name() == b.name() ==> a == b,
        0 <= i < a.name().len() ==> 'a' <= a.name()[i] <= 'z' || a.name()[i] == '_',
{
    reveal_strlit("cpu");
    reveal_strlit("memory");
    reveal_strlit("wall_clock");
    reveal_strlit("early_drop");
    reveal_strlit("termination");
    assert(a.name().len() == b.name().len() && a.name()[0] == b.name()[0] || a.name()
        != b.name());
}

} // verus!
