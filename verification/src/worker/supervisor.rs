//! Supervising a worker: its budget, what is done when it is to end, and the report of its end.

use vstd::prelude::*;

use crate::flags::SupervisorPolicy;
use crate::flow_events::ShutdownReason;
use crate::lifecycle::RuntimeState;
use crate::runtime::memory::MemCheckState;
use crate::text::{decimal, decimal_text, join, law_numbers_read_back, unsigned_number};

verus! {

/// Numbers the messages to a debugger.
#[derive(Debug)]
pub struct MessageIds {
    pub next: i32,
}

impl MessageIds {
    pub fn new() -> (r: MessageIds)
        ensures
            r.next == 0,
    {
        MessageIds { next: 0 }
    }

    /// The next number. They start again at the smallest after the largest.
    pub fn next_msg_id(&mut self) -> (r: i32)
        ensures
            r == old(self).next,
            final(self).next == if old(self).next < i32::MAX {
                old(self).next + 1
            } else {
                i32::MIN as int
            },
    {
        let n: i32 = self.next;
        self.next = if n < i32::MAX {
            n + 1
        } else {
            i32::MIN
        };
        n
    }
}

/// The processor time that one task of a worker may use: the configured one, or else the soft limit
/// in a debug build, and one millisecond in any other.
pub fn cpu_budget(
    max_budget_per_task_ms: Option<u64>,
    soft_limit_ms: u64,
    debug_build: bool,
) -> (r: u64)
    ensures
        r == match max_budget_per_task_ms {
            Some(ms) => ms,
            None => if debug_build {
                soft_limit_ms
            } else {
                1
            },
        },
{
    match max_budget_per_task_ms {
        Some(ms) => ms,
        None => if debug_build {
            soft_limit_ms
        } else {
            1
        },
    }
}

/// The heap limit that an isolate close to its limit is given until it is terminated, so that the
/// process survives it.
pub fn raised_heap_limit(current: usize, multiplier: u64) -> (r: usize)
    requires
        current * multiplier <= usize::MAX,
        multiplier <= usize::MAX,
    ensures
        r == current * multiplier,
{
    current * (multiplier as usize)
}

/// How a worker is supervised.
#[derive(Debug, Clone, Copy, PartialEq, Eq, Structural)]
pub enum Strategy {
    PerWorker,
    PerRequest { oneshot: bool },
}

/// The strategy that a policy calls for.
pub fn strategy_for(policy: SupervisorPolicy) -> (r: Strategy)
    ensures
        r == match policy {
            SupervisorPolicy::PerWorker => Strategy::PerWorker,
            SupervisorPolicy::PerRequest { oneshot } => Strategy::PerRequest { oneshot },
        },
{
    match policy {
        SupervisorPolicy::PerWorker => Strategy::PerWorker,
        SupervisorPolicy::PerRequest { oneshot } => Strategy::PerRequest { oneshot },
    }
}

/// What is done about the debugger of a worker that has to end.
#[derive(Debug, Clone, Copy, PartialEq, Eq, Structural)]
pub enum DebuggerCleanup {
    /// Nothing: the worker has ended, or has been asked to.
    Nothing,
    /// The worker is asked to end. A debugger is attached and will let it go.
    RequestTermination,
    /// The worker is asked to end, and is let go as a debugger would let it.
    RequestAndUnblock,
}

/// What is done about the debugger of a worker that has to end.
pub fn debugger_cleanup(
    terminated: bool,
    termination_requested: bool,
    found_inspector_session: bool,
) -> (r: DebuggerCleanup)
    ensures
        r == if terminated || termination_requested {
            DebuggerCleanup::Nothing
        } else if found_inspector_session {
            DebuggerCleanup::RequestTermination
        } else {
            DebuggerCleanup::RequestAndUnblock
        },
{
    if terminated || termination_requested {
        DebuggerCleanup::Nothing
    } else if found_inspector_session {
        DebuggerCleanup::RequestTermination
    } else {
        DebuggerCleanup::RequestAndUnblock
    }
}

/// What a waiting worker is told so that it goes on.
#[derive(Debug, Clone, Copy, PartialEq, Eq, Structural)]
pub enum UnblockStep {
    EnableDebugger,
    RunIfWaiting,
}

impl UnblockStep {
    pub open spec fn method(self) -> Seq<char> {
        match self {
            UnblockStep::EnableDebugger => "Debugger.enable"@,
            UnblockStep::RunIfWaiting => "Runtime.runIfWaitingForDebugger"@,
        }
    }
}

/// A whole number in decimal.
pub open spec fn signed_text(n: int) -> Seq<char> {
    if n < 0 {
        "-"@ + decimal_text((-n) as nat)
    } else {
        decimal_text(n as nat)
    }
}

fn write_signed(n: i32) -> (r: String)
    ensures
        r@ == signed_text(n as int),
{
    let wide: i64 = n as i64;
    if wide < 0 {
        join("-", decimal((0 - wide) as u64).as_str())
    } else {
        decimal(wide as u64)
    }
}

/// The message with the given number that tells a worker to go on.
pub fn unblock_message(id: i32, step: UnblockStep) -> (r: String)
    ensures
        r@ == "{\"id\":"@ + signed_text(id as int) + ",\"method\":\""@ + step.method()
            + "\",\"params\":null}"@,
{
    let a = join("{\"id\":", write_signed(id).as_str());
    let b = join(a.as_str(), ",\"method\":\"");
    let method: &str = match step {
        UnblockStep::EnableDebugger => "Debugger.enable",
        UnblockStep::RunIfWaiting => "Runtime.runIfWaitingForDebugger",
    };
    let c = join(b.as_str(), method);
    join(c.as_str(), "\",\"params\":null}")
}

/// What an isolate reports of its memory at its end.
#[derive(Debug, Clone, Copy, PartialEq, Eq, Structural)]
pub struct IsolateMemoryStats {
    pub used_heap_size: usize,
    pub external_memory: usize,
}

/// The memory that a worker used.
#[derive(Debug, Clone, Copy, PartialEq, Eq, Structural)]
pub struct WorkerMemoryUsed {
    pub total: usize,
    pub heap: usize,
    pub external: usize,
    /// What the memory check had seen.
    pub mem_check_captured: MemCheckState,
}

/// The end of a worker.
#[derive(Debug, Clone, Copy, PartialEq, Eq, Structural)]
pub struct ShutdownEvent {
    pub reason: ShutdownReason,
    pub memory_used: WorkerMemoryUsed,
    pub cpu_time_used: usize,
}

/// The memory that a worker used: what its isolate reports, and nothing where it reports nothing
/// any more.
pub fn memory_used(report: Option<IsolateMemoryStats>, captured: MemCheckState) -> (r:
    WorkerMemoryUsed)
    requires
        report matches Some(m) ==> m.used_heap_size + m.external_memory <= usize::MAX,
    ensures
        match report {
            Some(m) => r == (WorkerMemoryUsed {
                total: (m.used_heap_size + m.external_memory) as usize,
                heap: m.used_heap_size,
                external: m.external_memory,
                mem_check_captured: captured,
            }),
            None => r == (WorkerMemoryUsed {
                total: 0,
                heap: 0,
                external: 0,
                mem_check_captured: MemCheckState::nothing(),
            }),
        },
{
    match report {
        Some(m) => WorkerMemoryUsed {
            total: m.used_heap_size + m.external_memory,
            heap: m.used_heap_size,
            external: m.external_memory,
            mem_check_captured: captured,
        },
        None => WorkerMemoryUsed {
            total: 0,
            heap: 0,
            external: 0,
            mem_check_captured: MemCheckState::new(),
        },
    }
}

/// Where a supervisor stands.
#[derive(Debug, Clone, Copy, PartialEq, Eq, Structural)]
pub enum SupervisorStage {
    /// The worker runs.
    Supervising,
    /// The debugger of the worker is being taken care of.
    Debugger,
    /// The memory report of the worker is being waited for.
    MemoryReport,
    Finished,
}

/// What a supervisor does.
#[derive(Debug, Clone, Copy, PartialEq, Eq, Structural)]
pub enum SupervisorAction {
    /// Close the sessions of the worker's debugger, and do as the cleanup says.
    CleanUpDebugger(DebuggerCleanup),
    /// Wake the worker, and wait for its memory report or for its runtime to go away.
    AwaitMemoryReport,
    /// Report the end of the worker. `request_termination` says whether the worker is asked to end
    /// and woken before.
    Report { event: ShutdownEvent, request_termination: bool },
}

/// The end of a supervised worker.
#[derive(Debug, Clone, Copy, PartialEq, Eq, Structural)]
pub struct Supervisor {
    pub stage: SupervisorStage,
    pub has_inspector: bool,
    pub reason: ShutdownReason,
    pub cpu_time_ms: i64,
    /// Whether the worker has been asked to end.
    pub termination_requested: bool,
}

/// The shutdown that is reported.
pub open spec fn shutdown_event(
    s: Supervisor,
    report: Option<IsolateMemoryStats>,
    captured: MemCheckState,
) -> ShutdownEvent {
    ShutdownEvent {
        reason: s.reason,
        memory_used: match report {
            Some(m) => WorkerMemoryUsed {
                total: (m.used_heap_size + m.external_memory) as usize,
                heap: m.used_heap_size,
                external: m.external_memory,
                mem_check_captured: captured,
            },
            None => WorkerMemoryUsed {
                total: 0,
                heap: 0,
                external: 0,
                mem_check_captured: MemCheckState::nothing(),
            },
        },
        cpu_time_used: s.cpu_time_ms as usize,
    }
}

impl Supervisor {
    /// Begins to end a worker for the given reason. Its debugger comes first, where it has one.
    pub fn create_supervisor(
        has_inspector: bool,
        reason: ShutdownReason,
        cpu_time_ms: i64,
        terminated: bool,
        termination_requested: bool,
        found_inspector_session: bool,
    ) -> (r: (Supervisor, SupervisorAction))
        ensures
            r.0.has_inspector == has_inspector,
            r.0.reason == reason,
            r.0.cpu_time_ms == cpu_time_ms,
            !has_inspector ==> {
                &&& r.1 == SupervisorAction::AwaitMemoryReport
                &&& r.0.stage is MemoryReport
                &&& r.0.termination_requested == termination_requested
            },
            has_inspector ==> {
                let cleanup = if terminated || termination_requested {
                    DebuggerCleanup::Nothing
                } else if found_inspector_session {
                    DebuggerCleanup::RequestTermination
                } else {
                    DebuggerCleanup::RequestAndUnblock
                };
                &&& r.1 == SupervisorAction::CleanUpDebugger(cleanup)
                &&& r.0.stage is Debugger
                &&& r.0.termination_requested == (termination_requested || !terminated)
            },
    {
        if has_inspector {
            let cleanup = debugger_cleanup(
                terminated,
                termination_requested,
                found_inspector_session,
            );
            let requested = termination_requested || cleanup != DebuggerCleanup::Nothing;
            (
                Supervisor {
                    stage: SupervisorStage::Debugger,
                    has_inspector,
                    reason,
                    cpu_time_ms,
                    termination_requested: requested,
                },
                SupervisorAction::CleanUpDebugger(cleanup),
            )
        } else {
            (
                Supervisor {
                    stage: SupervisorStage::MemoryReport,
                    has_inspector,
                    reason,
                    cpu_time_ms,
                    termination_requested,
                },
                SupervisorAction::AwaitMemoryReport,
            )
        }
    }

    /// The debugger has been taken care of, or that took too long.
    pub fn debugger_done(&mut self) -> (r: SupervisorAction)
        requires
            old(self).stage is Debugger,
        ensures
            r == SupervisorAction::AwaitMemoryReport,
            *final(self) == (Supervisor { stage: SupervisorStage::MemoryReport, ..*old(self) }),
    {
        self.stage = SupervisorStage::MemoryReport;
        SupervisorAction::AwaitMemoryReport
    }

    /// The memory report has come, or cannot come any more.
    pub fn memory_reported(
        &mut self,
        report: Option<IsolateMemoryStats>,
        captured: MemCheckState,
        termination_requested: bool,
    ) -> (r: SupervisorAction)
        requires
            old(self).stage is MemoryReport,
            report matches Some(m) ==> m.used_heap_size + m.external_memory <= usize::MAX,
        ensures
            r == (SupervisorAction::Report {
                event: shutdown_event(*old(self), report, captured),
                request_termination: !(old(self).termination_requested || termination_requested),
            }),
            *final(self) == (Supervisor {
                stage: SupervisorStage::Finished,
                termination_requested: true,
                ..*old(self)
            }),
    {
        let request = !(self.termination_requested || termination_requested);
        let event = ShutdownEvent {
            reason: self.reason,
            memory_used: memory_used(report, captured),
            cpu_time_used: self.cpu_time_ms as usize,
        };
        self.stage = SupervisorStage::Finished;
        self.termination_requested = true;
        SupervisorAction::Report { event, request_termination: request }
    }
}

// ---------------------------------------------------------------------------
// Interrupts
// ---------------------------------------------------------------------------

/// Whether an interrupt that is to terminate an isolate does so: not one that is being torn down.
pub fn handle_termination(isolate_is_alive: bool, should_terminate: bool) -> (r: bool)
    ensures
        r == (isolate_is_alive && should_terminate),
{
    isolate_is_alive && should_terminate
}

/// The wall-clock warning has come due: the worker is warned at its next poll, unless its runtime
/// is being dropped.
pub fn handle_beforeunload(state: &mut RuntimeState, runtime_dropped: bool)
    ensures
        *final(state) == if runtime_dropped {
            *old(state)
        } else {
            (RuntimeState { wall_clock_beforeunload_triggered: true, ..*old(state) })
        },
{
    if !runtime_dropped {
        state.wall_clock_beforeunload_triggered = true;
    }
}

/// The worker is to be drained: it is told at its next poll, unless its runtime is being dropped.
pub fn handle_drain(state: &mut RuntimeState, runtime_dropped: bool)
    ensures
        *final(state) == if runtime_dropped {
            *old(state)
        } else {
            (RuntimeState { drain_triggered: true, ..*old(state) })
        },
{
    if !runtime_dropped {
        state.drain_triggered = true;
    }
}


// ---------------------------------------------------------------------------
// Laws
// ---------------------------------------------------------------------------

/// The number of a message is written in decimal, with a minus sign in front where it is below
/// zero.
pub proof fn law_message_numbers_read_back(n: int)
    ensures
        n >= 0 ==> unsigned_number(signed_text(n), n) == Some(n),
        n < 0 ==> signed_text(n)[0] == '-' && unsigned_number(signed_text(n).skip(1), -n) == Some(
            -n,
        ),
{
    reveal_strlit("-");
    if n >= 0 {
        law_numbers_read_back(n as nat, n, Seq::empty());
    } else {
        law_numbers_read_back((-n) as nat, -n, Seq::empty());
        assert(signed_text(n).skip(1) =~= decimal_text((-n) as nat));
    }
}

/// The end of a worker is reported with its reason and the processor time it used. Its memory is
/// what its isolate reported last, in whole and in parts, beside what was captured on the way; an
/// isolate that reported nothing used nothing.
pub proof fn law_ends_are_reported(
    s: Supervisor,
    report: Option<IsolateMemoryStats>,
    captured: MemCheckState,
)
    requires
        s.cpu_time_ms >= 0,
        s.cpu_time_ms <= usize::MAX,
        report is Some ==> (report->0).used_heap_size + (report->0).external_memory <= usize::MAX,
    ensures
        ({
            let e = shutdown_event(s, report, captured);
            &&& e.reason == s.reason
            &&& e.cpu_time_used == s.cpu_time_ms
            &&& e.memory_used.total == e.memory_used.heap + e.memory_used.external
            &&& report is Some ==> e.memory_used.heap == (report->0).used_heap_size
                && e.memory_used.external == (report->0).external_memory
                && e.memory_used.mem_check_captured == captured
            &&& report is None ==> e.memory_used.heap == 0 && e.memory_used.external == 0
                && !e.memory_used.mem_check_captured.exceeded
                && e.memory_used.mem_check_captured.current.used_heap == 0
                && e.memory_used.mem_check_captured.current.malloced == 0
                && e.memory_used.mem_check_captured.current.external == 0
                && e.memory_used.mem_check_captured.current.wasm == 0
        }),
{
}

} // verus!
