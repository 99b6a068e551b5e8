//! The life of an isolate and of the runtime around it.

use vstd::prelude::*;

use crate::text::{parse_unsigned, unsigned_number};

verus! {

/// The state of an isolate.
#[derive(Debug, Clone, Copy, PartialEq, Eq, Structural)]
pub enum IsolateState {
    /// It accepts operations.
    Running,
    /// It is being dropped: no new operation may start.
    Dropping,
    /// It is gone.
    Dropped,
}

impl IsolateState {
    pub open spec fn of(value: u32) -> IsolateState {
        if value == 0 {
            IsolateState::Running
        } else if value == 1 {
            IsolateState::Dropping
        } else {
            IsolateState::Dropped
        }
    }

    /// The state with the given number. A number that stands for none means that it is gone.
    pub fn from_u32(value: u32) -> (r: IsolateState)
        ensures
            r == IsolateState::of(value),
    {
        match value {
            0 => IsolateState::Running,
            1 => IsolateState::Dropping,
            2 => IsolateState::Dropped,
            _ => IsolateState::Dropped,
        }
    }
}

/// Leave to run one operation on an isolate. It is given back when the operation ends.
#[derive(Debug)]
pub struct IsolateGuard {
    pub held: bool,
}

/// Controls access to an isolate: operations are counted, none may start once the isolate is being
/// dropped, and it is gone only when the last has ended.
#[derive(Debug)]
pub struct IsolateLifecycle {
    pub state: IsolateState,
    pub active_operations: u32,
    /// Whether everybody has been told that the isolate is being dropped.
    pub drop_cancelled: bool,
}

impl IsolateLifecycle {
    /// An isolate that is gone has no operations left, and one that does not run has been
    /// announced.
    pub open spec fn wf(self) -> bool {
        &&& self.state is Dropped ==> self.active_operations == 0
        &&& self.drop_cancelled == !(self.state is Running)
    }

    /// The state, the number of operations, and whether the drop has been announced.
    pub open spec fn model(self) -> Lifecycle {
        Lifecycle {
            state: self.state,
            active: self.active_operations as int,
            announced: self.drop_cancelled,
        }
    }

    pub fn new() -> (r: IsolateLifecycle)
        ensures
            r.wf(),
            r.state is Running,
            r.active_operations == 0,
            !r.drop_cancelled,
    {
        IsolateLifecycle { state: IsolateState::Running, active_operations: 0, drop_cancelled: false }
    }

    /// Leave to run an operation, while the isolate runs.
    pub fn try_enter(&mut self) -> (r: Option<IsolateGuard>)
        requires
            old(self).wf(),
            old(self).active_operations < u32::MAX,
        ensures
            final(self).wf(),
            r is Some <==> old(self).state is Running,
            final(self).model() == lifecycle_step(old(self).model(), LifecycleStep::Enter),
    {
        match self.state {
            IsolateState::Running => {
                self.active_operations = self.active_operations + 1;
                Some(IsolateGuard { held: true })
            },
            _ => None,
        }
    }

    /// Ends an operation. Where it was the last one of an isolate that is being dropped, the
    /// isolate is gone.
    pub fn leave(&mut self, guard: IsolateGuard)
        requires
            old(self).wf(),
            old(self).active_operations > 0,
        ensures
            final(self).wf(),
            final(self).model() == lifecycle_step(old(self).model(), LifecycleStep::Leave),
    {
        let _ = guard;
        self.active_operations = self.active_operations - 1;
        if self.state == IsolateState::Dropping && self.active_operations == 0 {
            self.state = IsolateState::Dropped;
        }
    }

    /// Announces that the isolate is to be dropped: the token is cancelled, and no operation starts
    /// any more. The isolate is gone at once where none is active.
    pub fn announce_drop(&mut self)
        requires
            old(self).wf(),
        ensures
            final(self).wf(),
            final(self).model() == lifecycle_step(old(self).model(), LifecycleStep::Announce),
    {
        self.drop_cancelled = true;
        self.state = if self.active_operations == 0 {
            IsolateState::Dropped
        } else {
            IsolateState::Dropping
        };
    }

    /// Drops the isolate: announces it, waits until every active operation has ended, and returns
    /// once the isolate is gone. `leaving` are the guards that the operations give back meanwhile.
    pub fn begin_drop(&mut self, leaving: Vec<IsolateGuard>)
        requires
            old(self).wf(),
            leaving@.len() == old(self).active_operations,
        ensures
            final(self).wf(),
            final(self).state is Dropped,
            final(self).active_operations == 0,
            final(self).drop_cancelled,
            final(self).model() == lifecycle_run(
                lifecycle_step(old(self).model(), LifecycleStep::Announce),
                all_leave(leaving@.len()),
            ),
    {
        let mut leaving = leaving;
        let ghost total = leaving@.len();
        self.announce_drop();
        let ghost start = self.model();
        while leaving.len() > 0
            invariant
                self.wf(),
                !(self.state is Running),
                leaving@.len() == self.active_operations,
                self.state is Dropped <==> self.active_operations == 0,
                leaving@.len() <= total,
                self.model() == lifecycle_run(start, all_leave((total - leaving@.len()) as nat)),
            decreases leaving@.len(),
        {
            let ghost done = (total - leaving@.len()) as nat;
            let guard = leaving.pop().unwrap();
            self.leave(guard);
            assert(all_leave(done + 1).drop_last() =~= all_leave(done));
        }
    }

    /// The current state.
    pub fn state(&self) -> (r: IsolateState)
        ensures
            r == self.state,
    {
        self.state
    }

    /// Whether the isolate runs.
    pub fn is_running(&self) -> (r: bool)
        ensures
            r == self.state is Running,
    {
        self.state == IsolateState::Running
    }

    /// Whether the isolate is being dropped or is gone.
    pub fn is_dropping(&self) -> (r: bool)
        ensures
            r == !(self.state is Running),
    {
        self.state != IsolateState::Running
    }

    /// The number of operations that are active.
    pub fn active_operation_count(&self) -> (r: u32)
        ensures
            r == self.active_operations,
    {
        self.active_operations
    }
}

/// An isolate: its state, the number of operations, and whether its drop has been announced.
pub ghost struct Lifecycle {
    pub state: IsolateState,
    pub active: int,
    pub announced: bool,
}

/// What can happen to an isolate.
pub enum LifecycleStep {
    Enter,
    Leave,
    Announce,
}

/// The isolate once a step has been taken. A step that is not possible changes nothing.
pub open spec fn lifecycle_step(s: Lifecycle, step: LifecycleStep) -> Lifecycle {
    match step {
        LifecycleStep::Enter => if s.state is Running {
            Lifecycle { active: s.active + 1, ..s }
        } else {
            s
        },
        LifecycleStep::Leave => if s.active > 0 {
            Lifecycle {
                state: if s.state is Dropping && s.active == 1 {
                    IsolateState::Dropped
                } else {
                    s.state
                },
                active: s.active - 1,
                ..s
            }
        } else {
            s
        },
        LifecycleStep::Announce => Lifecycle {
            state: if s.active == 0 {
                IsolateState::Dropped
            } else {
                IsolateState::Dropping
            },
            active: s.active,
            announced: true,
        },
    }
}

pub open spec fn lifecycle_run(s: Lifecycle, steps: Seq<LifecycleStep>) -> Lifecycle
    decreases steps.len(),
{
    if steps.len() == 0 {
        s
    } else {
        lifecycle_step(lifecycle_run(s, steps.drop_last()), steps.last())
    }
}

/// `n` operations end, one after the other.
pub open spec fn all_leave(n: nat) -> Seq<LifecycleStep> {
    Seq::new(n, |i: int| LifecycleStep::Leave)
}

/// Once a drop has been announced the isolate never runs again, no further operation starts, and
/// it is gone only while none is active.
pub proof fn law_no_operation_after_drop(s: Lifecycle, steps: Seq<LifecycleStep>)
    requires
        !(s.state is Running),
        s.announced,
        s.active >= 0,
        s.state is Dropped ==> s.active == 0,
    ensures
        !(lifecycle_run(s, steps).state is Running),
        lifecycle_run(s, steps).announced,
        0 <= lifecycle_run(s, steps).active <= s.active,
        lifecycle_run(s, steps).state is Dropped ==> lifecycle_run(s, steps).active == 0,
    decreases steps.len(),
{
    if steps.len() > 0 {
        law_no_operation_after_drop(s, steps.drop_last());
    }
}

/// A drop waits for the operations that are active when it is announced: the isolate is gone when
/// the last of them has ended, and not before.
pub proof fn law_drop_waits_for_every_operation(s: Lifecycle, ended: nat)
    requires
        s.active >= 0,
        ended <= s.active,
    ensures
        ({
            let after = lifecycle_run(
                lifecycle_step(s, LifecycleStep::Announce),
                all_leave(ended),
            );
            &&& after.active == s.active - ended
            &&& after.announced
            &&& after.state is Dropped <==> ended == s.active
            &&& after.state is Dropping <==> ended < s.active
        }),
    decreases ended,
{
    if ended > 0 {
        law_drop_waits_for_every_operation(s, (ended - 1) as nat);
        assert(all_leave(ended).drop_last() =~= all_leave((ended - 1) as nat));
    }
}

// ---------------------------------------------------------------------------
// Phases of the runtime
// ---------------------------------------------------------------------------

/// The phases of a runtime.
#[derive(Debug, Clone, Copy, PartialEq, Eq, Structural)]
pub enum LifecyclePhase {
    /// Created, but not yet initialised.
    Created,
    /// Loading its modules.
    Initializing,
    /// Processing requests.
    Running,
    /// Shutting down.
    Terminating,
    /// Gone.
    Terminated,
}

impl LifecyclePhase {
    /// The number of a phase.
    pub open spec fn number(self) -> u32 {
        match self {
            LifecyclePhase::Created => 0,
            LifecyclePhase::Initializing => 1,
            LifecyclePhase::Running => 2,
            LifecyclePhase::Terminating => 3,
            LifecyclePhase::Terminated => 4,
        }
    }

    /// The phase with the given number. A number that stands for none means that it is gone.
    pub fn from_u32(value: u32) -> (r: LifecyclePhase)
        ensures
            r.number() == if value < 4 {
                value
            } else {
                4
            },
    {
        match value {
            0 => LifecyclePhase::Created,
            1 => LifecyclePhase::Initializing,
            2 => LifecyclePhase::Running,
            3 => LifecyclePhase::Terminating,
            4 => LifecyclePhase::Terminated,
            _ => LifecyclePhase::Terminated,
        }
    }

    /// The number of this phase.
    pub fn as_u32(&self) -> (r: u32)
        ensures
            r == self.number(),
    {
        match self {
            LifecyclePhase::Created => 0,
            LifecyclePhase::Initializing => 1,
            LifecyclePhase::Running => 2,
            LifecyclePhase::Terminating => 3,
            LifecyclePhase::Terminated => 4,
        }
    }
}

/// A phase is known by its number.
pub proof fn law_phase_numbers_are_distinct(a: LifecyclePhase, b: LifecyclePhase)
    requires
        a.number() == b.number(),
    ensures
        a == b,
{
}

/// The flags of a runtime, and its phase.
#[derive(Debug, Clone, Copy, PartialEq, Eq, Structural)]
pub struct RuntimeState {
    pub init: bool,
    pub evaluating_mod: bool,
    pub event_loop_completed: bool,
    pub terminated: bool,
    pub found_inspector_session: bool,
    pub mem_reached_half: bool,
    pub wall_clock_beforeunload_triggered: bool,
    pub drain_triggered: bool,
    pub phase: LifecyclePhase,
}

impl RuntimeState {
    /// A runtime that has just been created.
    pub fn new() -> (r: RuntimeState)
        ensures
            r == (RuntimeState {
                init: false,
                evaluating_mod: false,
                event_loop_completed: false,
                terminated: false,
                found_inspector_session: false,
                mem_reached_half: false,
                wall_clock_beforeunload_triggered: false,
                drain_triggered: false,
                phase: LifecyclePhase::Created,
            }),
    {
        RuntimeState {
            init: false,
            evaluating_mod: false,
            event_loop_completed: false,
            terminated: false,
            found_inspector_session: false,
            mem_reached_half: false,
            wall_clock_beforeunload_triggered: false,
            drain_triggered: false,
            phase: LifecyclePhase::Created,
        }
    }

    pub fn is_init(&self) -> (r: bool)
        ensures
            r == self.init,
    {
        self.init
    }

    pub fn is_evaluating_mod(&self) -> (r: bool)
        ensures
            r == self.evaluating_mod,
    {
        self.evaluating_mod
    }

    pub fn is_event_loop_completed(&self) -> (r: bool)
        ensures
            r == self.event_loop_completed,
    {
        self.event_loop_completed
    }

    pub fn is_terminated(&self) -> (r: bool)
        ensures
            r == self.terminated,
    {
        self.terminated
    }

    pub fn is_found_inspector_session(&self) -> (r: bool)
        ensures
            r == self.found_inspector_session,
    {
        self.found_inspector_session
    }

    /// The current phase.
    pub fn phase(&self) -> (r: LifecyclePhase)
        ensures
            r == self.phase,
    {
        self.phase
    }

    /// Moves to the phase `new`, if the current one is the expected one. The result says whether it
    /// was.
    pub fn transition(&mut self, expected: LifecyclePhase, new: LifecyclePhase) -> (r: bool)
        ensures
            r == (old(self).phase == expected),
            *final(self) == if r {
                (RuntimeState { phase: new, ..*old(self) })
            } else {
                *old(self)
            },
    {
        if self.phase == expected {
            self.phase = new;
            true
        } else {
            false
        }
    }

    /// Moves to a phase, whatever the current one.
    pub fn set_phase(&mut self, phase: LifecyclePhase)
        ensures
            *final(self) == (RuntimeState { phase, ..*old(self) }),
    {
        self.phase = phase;
    }
}

// ---------------------------------------------------------------------------
// Thread pools and blocking work
// ---------------------------------------------------------------------------

/// The fewest threads of the pool for main workers.
pub const DEFAULT_PRIMARY_WORKER_POOL_SIZE: usize = 2;

/// The fewest threads of the pool for user workers.
pub const DEFAULT_USER_WORKER_POOL_SIZE: usize = 1;

/// The larger of two sizes.
pub open spec fn at_least(n: int, least: int) -> int {
    if n < least {
        least
    } else {
        n
    }
}

/// The number of threads of a pool: the configured one where it is a number, and otherwise one for
/// each processor, but never fewer than `least`.
pub fn worker_pool_size(configured: Option<&str>, processors: Option<usize>, least: usize) -> (r:
    usize)
    ensures
        r == match configured {
            Some(s) => match unsigned_number(s@, usize::MAX as int) {
                Some(n) => at_least(n, least as int),
                None => match processors {
                    Some(p) => at_least(p as int, least as int),
                    None => least as int,
                },
            },
            None => match processors {
                Some(p) => at_least(p as int, least as int),
                None => least as int,
            },
        },
{
    match configured {
        Some(s) => match parse_unsigned(s, usize::MAX as u64) {
            Some(n) => {
                return if (n as usize) < least {
                    least
                } else {
                    n as usize
                };
            },
            None => {},
        },
        None => {},
    }
    match processors {
        Some(p) => if p < least {
            least
        } else {
            p
        },
        None => least,
    }
}

/// Processor time that was used off the isolate's own thread, in nanoseconds.
#[derive(Debug, Clone, Copy, PartialEq, Eq, Structural)]
pub struct BlockingScopeCPUUsage {
    pub ns: i64,
}

/// The sum of a number and a count that is not negative, wrapped around at 64 bits.
pub open spec fn wrapped_sum(n: int, count: int) -> int {
    if n + count > i64::MAX {
        n + count - 0x1_0000_0000_0000_0000
    } else {
        n + count
    }
}

impl BlockingScopeCPUUsage {
    pub fn new() -> (r: BlockingScopeCPUUsage)
        ensures
            r.ns == 0,
    {
        BlockingScopeCPUUsage { ns: 0 }
    }

    /// Adds what a blocking task used: the difference of the two readings of its clock, where the
    /// clock has advanced. The sum wraps around.
    pub fn add(&mut self, before: i64, after: i64)
        requires
            i64::MIN <= after - before <= i64::MAX,
        ensures
            final(self).ns == wrapped_sum(
                old(self).ns as int,
                if after > before {
                    after - before
                } else {
                    0
                },
            ),
    {
        let diff: i64 = after - before;
        if diff > 0 {
            self.ns = self.ns.wrapping_add(diff);
        }
    }

    /// What has been added up since the last time, and starts again from zero.
    pub fn get_cpu_usage_ns_and_reset(&mut self) -> (r: i64)
        ensures
            r == old(self).ns,
            final(self).ns == 0,
    {
        let ns: i64 = self.ns;
        self.ns = 0;
        ns
    }
}

/// Whether a finished blocking task still reports to its isolate: it may enter the isolate, or, for
/// one without a lifecycle, the isolate has not been announced as dropped.
pub fn reports_to_isolate(entered: Option<bool>, drop_cancelled: bool) -> (r: bool)
    ensures
        r == match entered {
            Some(e) => e,
            None => !drop_cancelled,
        },
{
    match entered {
        Some(e) => e,
        None => !drop_cancelled,
    }
}


/// The word that holds an isolate's state counts up: it runs, it is being dropped, it is gone.
pub proof fn law_states_count_up(value: u32)
    ensures
        IsolateState::of(value) is Running <==> value == 0,
        IsolateState::of(value) is Dropping <==> value == 1,
        IsolateState::of(value) is Dropped <==> value > 1,
{
}

/// Entering a running isolate adds one operation, and leaving takes it off again; entering any
/// other changes nothing. The last to leave an isolate that is being dropped leaves it gone.
pub proof fn law_operations_are_counted(s: Lifecycle)
    requires
        s.active >= 0,
    ensures
        ({
            let inside = lifecycle_step(s, LifecycleStep::Enter);
            let left = lifecycle_step(s, LifecycleStep::Leave);
            let told = lifecycle_step(s, LifecycleStep::Announce);
            &&& s.state is Running ==> inside.active == s.active + 1 && inside.state is Running
                && inside.announced == s.announced && lifecycle_step(inside, LifecycleStep::Leave)
                == s
            &&& !(s.state is Running) ==> inside == s
            &&& s.active == 0 ==> left == s
            &&& s.active > 0 ==> left.active == s.active - 1 && left.announced == s.announced
            &&& s.active > 0 && s.state is Dropping && s.active == 1 ==> left.state is Dropped
            &&& s.active > 0 && !(s.state is Dropping && s.active == 1) ==> left.state == s.state
            &&& told.announced
            &&& told.active == s.active
            &&& told.state is Dropped <==> s.active == 0
            &&& told.state is Dropping <==> s.active > 0
        }),
{
}

/// Phases are counted from zero, in the order in which a runtime goes through them.
pub proof fn law_phases_are_numbered_in_order(p: LifecyclePhase)
    ensures
        p is Created <==> p.number() == 0,
        p is Initializing <==> p.number() == 1,
        p is Running <==> p.number() == 2,
        p is Terminating <==> p.number() == 3,
        p is Terminated <==> p.number() == 4,
{
}

/// A number with a lower bound is the larger of the two.
pub proof fn law_bounds_hold_from_below(n: int, least: int)
    ensures
        at_least(n, least) >= n,
        at_least(n, least) >= least,
        at_least(n, least) == n || at_least(n, least) == least,
{
}

/// Time is added up in sixty-four bits: where the sum is too large for them it goes round.
pub proof fn law_time_is_added_up(n: i64, count: i64)
    requires
        count >= 0,
    ensures
        ({
            let sum = wrapped_sum(n as int, count as int);
            &&& i64::MIN <= sum <= i64::MAX
            &&& n + count <= i64::MAX ==> sum == n + count
            &&& n + count > i64::MAX ==> sum - i64::MIN == n + count - i64::MAX - 1
        }),
{
}

} // verus!
