//! Worker-pool and worker-lifecycle settings.

use vstd::prelude::*;

verus! {

/// Worker lifecycle knobs. A knob that is not set leaves the default in force.
#[derive(Debug, Clone, Copy, PartialEq, Eq, Structural)]
pub struct WorkerFlags {
    /// How long a `create()` waits for a pool slot before failing.
    pub request_wait_timeout_ms: Option<u64>,
    pub beforeunload_wall_clock_pct: Option<u8>,
    pub beforeunload_cpu_pct: Option<u8>,
    pub beforeunload_memory_pct: Option<u8>,
    /// Deny workers that ask for access to the host file system.
    pub restrict_host_fs: bool,
}

/// Flags with nothing set.
pub open spec fn unset_flags() -> WorkerFlags {
    WorkerFlags {
        request_wait_timeout_ms: None,
        beforeunload_wall_clock_pct: None,
        beforeunload_cpu_pct: None,
        beforeunload_memory_pct: None,
        restrict_host_fs: false,
    }
}

impl Default for WorkerFlags {
    fn default() -> (r: WorkerFlags)
        ensures
            r == unset_flags(),
    {
        WorkerFlags {
            request_wait_timeout_ms: None,
            beforeunload_wall_clock_pct: None,
            beforeunload_cpu_pct: None,
            beforeunload_memory_pct: None,
            restrict_host_fs: false,
        }
    }
}

/// How a worker is supervised: for its whole life, or per request, where a `oneshot` worker ends
/// with its first request.
#[derive(Debug, Clone, Copy, PartialEq, Eq, Structural)]
pub enum SupervisorPolicy {
    PerWorker,
    PerRequest { oneshot: bool },
}

impl SupervisorPolicy {
    pub fn oneshot() -> (r: SupervisorPolicy)
        ensures
            r == (SupervisorPolicy::PerRequest { oneshot: true }),
    {
        SupervisorPolicy::PerRequest { oneshot: true }
    }

    pub fn is_per_request(&self) -> (r: bool)
        ensures
            r == (self is PerRequest),
    {
        matches!(self, SupervisorPolicy::PerRequest { .. })
    }
}

/// How many workers of one service run at once, where nothing else is asked for.
pub const DEFAULT_MAX_PARALLELISM: usize = 4;

/// How long a `create()` waits for a free slot, where nothing else is asked for.
pub const DEFAULT_REQUEST_WAIT_TIMEOUT_MS: u64 = 10000;

/// The settings of a worker pool.
#[derive(Debug, Clone, Copy, PartialEq, Eq, Structural)]
pub struct WorkerPoolPolicy {
    pub supervisor_policy: SupervisorPolicy,
    pub max_parallelism: usize,
    pub request_wait_timeout_ms: u64,
}

/// The settings of a pool for which these are asked for.
pub open spec fn pool_policy(
    supervisor_policy: Option<SupervisorPolicy>,
    max_parallelism: Option<usize>,
    request_wait_timeout_ms: Option<u64>,
) -> WorkerPoolPolicy {
    WorkerPoolPolicy {
        supervisor_policy: match supervisor_policy {
            Some(p) => p,
            None => SupervisorPolicy::PerWorker,
        },
        max_parallelism: match max_parallelism {
            Some(n) => n,
            None => DEFAULT_MAX_PARALLELISM,
        },
        request_wait_timeout_ms: match request_wait_timeout_ms {
            Some(ms) => ms,
            None => DEFAULT_REQUEST_WAIT_TIMEOUT_MS,
        },
    }
}

impl WorkerPoolPolicy {
    /// The settings of a pool. The wait timeout is the one of the worker flags, and what is not
    /// asked for is the default.
    pub fn new(
        supervisor_policy: Option<SupervisorPolicy>,
        max_parallelism: Option<usize>,
        flags: WorkerFlags,
    ) -> (r: WorkerPoolPolicy)
        ensures
            r == pool_policy(supervisor_policy, max_parallelism, flags.request_wait_timeout_ms),
    {
        WorkerPoolPolicy {
            supervisor_policy: match supervisor_policy {
                Some(p) => p,
                None => SupervisorPolicy::PerWorker,
            },
            max_parallelism: match max_parallelism {
                Some(n) => n,
                None => DEFAULT_MAX_PARALLELISM,
            },
            request_wait_timeout_ms: match flags.request_wait_timeout_ms {
                Some(ms) => ms,
                None => DEFAULT_REQUEST_WAIT_TIMEOUT_MS,
            },
        }
    }
}

/// Four hours, in milliseconds.
pub const TEST_TIMEOUT_MS: u64 = 14400000;

/// The pool settings that tests run under: one worker at a time, each for one request, and a long
/// wait.
pub fn test_user_worker_pool_policy() -> (r: WorkerPoolPolicy)
    ensures
        r.supervisor_policy == (SupervisorPolicy::PerRequest { oneshot: true }),
        r.max_parallelism == 1,
        r.request_wait_timeout_ms == 4 * 1000 * 3600,
{
    let mut flags = WorkerFlags::default();
    flags.request_wait_timeout_ms = Some(TEST_TIMEOUT_MS);
    WorkerPoolPolicy::new(Some(SupervisorPolicy::oneshot()), Some(1), flags)
}

/// A pool is set up with what is asked for, whatever else is; only what is not asked for is the
/// default: workers are supervised for their whole life, four at a time, and ten seconds are waited.
pub proof fn law_pools_are_set_up_as_asked(
    policy: Option<SupervisorPolicy>,
    parallel: Option<usize>,
    wait: Option<u64>,
)
    ensures
        forall|p: SupervisorPolicy| (#[trigger] pool_policy(Some(p), parallel, wait)).supervisor_policy
            == p,
        forall|n: usize| (#[trigger] pool_policy(policy, Some(n), wait)).max_parallelism == n,
        forall|ms: u64|
            (#[trigger] pool_policy(policy, parallel, Some(ms))).request_wait_timeout_ms == ms,
        pool_policy(None, parallel, wait).supervisor_policy is PerWorker,
        pool_policy(policy, None, wait).max_parallelism == 4,
        pool_policy(policy, parallel, None).request_wait_timeout_ms == 10_000,
{
}

} // verus!
