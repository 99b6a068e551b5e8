//! The worker-pool configuration: environment variables are the base layer, command-line flags
//! override them and are taken out of the command line.

use vstd::prelude::*;

use crate::flags::{pool_policy, SupervisorPolicy, WorkerFlags, WorkerPoolPolicy};
use crate::paths::{lemma_views_push, views};
use crate::text::{
    cut_at, first_index, lemma_first_index, lemma_first_index_at, parse_unsigned, same,
    unsigned_number,
};

verus! {

/// The resolved configuration of the worker pool.
#[derive(Debug)]
pub struct FlowConfig {
    pub policy: Option<SupervisorPolicy>,
    pub max_parallelism: Option<usize>,
    pub request_wait_timeout_ms: Option<u64>,
    pub beforeunload_wall_clock_pct: Option<u8>,
    pub beforeunload_cpu_pct: Option<u8>,
    pub beforeunload_memory_pct: Option<u8>,
    /// The addresses named for the user-worker inspector, in the order of their precedence: the
    /// last one that is an address is in force.
    pub inspector_addresses: Vec<String>,
}

/// A [`FlowConfig`] with its texts taken by view.
pub struct ConfigView {
    pub policy: Option<SupervisorPolicy>,
    pub max_parallelism: Option<usize>,
    pub request_wait_timeout_ms: Option<u64>,
    pub beforeunload_wall_clock_pct: Option<u8>,
    pub beforeunload_cpu_pct: Option<u8>,
    pub beforeunload_memory_pct: Option<u8>,
    pub inspector_addresses: Seq<Seq<char>>,
}

impl View for FlowConfig {
    type V = ConfigView;

    open spec fn view(&self) -> ConfigView {
        ConfigView {
            policy: self.policy,
            max_parallelism: self.max_parallelism,
            request_wait_timeout_ms: self.request_wait_timeout_ms,
            beforeunload_wall_clock_pct: self.beforeunload_wall_clock_pct,
            beforeunload_cpu_pct: self.beforeunload_cpu_pct,
            beforeunload_memory_pct: self.beforeunload_memory_pct,
            inspector_addresses: views(self.inspector_addresses@),
        }
    }
}

/// A flag of this layer. Each takes exactly one value.
#[derive(Debug, Clone, Copy, PartialEq, Eq, Structural)]
pub enum FlowFlag {
    Policy,
    MaxParallelism,
    RequestWaitTimeout,
    BeforeunloadWallClock,
    BeforeunloadCpu,
    BeforeunloadMemory,
    UserWorkerInspect,
}

/// The flag that a command-line token names.
pub open spec fn flag_named(s: Seq<char>) -> Option<FlowFlag> {
    if s == "--policy"@ {
        Some(FlowFlag::Policy)
    } else if s == "--max-parallelism"@ {
        Some(FlowFlag::MaxParallelism)
    } else if s == "--request-wait-timeout"@ {
        Some(FlowFlag::RequestWaitTimeout)
    } else if s == "--dispatch-beforeunload-wall-clock-ratio"@ {
        Some(FlowFlag::BeforeunloadWallClock)
    } else if s == "--dispatch-beforeunload-cpu-ratio"@ {
        Some(FlowFlag::BeforeunloadCpu)
    } else if s == "--dispatch-beforeunload-memory-ratio"@ {
        Some(FlowFlag::BeforeunloadMemory)
    } else if s == "--user-worker-inspect"@ {
        Some(FlowFlag::UserWorkerInspect)
    } else {
        None
    }
}

/// The flag that `s` names.
pub fn flow_flag(s: &str) -> (r: Option<FlowFlag>)
    ensures
        r == flag_named(s@),
{
    if same(s, "--policy") {
        Some(FlowFlag::Policy)
    } else if same(s, "--max-parallelism") {
        Some(FlowFlag::MaxParallelism)
    } else if same(s, "--request-wait-timeout") {
        Some(FlowFlag::RequestWaitTimeout)
    } else if same(s, "--dispatch-beforeunload-wall-clock-ratio") {
        Some(FlowFlag::BeforeunloadWallClock)
    } else if same(s, "--dispatch-beforeunload-cpu-ratio") {
        Some(FlowFlag::BeforeunloadCpu)
    } else if same(s, "--dispatch-beforeunload-memory-ratio") {
        Some(FlowFlag::BeforeunloadMemory)
    } else if same(s, "--user-worker-inspect") {
        Some(FlowFlag::UserWorkerInspect)
    } else {
        None
    }
}

/// The supervisor policy that `s` names.
pub open spec fn policy_named(s: Seq<char>) -> Option<SupervisorPolicy> {
    if s == "per_worker"@ {
        Some(SupervisorPolicy::PerWorker)
    } else if s == "per_request"@ {
        Some(SupervisorPolicy::PerRequest { oneshot: false })
    } else if s == "oneshot"@ {
        Some(SupervisorPolicy::PerRequest { oneshot: true })
    } else {
        None
    }
}

/// The supervisor policy that `value` names.
pub fn parse_policy(value: &str) -> (r: Option<SupervisorPolicy>)
    ensures
        r == policy_named(value@),
{
    if same(value, "per_worker") {
        Some(SupervisorPolicy::PerWorker)
    } else if same(value, "per_request") {
        Some(SupervisorPolicy::PerRequest { oneshot: false })
    } else if same(value, "oneshot") {
        Some(SupervisorPolicy::PerRequest { oneshot: true })
    } else {
        None
    }
}

/// A ratio is a percentage below one hundred.
pub fn check_ratio(v: u8) -> (r: Option<u8>)
    ensures
        r == if v <= 99 {
            Some(v)
        } else {
            None
        },
{
    if v <= 99 {
        Some(v)
    } else {
        None
    }
}

/// The ratio that `s` writes.
pub open spec fn ratio_written(s: Seq<char>) -> Option<u8> {
    match unsigned_number(s, u8::MAX as int) {
        Some(n) => if n <= 99 {
            Some(n as u8)
        } else {
            None
        },
        None => None,
    }
}

/// The ratio that `value` writes, if it is one.
pub fn parse_ratio_or_warn(value: &str) -> (r: Option<u8>)
    ensures
        r == ratio_written(value@),
{
    match parse_unsigned(value, u8::MAX as u64) {
        Some(n) => check_ratio(n as u8),
        None => None,
    }
}

/// The number of workers that `s` writes.
pub open spec fn count_written(s: Seq<char>) -> Option<usize> {
    match unsigned_number(s, usize::MAX as int) {
        Some(n) => Some(n as usize),
        None => None,
    }
}

fn parse_count(value: &str) -> (r: Option<usize>)
    ensures
        r == count_written(value@),
{
    match parse_unsigned(value, usize::MAX as u64) {
        Some(n) => Some(n as usize),
        None => None,
    }
}

/// The number that `s` writes.
pub open spec fn number_written(s: Seq<char>) -> Option<u64> {
    match unsigned_number(s, u64::MAX as int) {
        Some(n) => Some(n as u64),
        None => None,
    }
}

/// The number that `value` writes, if it is one.
pub fn parse_number(value: &str) -> (r: Option<u64>)
    ensures
        r == number_written(value@),
{
    match parse_unsigned(value, u64::MAX) {
        Some(n) => Some(n),
        None => None,
    }
}

/// The first of two values that is there.
pub open spec fn or_else<T>(a: Option<T>, b: Option<T>) -> Option<T> {
    if a is Some {
        a
    } else {
        b
    }
}

/// A configuration once `flag` has been given `value`. A value that the flag does not accept is
/// skipped: what was set before still applies.
pub open spec fn applied(c: ConfigView, flag: FlowFlag, value: Seq<char>) -> ConfigView {
    match flag {
        FlowFlag::Policy => ConfigView { policy: or_else(policy_named(value), c.policy), ..c },
        FlowFlag::MaxParallelism => ConfigView {
            max_parallelism: or_else(count_written(value), c.max_parallelism),
            ..c
        },
        FlowFlag::RequestWaitTimeout => ConfigView {
            request_wait_timeout_ms: or_else(number_written(value), c.request_wait_timeout_ms),
            ..c
        },
        FlowFlag::BeforeunloadWallClock => ConfigView {
            beforeunload_wall_clock_pct: or_else(
                ratio_written(value),
                c.beforeunload_wall_clock_pct,
            ),
            ..c
        },
        FlowFlag::BeforeunloadCpu => ConfigView {
            beforeunload_cpu_pct: or_else(ratio_written(value), c.beforeunload_cpu_pct),
            ..c
        },
        FlowFlag::BeforeunloadMemory => ConfigView {
            beforeunload_memory_pct: or_else(ratio_written(value), c.beforeunload_memory_pct),
            ..c
        },
        FlowFlag::UserWorkerInspect => ConfigView {
            inspector_addresses: c.inspector_addresses.push(value),
            ..c
        },
    }
}

/// Whether a flag accepts a value, as far as that can be told here: whether a text is an address
/// is for the caller to say.
pub open spec fn accepts(flag: FlowFlag, value: Seq<char>) -> bool {
    match flag {
        FlowFlag::Policy => policy_named(value) is Some,
        FlowFlag::MaxParallelism => count_written(value) is Some,
        FlowFlag::RequestWaitTimeout => number_written(value) is Some,
        FlowFlag::BeforeunloadWallClock => ratio_written(value) is Some,
        FlowFlag::BeforeunloadCpu => ratio_written(value) is Some,
        FlowFlag::BeforeunloadMemory => ratio_written(value) is Some,
        FlowFlag::UserWorkerInspect => true,
    }
}

/// Why a value is reported and skipped.
#[derive(Debug, Clone, Copy, PartialEq, Eq, Structural)]
pub enum Rejection {
    /// It names no supervisor policy.
    NoPolicy,
    /// It does not parse.
    Invalid,
    /// It is a number, but no ratio.
    OutOfRange(u8),
}

/// Why a text that stands for a ratio is rejected.
pub open spec fn ratio_rejection(value: Seq<char>) -> Option<Rejection> {
    match unsigned_number(value, u8::MAX as int) {
        Some(n) => if n <= 99 {
            None
        } else {
            Some(Rejection::OutOfRange(n as u8))
        },
        None => Some(Rejection::Invalid),
    }
}

/// Why a flag rejects a value, where it does.
pub open spec fn rejection_of(flag: FlowFlag, value: Seq<char>) -> Option<Rejection> {
    match flag {
        FlowFlag::Policy => if policy_named(value) is Some {
            None
        } else {
            Some(Rejection::NoPolicy)
        },
        FlowFlag::MaxParallelism => if count_written(value) is Some {
            None
        } else {
            Some(Rejection::Invalid)
        },
        FlowFlag::RequestWaitTimeout => if number_written(value) is Some {
            None
        } else {
            Some(Rejection::Invalid)
        },
        FlowFlag::BeforeunloadWallClock => ratio_rejection(value),
        FlowFlag::BeforeunloadCpu => ratio_rejection(value),
        FlowFlag::BeforeunloadMemory => ratio_rejection(value),
        FlowFlag::UserWorkerInspect => None,
    }
}

fn reject_ratio(value: &str) -> (r: Option<Rejection>)
    ensures
        r == ratio_rejection(value@),
{
    match parse_unsigned(value, u8::MAX as u64) {
        Some(n) => if n <= 99 {
            None
        } else {
            Some(Rejection::OutOfRange(n as u8))
        },
        None => Some(Rejection::Invalid),
    }
}

/// Why `flag` rejects `value`, where it does.
pub fn rejection(flag: FlowFlag, value: &str) -> (r: Option<Rejection>)
    ensures
        r == rejection_of(flag, value@),
        r is None <==> accepts(flag, value@),
{
    match flag {
        FlowFlag::Policy => if parse_policy(value).is_some() {
            None
        } else {
            Some(Rejection::NoPolicy)
        },
        FlowFlag::MaxParallelism => if parse_count(value).is_some() {
            None
        } else {
            Some(Rejection::Invalid)
        },
        FlowFlag::RequestWaitTimeout => if parse_number(value).is_some() {
            None
        } else {
            Some(Rejection::Invalid)
        },
        FlowFlag::BeforeunloadWallClock => reject_ratio(value),
        FlowFlag::BeforeunloadCpu => reject_ratio(value),
        FlowFlag::BeforeunloadMemory => reject_ratio(value),
        FlowFlag::UserWorkerInspect => None,
    }
}

/// The environment variables of this layer, each where it is set to valid Unicode.
pub struct EnvVars {
    pub policy: Option<String>,
    pub max_parallelism: Option<String>,
    pub request_wait_timeout_ms: Option<String>,
    pub beforeunload_wall_clock_ratio: Option<String>,
    pub beforeunload_cpu_ratio: Option<String>,
    pub beforeunload_memory_ratio: Option<String>,
    pub inspector_address: Option<String>,
}

/// An environment variable as it is read: an empty one counts as unset.
pub open spec fn env_text(v: Option<String>) -> Option<Seq<char>> {
    match v {
        Some(s) => if s@.len() > 0 {
            Some(s@)
        } else {
            None
        },
        None => None,
    }
}

/// The value of an environment variable, if it is set and not empty.
pub fn env_var(v: &Option<String>) -> (r: Option<&str>)
    ensures
        match r {
            Some(s) => env_text(*v) == Some(s@),
            None => env_text(*v) is None,
        },
{
    match v {
        Some(s) => {
            if s.as_str().is_empty() {
                None
            } else {
                Some(s.as_str())
            }
        },
        None => None,
    }
}

/// A configuration with nothing set.
pub open spec fn empty_config() -> ConfigView {
    ConfigView {
        policy: None,
        max_parallelism: None,
        request_wait_timeout_ms: None,
        beforeunload_wall_clock_pct: None,
        beforeunload_cpu_pct: None,
        beforeunload_memory_pct: None,
        inspector_addresses: Seq::empty(),
    }
}

/// A configuration once a variable that feeds `flag` has been read.
pub open spec fn env_applied(c: ConfigView, flag: FlowFlag, v: Option<String>) -> ConfigView {
    match env_text(v) {
        Some(s) => applied(c, flag, s),
        None => c,
    }
}

/// The configuration that the environment gives.
pub open spec fn env_config(env: EnvVars) -> ConfigView {
    let c1 = env_applied(empty_config(), FlowFlag::Policy, env.policy);
    let c2 = env_applied(c1, FlowFlag::MaxParallelism, env.max_parallelism);
    let c3 = env_applied(c2, FlowFlag::RequestWaitTimeout, env.request_wait_timeout_ms);
    let c4 = env_applied(c3, FlowFlag::BeforeunloadWallClock, env.beforeunload_wall_clock_ratio);
    let c5 = env_applied(c4, FlowFlag::BeforeunloadCpu, env.beforeunload_cpu_ratio);
    let c6 = env_applied(c5, FlowFlag::BeforeunloadMemory, env.beforeunload_memory_ratio);
    env_applied(c6, FlowFlag::UserWorkerInspect, env.inspector_address)
}

/// A variable whose value is reported and skipped.
#[derive(Debug, Clone, Copy, PartialEq, Eq, Structural)]
pub struct RejectedVariable {
    /// The flag that it feeds.
    pub flag: FlowFlag,
    pub why: Rejection,
}

/// A list of rejected variables once the one that feeds `flag` has been read.
pub open spec fn env_noted(list: Seq<RejectedVariable>, flag: FlowFlag, v: Option<String>) -> Seq<
    RejectedVariable,
> {
    match env_text(v) {
        Some(s) => match rejection_of(flag, s) {
            Some(why) => list.push(RejectedVariable { flag, why }),
            None => list,
        },
        None => list,
    }
}

/// The variables whose values are rejected, in the order in which they are read.
pub open spec fn env_rejected(env: EnvVars) -> Seq<RejectedVariable> {
    let l1 = env_noted(Seq::empty(), FlowFlag::Policy, env.policy);
    let l2 = env_noted(l1, FlowFlag::MaxParallelism, env.max_parallelism);
    let l3 = env_noted(l2, FlowFlag::RequestWaitTimeout, env.request_wait_timeout_ms);
    let l4 = env_noted(l3, FlowFlag::BeforeunloadWallClock, env.beforeunload_wall_clock_ratio);
    let l5 = env_noted(l4, FlowFlag::BeforeunloadCpu, env.beforeunload_cpu_ratio);
    env_noted(l5, FlowFlag::BeforeunloadMemory, env.beforeunload_memory_ratio)
}

fn note_env(list: &mut Vec<RejectedVariable>, flag: FlowFlag, v: &Option<String>)
    ensures
        final(list)@ == env_noted(old(list)@, flag, *v),
{
    match env_var(v) {
        Some(s) => match rejection(flag, s) {
            Some(why) => {
                list.push(RejectedVariable { flag, why });
            },
            None => {},
        },
        None => {},
    }
}

/// The variables whose values are rejected, in the order in which they are read. Whether a text is
/// an address is for the caller to say, so the one for the inspector is never among them.
pub fn rejected_variables(env: &EnvVars) -> (r: Vec<RejectedVariable>)
    ensures
        r@ == env_rejected(*env),
{
    let mut list: Vec<RejectedVariable> = Vec::new();
    note_env(&mut list, FlowFlag::Policy, &env.policy);
    note_env(&mut list, FlowFlag::MaxParallelism, &env.max_parallelism);
    note_env(&mut list, FlowFlag::RequestWaitTimeout, &env.request_wait_timeout_ms);
    note_env(&mut list, FlowFlag::BeforeunloadWallClock, &env.beforeunload_wall_clock_ratio);
    note_env(&mut list, FlowFlag::BeforeunloadCpu, &env.beforeunload_cpu_ratio);
    note_env(&mut list, FlowFlag::BeforeunloadMemory, &env.beforeunload_memory_ratio);
    list
}

/// The ratio in an environment variable, if it holds one.
pub fn env_parse_ratio(v: &Option<String>) -> (r: Option<u8>)
    ensures
        r == match env_text(*v) {
            Some(s) => ratio_written(s),
            None => None,
        },
{
    match env_var(v) {
        Some(s) => parse_ratio_or_warn(s),
        None => None,
    }
}

/// The ASCII letter `c` in lower case.
pub open spec fn ascii_lower(c: char) -> char {
    if 'A' <= c && c <= 'Z' {
        ((c as u32 + 32) as u8) as char
    } else {
        c
    }
}

/// Whether a text means yes, whatever the case of its letters.
pub open spec fn means_yes(s: Seq<char>) -> bool {
    let t = s.map_values(|c: char| ascii_lower(c));
    t == "1"@ || t == "true"@ || t == "yes"@ || t == "on"@
}

/// The switch in an environment variable, where it is set: on for `1`, `true`, `yes` and `on`, off
/// for everything else.
pub fn env_bool(v: &Option<String>) -> (r: Option<bool>)
    ensures
        r == match env_text(*v) {
            Some(s) => Some(means_yes(s)),
            None => None,
        },
{
    match env_var(v) {
        Some(s) => {
            let lower = lowercase(s);
            let t = lower.as_str();
            Some(same(t, "1") || same(t, "true") || same(t, "yes") || same(t, "on"))
        },
        None => None,
    }
}

/// `s` with its ASCII letters in lower case.
fn lowercase(s: &str) -> (r: String)
    ensures
        r@ == s@.map_values(|c: char| ascii_lower(c)),
{
    let v = crate::text::chars_of(s);
    let mut out = String::new();
    let mut i: usize = 0;
    let ghost f = |c: char| ascii_lower(c);
    while i < v.len()
        invariant
            v@ == s@,
            i <= v@.len(),
            f == (|c: char| ascii_lower(c)),
            out@ == s@.take(i as int).map_values(f),
        decreases v@.len() - i,
    {
        let c = v[i];
        let d = if 'A' <= c && c <= 'Z' {
            ((c as u32 + 32) as u8) as char
        } else {
            c
        };
        out.push(d);
        assert(s@.take(i + 1) =~= s@.take(i as int).push(c));
        assert(s@.take(i + 1).map_values(f) =~= s@.take(i as int).map_values(f).push(f(c)));
        i = i + 1;
    }
    assert(s@.take(i as int) =~= s@);
    out
}

impl FlowConfig {
    /// A configuration with nothing set.
    pub fn new() -> (r: FlowConfig)
        ensures
            r@ == empty_config(),
    {
        let r = FlowConfig {
            policy: None,
            max_parallelism: None,
            request_wait_timeout_ms: None,
            beforeunload_wall_clock_pct: None,
            beforeunload_cpu_pct: None,
            beforeunload_memory_pct: None,
            inspector_addresses: Vec::new(),
        };
        assert(r@.inspector_addresses =~= Seq::<Seq<char>>::empty());
        r
    }

    /// Applies one flag and its value. The result says whether the flag accepted the value; one
    /// that it does not accept is skipped.
    pub fn apply(&mut self, flag: FlowFlag, value: &str) -> (r: bool)
        ensures
            final(self)@ == applied(old(self)@, flag, value@),
            r == accepts(flag, value@),
    {
        match flag {
            FlowFlag::Policy => match parse_policy(value) {
                Some(p) => {
                    self.policy = Some(p);
                    true
                },
                None => false,
            },
            FlowFlag::MaxParallelism => match parse_count(value) {
                Some(n) => {
                    self.max_parallelism = Some(n);
                    true
                },
                None => false,
            },
            FlowFlag::RequestWaitTimeout => match parse_number(value) {
                Some(n) => {
                    self.request_wait_timeout_ms = Some(n);
                    true
                },
                None => false,
            },
            FlowFlag::BeforeunloadWallClock => match parse_ratio_or_warn(value) {
                Some(n) => {
                    self.beforeunload_wall_clock_pct = Some(n);
                    true
                },
                None => false,
            },
            FlowFlag::BeforeunloadCpu => match parse_ratio_or_warn(value) {
                Some(n) => {
                    self.beforeunload_cpu_pct = Some(n);
                    true
                },
                None => false,
            },
            FlowFlag::BeforeunloadMemory => match parse_ratio_or_warn(value) {
                Some(n) => {
                    self.beforeunload_memory_pct = Some(n);
                    true
                },
                None => false,
            },
            FlowFlag::UserWorkerInspect => {
                let s = value.to_owned();
                proof {
                    lemma_views_push(self.inspector_addresses@, s);
                }
                self.inspector_addresses.push(s);
                true
            },
        }
    }

    /// Applies the variable that feeds `flag`, where it is set.
    fn apply_env(&mut self, flag: FlowFlag, v: &Option<String>)
        ensures
            final(self)@ == env_applied(old(self)@, flag, *v),
    {
        match env_var(v) {
            Some(s) => {
                let _ = self.apply(flag, s);
            },
            None => {},
        }
    }

    /// The configuration that the environment gives.
    pub fn from_env(env: &EnvVars) -> (r: FlowConfig)
        ensures
            r@ == env_config(*env),
    {
        let mut c = FlowConfig::new();
        c.apply_env(FlowFlag::Policy, &env.policy);
        c.apply_env(FlowFlag::MaxParallelism, &env.max_parallelism);
        c.apply_env(FlowFlag::RequestWaitTimeout, &env.request_wait_timeout_ms);
        c.apply_env(FlowFlag::BeforeunloadWallClock, &env.beforeunload_wall_clock_ratio);
        c.apply_env(FlowFlag::BeforeunloadCpu, &env.beforeunload_cpu_ratio);
        c.apply_env(FlowFlag::BeforeunloadMemory, &env.beforeunload_memory_ratio);
        c.apply_env(FlowFlag::UserWorkerInspect, &env.inspector_address);
        c
    }

    /// The pool settings and the worker flags of this configuration.
    pub fn to_pool_config(&self) -> (r: (WorkerPoolPolicy, WorkerFlags))
        ensures
            r.1 == (WorkerFlags {
                request_wait_timeout_ms: self.request_wait_timeout_ms,
                beforeunload_wall_clock_pct: self.beforeunload_wall_clock_pct,
                beforeunload_cpu_pct: self.beforeunload_cpu_pct,
                beforeunload_memory_pct: self.beforeunload_memory_pct,
                restrict_host_fs: false,
            }),
            r.0 == pool_policy(self.policy, self.max_parallelism, self.request_wait_timeout_ms),
    {
        let flags = WorkerFlags {
            request_wait_timeout_ms: self.request_wait_timeout_ms,
            beforeunload_wall_clock_pct: self.beforeunload_wall_clock_pct,
            beforeunload_cpu_pct: self.beforeunload_cpu_pct,
            beforeunload_memory_pct: self.beforeunload_memory_pct,
            restrict_host_fs: false,
        };
        (WorkerPoolPolicy::new(self.policy, self.max_parallelism, flags), flags)
    }
}

// ---------------------------------------------------------------------------
// Settings of the runtime
// ---------------------------------------------------------------------------

/// The environment variables that the runtime itself reads, each where it is set to valid Unicode.
pub struct RuntimeEnv {
    pub no_deprecation_warnings: Option<String>,
    pub verbose_warnings: Option<String>,
    pub include_malloced_memory: Option<String>,
    pub max_heap_size_mib: Option<String>,
}

/// The settings that they make. What is not set stays as it is.
#[derive(Debug, Clone, Copy, PartialEq, Eq, Structural)]
pub struct RuntimeCells {
    pub disable_deprecated_api_warning: Option<bool>,
    pub verbose_deprecated_api_warning: Option<bool>,
    /// Whether memory that was allocated outside the heap counts against the limit.
    pub include_malloced_memory: Option<bool>,
    /// The memory limit of a worker for which none is asked for, in mebibytes.
    pub default_memory_limit_mib: Option<u64>,
}

/// The switch that a variable sets.
pub open spec fn env_switch(v: Option<String>) -> Option<bool> {
    match env_text(v) {
        Some(s) => Some(means_yes(s)),
        None => None,
    }
}

/// The settings that the environment makes. A limit that is no number is ignored.
pub fn resolve_runtime_env_cells(env: &RuntimeEnv) -> (r: RuntimeCells)
    ensures
        r == (RuntimeCells {
            disable_deprecated_api_warning: env_switch(env.no_deprecation_warnings),
            verbose_deprecated_api_warning: env_switch(env.verbose_warnings),
            include_malloced_memory: env_switch(env.include_malloced_memory),
            default_memory_limit_mib: match env_text(env.max_heap_size_mib) {
                Some(s) => number_written(s),
                None => None,
            },
        }),
{
    RuntimeCells {
        disable_deprecated_api_warning: env_bool(&env.no_deprecation_warnings),
        verbose_deprecated_api_warning: env_bool(&env.verbose_warnings),
        include_malloced_memory: env_bool(&env.include_malloced_memory),
        default_memory_limit_mib: match env_var(&env.max_heap_size_mib) {
            Some(s) => parse_number(s),
            None => None,
        },
    }
}

/// Whether the memory limit in the environment is reported and skipped: it is set, and no number.
pub fn rejects_heap_limit(env: &RuntimeEnv) -> (r: bool)
    ensures
        r == match env_text(env.max_heap_size_mib) {
            Some(s) => number_written(s) is None,
            None => false,
        },
{
    match env_var(&env.max_heap_size_mib) {
        Some(s) => parse_number(s).is_none(),
        None => false,
    }
}

// ---------------------------------------------------------------------------
// The command line
// ---------------------------------------------------------------------------

/// What is wrong with a flag on the command line.
#[derive(Debug)]
pub enum Complaint {
    /// The flag at this position was given a value that it does not accept.
    Rejected { at: usize },
    /// The value of the flag at this position is not Unicode.
    NotUnicode { at: usize },
    /// The flag at this position is the last argument and has no value.
    Missing { at: usize },
}

/// An argument, taken by view. `None` is one that is not Unicode.
pub open spec fn arg_view(a: Option<String>) -> Option<Seq<char>> {
    match a {
        Some(s) => Some(s@),
        None => None,
    }
}

pub open spec fn arg_views(args: Seq<Option<String>>) -> Seq<Option<Seq<char>>> {
    args.map_values(|a: Option<String>| arg_view(a))
}

/// What one argument is, as long as the terminator has not been seen.
pub enum Token {
    /// The bare `--`, after which everything is a script argument.
    Terminator,
    /// A flag with its value in the same argument.
    Joined { flag: FlowFlag, value: Seq<char> },
    /// A flag whose value is the next argument.
    Spaced { flag: FlowFlag },
    /// None of this layer's business.
    Foreign,
}

/// The flag and the value of an argument of the form `flag=value`.
pub open spec fn joined_flag(s: Seq<char>) -> Option<(FlowFlag, Seq<char>)> {
    match first_index(s, '=') {
        Some(i) => match flag_named(s.take(i)) {
            Some(f) => Some((f, s.skip(i + 1))),
            None => None,
        },
        None => None,
    }
}

pub open spec fn token(a: Option<Seq<char>>) -> Token {
    match a {
        None => Token::Foreign,
        Some(s) => if s == "--"@ {
            Token::Terminator
        } else if joined_flag(s) is Some {
            Token::Joined { flag: (joined_flag(s)->0).0, value: (joined_flag(s)->0).1 }
        } else if flag_named(s) is Some {
            Token::Spaced { flag: flag_named(s)->0 }
        } else {
            Token::Foreign
        },
    }
}

/// What scanning a command line gives: the configuration, the positions of the arguments that
/// stay, and the complaints.
pub struct Scan {
    pub config: ConfigView,
    pub kept: Seq<int>,
    pub complaints: Seq<Complaint>,
}

pub open spec fn complain(cs: Seq<Complaint>, ok: bool, at: int) -> Seq<Complaint> {
    if ok {
        cs
    } else {
        cs.push(Complaint::Rejected { at: at as usize })
    }
}

/// Scans the arguments from position `i` on.
pub open spec fn scan(args: Seq<Option<Seq<char>>>, i: int, passthrough: bool, s: Scan) -> Scan
    decreases args.len() - i,
{
    if i < 0 || i >= args.len() {
        s
    } else if passthrough {
        scan(args, i + 1, true, Scan { kept: s.kept.push(i), ..s })
    } else {
        match token(args[i]) {
            Token::Terminator => scan(args, i + 1, true, Scan { kept: s.kept.push(i), ..s }),
            Token::Foreign => scan(args, i + 1, false, Scan { kept: s.kept.push(i), ..s }),
            Token::Joined { flag, value } => scan(
                args,
                i + 1,
                false,
                Scan {
                    config: applied(s.config, flag, value),
                    complaints: complain(s.complaints, accepts(flag, value), i),
                    ..s
                },
            ),
            Token::Spaced { flag } => if i + 1 >= args.len() {
                Scan { complaints: s.complaints.push(Complaint::Missing { at: i as usize }), ..s }
            } else {
                match args[i + 1] {
                    Some(value) => scan(
                        args,
                        i + 2,
                        false,
                        Scan {
                            config: applied(s.config, flag, value),
                            complaints: complain(s.complaints, accepts(flag, value), i),
                            ..s
                        },
                    ),
                    None => scan(
                        args,
                        i + 2,
                        false,
                        Scan {
                            complaints: s.complaints.push(
                                Complaint::NotUnicode { at: i as usize },
                            ),
                            ..s
                        },
                    ),
                }
            },
        }
    }
}

/// What a whole command line gives on top of the environment's configuration. The program name
/// always stays.
pub open spec fn resolved(args: Seq<Option<Seq<char>>>, base: ConfigView) -> Scan {
    if args.len() == 0 {
        Scan { config: base, kept: Seq::empty(), complaints: Seq::empty() }
    } else {
        scan(args, 1, false, Scan { config: base, kept: seq![0int], complaints: Seq::empty() })
    }
}

/// Positions, as mathematical integers.
pub open spec fn positions(v: Seq<usize>) -> Seq<int> {
    v.map_values(|i: usize| i as int)
}

/// The result of taking this layer's flags out of a command line.
pub struct Resolved {
    pub config: FlowConfig,
    /// The positions of the arguments that stay, in order.
    pub kept: Vec<usize>,
    pub complaints: Vec<Complaint>,
}

/// Takes this layer's flags out of a command line and resolves the configuration: the environment
/// is the base layer, and the flags override it. Flags are only taken up to a bare `--`. An
/// argument that is not Unicode is `None`.
pub fn strip_and_resolve(args: &Vec<Option<String>>, env: &EnvVars) -> (r: Resolved)
    ensures
        ({
            let s = resolved(arg_views(args@), env_config(*env));
            &&& r.config@ == s.config
            &&& positions(r.kept@) == s.kept
            &&& r.complaints@ == s.complaints
        }),
{
    let mut config = FlowConfig::from_env(env);
    let mut kept: Vec<usize> = Vec::new();
    let mut complaints: Vec<Complaint> = Vec::new();
    let ghost av = arg_views(args@);
    let ghost base = env_config(*env);
    let n: usize = args.len();
    if n == 0 {
        assert(positions(kept@) =~= Seq::<int>::empty());
        return Resolved { config, kept, complaints };
    }
    kept.push(0);
    assert(positions(kept@) =~= seq![0int]);
    let ghost total = resolved(av, base);
    let mut i: usize = 1;
    let mut passthrough = false;
    while i < n
        invariant
            n == args@.len(),
            av == arg_views(args@),
            total == resolved(arg_views(args@), env_config(*env)),
            1 <= i,
            scan(
                av,
                i as int,
                passthrough,
                Scan { config: config@, kept: positions(kept@), complaints: complaints@ },
            ) == total,
        decreases n - i,
    {
        let ghost before = kept@;
        assert(av[i as int] == arg_view(args@[i as int]));
        assert(positions(before.push(i)) =~= positions(before).push(i as int));
        if passthrough {
            kept.push(i);
            i = i + 1;
            continue ;
        }
        match &args[i] {
            None => {
                kept.push(i);
                i = i + 1;
            },
            Some(s) => {
                let s = s.as_str();
                if same(s, "--") {
                    passthrough = true;
                    kept.push(i);
                    i = i + 1;
                    continue ;
                }
                match cut_at(s, '=') {
                    Some((name, value)) => {
                        match flow_flag(name.as_str()) {
                            Some(flag) => {
                                if !config.apply(flag, value.as_str()) {
                                    complaints.push(Complaint::Rejected { at: i });
                                }
                                i = i + 1;
                                continue ;
                            },
                            None => {},
                        }
                    },
                    None => {},
                }
                match flow_flag(s) {
                    Some(flag) => {
                        if i + 1 >= n {
                            complaints.push(Complaint::Missing { at: i });
                            return Resolved { config, kept, complaints };
                        }
                        assert(av[i + 1] == arg_view(args@[i + 1]));
                        match &args[i + 1] {
                            Some(value) => {
                                if !config.apply(flag, value.as_str()) {
                                    complaints.push(Complaint::Rejected { at: i });
                                }
                            },
                            None => {
                                complaints.push(Complaint::NotUnicode { at: i });
                            },
                        }
                        i = i + 2;
                    },
                    None => {
                        kept.push(i);
                        i = i + 1;
                    },
                }
            },
        }
    }
    Resolved { config, kept, complaints }
}

// ---------------------------------------------------------------------------
// Laws
// ---------------------------------------------------------------------------

/// A value that is skipped is reported, with a reason, and no other is.
pub proof fn law_skipped_values_are_reported(flag: FlowFlag, value: Seq<char>)
    ensures
        rejection_of(flag, value) is Some <==> !accepts(flag, value),
{
}

/// Positions in ascending order, all below `end`.
pub open spec fn ascending(v: Seq<int>, end: int) -> bool {
    &&& forall|i: int, j: int| 0 <= i < j < v.len() ==> #[trigger] v[i] < #[trigger] v[j]
    &&& forall|i: int| 0 <= i < v.len() ==> 0 <= #[trigger] v[i] < end
}

proof fn lemma_scan_kept(args: Seq<Option<Seq<char>>>, i: int, passthrough: bool, s: Scan)
    requires
        0 <= i <= args.len(),
        ascending(s.kept, i),
    ensures
        ascending(scan(args, i, passthrough, s).kept, args.len() as int),
        s.kept.is_prefix_of(scan(args, i, passthrough, s).kept),
        passthrough ==> scan(args, i, passthrough, s).kept == s.kept + Seq::new(
            (args.len() - i) as nat,
            |k: int| i + k,
        ),
        passthrough ==> scan(args, i, passthrough, s).config == s.config,
    decreases args.len() - i,
{
    if i < args.len() {
        let t = Scan { kept: s.kept.push(i), ..s };
        if passthrough {
            lemma_scan_kept(args, i + 1, true, t);
            assert(scan(args, i, true, s).kept =~= s.kept + Seq::new(
                (args.len() - i) as nat,
                |k: int| i + k,
            ));
            assert(s.kept.is_prefix_of(t.kept));
        } else {
            match token(args[i]) {
                Token::Terminator => {
                    lemma_scan_kept(args, i + 1, true, t);
                    assert(s.kept =~= t.kept.take(s.kept.len() as int));
                },
                Token::Foreign => {
                    lemma_scan_kept(args, i + 1, false, t);
                    assert(s.kept =~= t.kept.take(s.kept.len() as int));
                },
                Token::Joined { flag, value } => {
                    lemma_scan_kept(
                        args,
                        i + 1,
                        false,
                        Scan {
                            config: applied(s.config, flag, value),
                            complaints: complain(s.complaints, accepts(flag, value), i),
                            ..s
                        },
                    );
                },
                Token::Spaced { flag } => {
                    if i + 1 < args.len() {
                        match args[i + 1] {
                            Some(value) => lemma_scan_kept(
                                args,
                                i + 2,
                                false,
                                Scan {
                                    config: applied(s.config, flag, value),
                                    complaints: complain(s.complaints, accepts(flag, value), i),
                                    ..s
                                },
                            ),
                            None => lemma_scan_kept(
                                args,
                                i + 2,
                                false,
                                Scan {
                                    complaints: s.complaints.push(
                                        Complaint::NotUnicode { at: i as usize },
                                    ),
                                    ..s
                                },
                            ),
                        }
                    } else {
                        assert(s.kept =~= s.kept.take(s.kept.len() as int));
                    }
                },
            }
        }
    } else {
        assert(s.kept =~= s.kept.take(s.kept.len() as int));
        assert(s.kept + Seq::new((args.len() - i) as nat, |k: int| i + k) =~= s.kept);
    }
}

/// The arguments that stay keep their order, and the program name is the first of them.
pub proof fn law_kept_arguments_keep_their_order(args: Seq<Option<Seq<char>>>, base: ConfigView)
    requires
        args.len() > 0,
    ensures
        ascending(resolved(args, base).kept, args.len() as int),
        resolved(args, base).kept.len() > 0,
        resolved(args, base).kept[0] == 0,
{
    let s = Scan { config: base, kept: seq![0int], complaints: Seq::<Complaint>::empty() };
    lemma_scan_kept(args, 1, false, s);
    let k = resolved(args, base).kept;
    assert(s.kept =~= k.take(1));
    assert(k[0] == k.take(1)[0]);
}

/// Whether the argument at a kept position is one that is kept on its own account, or a script
/// argument behind a kept terminator.
pub open spec fn rightly_kept(args: Seq<Option<Seq<char>>>, kept: Seq<int>, k: int) -> bool {
    ||| token(args[kept[k]]) is Foreign
    ||| token(args[kept[k]]) is Terminator
    ||| exists|j: int| 1 <= j < k && token(args[#[trigger] kept[j]]) is Terminator
}

proof fn lemma_scan_rightly_kept(
    args: Seq<Option<Seq<char>>>,
    i: int,
    passthrough: bool,
    s: Scan,
)
    requires
        0 <= i,
        s.kept.len() > 0,
        forall|k: int| 1 <= k < s.kept.len() ==> #[trigger] rightly_kept(args, s.kept, k),
        passthrough ==> exists|j: int|
            1 <= j < s.kept.len() && token(args[#[trigger] s.kept[j]]) is Terminator,
    ensures
        ({
            let r = scan(args, i, passthrough, s).kept;
            forall|k: int| 1 <= k < r.len() ==> #[trigger] rightly_kept(args, r, k)
        }),
    decreases args.len() - i,
{
    if i < args.len() {
        let t = Scan { kept: s.kept.push(i), ..s };
        let keeps = passthrough || token(args[i]) is Terminator || token(args[i]) is Foreign;
        if keeps {
            assert forall|k: int| 1 <= k < t.kept.len() implies #[trigger] rightly_kept(
                args,
                t.kept,
                k,
            ) by {
                if k < s.kept.len() {
                    assert(rightly_kept(args, s.kept, k));
                    if !(token(args[s.kept[k]]) is Foreign || token(args[s.kept[k]]) is Terminator) {
                        let j = choose|j: int|
                            1 <= j < k && token(args[#[trigger] s.kept[j]]) is Terminator;
                        assert(t.kept[j] == s.kept[j]);
                    }
                } else if passthrough {
                    let j = choose|j: int|
                        1 <= j < s.kept.len() && token(args[#[trigger] s.kept[j]]) is Terminator;
                    assert(t.kept[j] == s.kept[j]);
                }
            }
            let p = passthrough || token(args[i]) is Terminator;
            if passthrough {
                let j = choose|j: int|
                    1 <= j < s.kept.len() && token(args[#[trigger] s.kept[j]]) is Terminator;
                assert(t.kept[j] == s.kept[j]);
            } else if p {
                assert(token(args[t.kept[s.kept.len() as int]]) is Terminator);
            }
            lemma_scan_rightly_kept(args, i + 1, p, t);
        } else {
            match token(args[i]) {
                Token::Joined { flag, value } => {
                    lemma_scan_rightly_kept(
                        args,
                        i + 1,
                        false,
                        Scan {
                            config: applied(s.config, flag, value),
                            complaints: complain(s.complaints, accepts(flag, value), i),
                            ..s
                        },
                    );
                },
                Token::Spaced { flag } => {
                    if i + 1 < args.len() {
                        match args[i + 1] {
                            Some(value) => lemma_scan_rightly_kept(
                                args,
                                i + 2,
                                false,
                                Scan {
                                    config: applied(s.config, flag, value),
                                    complaints: complain(s.complaints, accepts(flag, value), i),
                                    ..s
                                },
                            ),
                            None => lemma_scan_rightly_kept(
                                args,
                                i + 2,
                                false,
                                Scan {
                                    complaints: s.complaints.push(
                                        Complaint::NotUnicode { at: i as usize },
                                    ),
                                    ..s
                                },
                            ),
                        }
                    }
                },
                _ => {},
            }
        }
    }
}

/// No flag of this layer is left in front of a bare `--`: whatever stays, past the program name,
/// is foreign, the terminator, or stands behind it.
pub proof fn law_own_flags_are_taken_out(args: Seq<Option<Seq<char>>>, base: ConfigView)
    requires
        args.len() > 0,
    ensures
        forall|k: int|
            1 <= k < resolved(args, base).kept.len() ==> #[trigger] rightly_kept(
                args,
                resolved(args, base).kept,
                k,
            ),
{
    lemma_scan_rightly_kept(
        args,
        1,
        false,
        Scan { config: base, kept: seq![0int], complaints: Seq::<Complaint>::empty() },
    );
}

/// A command line without this layer's flags stays whole and changes nothing.
pub proof fn law_foreign_command_line_is_untouched(args: Seq<Option<Seq<char>>>, base: ConfigView)
    requires
        forall|i: int| 1 <= i < args.len() ==> token(#[trigger] args[i]) is Foreign,
    ensures
        resolved(args, base).kept == Seq::new(args.len(), |i: int| i),
        resolved(args, base).config == base,
        resolved(args, base).complaints.len() == 0,
{
    if args.len() > 0 {
        let s = Scan { config: base, kept: seq![0int], complaints: Seq::<Complaint>::empty() };
        lemma_scan_foreign(args, 1, s);
        assert(seq![0int] + Seq::new((args.len() - 1) as nat, |k: int| 1 + k) =~= Seq::new(
            args.len(),
            |i: int| i,
        ));
    } else {
        assert(resolved(args, base).kept =~= Seq::new(args.len(), |i: int| i));
    }
}

proof fn lemma_scan_foreign(args: Seq<Option<Seq<char>>>, i: int, s: Scan)
    requires
        0 <= i <= args.len(),
        forall|j: int| i <= j < args.len() ==> token(#[trigger] args[j]) is Foreign,
    ensures
        scan(args, i, false, s) == (Scan {
            kept: s.kept + Seq::new((args.len() - i) as nat, |k: int| i + k),
            ..s
        }),
    decreases args.len() - i,
{
    if i < args.len() {
        let t = Scan { kept: s.kept.push(i), ..s };
        lemma_scan_foreign(args, i + 1, t);
        assert(t.kept + Seq::new((args.len() - (i + 1)) as nat, |k: int| i + 1 + k) =~= s.kept
            + Seq::new((args.len() - i) as nat, |k: int| i + k));
    } else {
        assert(s.kept + Seq::new((args.len() - i) as nat, |k: int| i + k) =~= s.kept);
    }
}

/// From a bare `--` that follows foreign arguments on, everything stays, flags of this layer
/// included, and nothing is configured.
pub proof fn law_script_arguments_stay(args: Seq<Option<Seq<char>>>, base: ConfigView, at: int)
    requires
        1 <= at < args.len(),
        args[at] == Some("--"@),
        forall|i: int| 1 <= i < at ==> token(#[trigger] args[i]) is Foreign,
    ensures
        resolved(args, base).kept == Seq::new(args.len(), |i: int| i),
        resolved(args, base).config == base,
{
    let s = Scan { config: base, kept: seq![0int], complaints: Seq::<Complaint>::empty() };
    lemma_scan_until_terminator(args, 1, at, s);
    assert(seq![0int] + Seq::new((args.len() - 1) as nat, |k: int| 1 + k) =~= Seq::new(
        args.len(),
        |i: int| i,
    ));
}

proof fn lemma_scan_until_terminator(args: Seq<Option<Seq<char>>>, i: int, at: int, s: Scan)
    requires
        1 <= i <= at < args.len(),
        args[at] == Some("--"@),
        ascending(s.kept, i),
        forall|j: int| i <= j < at ==> token(#[trigger] args[j]) is Foreign,
    ensures
        scan(args, i, false, s).kept == s.kept + Seq::new(
            (args.len() - i) as nat,
            |k: int| i + k,
        ),
        scan(args, i, false, s).config == s.config,
    decreases at - i,
{
    let t = Scan { kept: s.kept.push(i), ..s };
    if i < at {
        lemma_scan_until_terminator(args, i + 1, at, t);
    } else {
        lemma_scan_kept(args, i + 1, true, t);
    }
    assert(t.kept + Seq::new((args.len() - (i + 1)) as nat, |k: int| i + 1 + k) =~= s.kept
        + Seq::new((args.len() - i) as nat, |k: int| i + k));
}

/// A value that a flag does not accept leaves the configuration as it was.
pub proof fn law_rejected_values_change_nothing(c: ConfigView, flag: FlowFlag, value: Seq<char>)
    requires
        !accepts(flag, value),
    ensures
        applied(c, flag, value) == c,
{
}

/// A value that a flag accepts is in force once the flag has been applied, whatever was in force
/// before, and touches nothing else. A value that it does not accept changes nothing.
pub proof fn law_accepted_value_is_in_force(c: ConfigView, flag: FlowFlag, value: Seq<char>)
    ensures
        ({
            let r = applied(c, flag, value);
            &&& flag == FlowFlag::Policy ==> {
                &&& value == "per_worker"@ ==> r.policy == Some(SupervisorPolicy::PerWorker)
                &&& value == "per_request"@ ==> r.policy == Some(
                    SupervisorPolicy::PerRequest { oneshot: false },
                )
                &&& value == "oneshot"@ ==> r.policy == Some(
                    SupervisorPolicy::PerRequest { oneshot: true },
                )
                &&& value != "per_worker"@ && value != "per_request"@ && value != "oneshot"@
                    ==> r.policy == c.policy
            }
            &&& flag == FlowFlag::MaxParallelism ==> match unsigned_number(
                value,
                usize::MAX as int,
            ) {
                Some(n) => r.max_parallelism == Some(n as usize),
                None => r.max_parallelism == c.max_parallelism,
            }
            &&& flag == FlowFlag::RequestWaitTimeout ==> match unsigned_number(
                value,
                u64::MAX as int,
            ) {
                Some(n) => r.request_wait_timeout_ms == Some(n as u64),
                None => r.request_wait_timeout_ms == c.request_wait_timeout_ms,
            }
            &&& flag == FlowFlag::BeforeunloadWallClock ==> match unsigned_number(value, 99) {
                Some(n) => r.beforeunload_wall_clock_pct == Some(n as u8),
                None => r.beforeunload_wall_clock_pct == c.beforeunload_wall_clock_pct,
            }
            &&& flag == FlowFlag::BeforeunloadCpu ==> match unsigned_number(value, 99) {
                Some(n) => r.beforeunload_cpu_pct == Some(n as u8),
                None => r.beforeunload_cpu_pct == c.beforeunload_cpu_pct,
            }
            &&& flag == FlowFlag::BeforeunloadMemory ==> match unsigned_number(value, 99) {
                Some(n) => r.beforeunload_memory_pct == Some(n as u8),
                None => r.beforeunload_memory_pct == c.beforeunload_memory_pct,
            }
            &&& flag == FlowFlag::UserWorkerInspect ==> r.inspector_addresses
                == c.inspector_addresses + seq![value]
            &&& flag != FlowFlag::Policy ==> r.policy == c.policy
            &&& flag != FlowFlag::MaxParallelism ==> r.max_parallelism == c.max_parallelism
            &&& flag != FlowFlag::RequestWaitTimeout ==> r.request_wait_timeout_ms
                == c.request_wait_timeout_ms
            &&& flag != FlowFlag::BeforeunloadWallClock ==> r.beforeunload_wall_clock_pct
                == c.beforeunload_wall_clock_pct
            &&& flag != FlowFlag::BeforeunloadCpu ==> r.beforeunload_cpu_pct
                == c.beforeunload_cpu_pct
            &&& flag != FlowFlag::BeforeunloadMemory ==> r.beforeunload_memory_pct
                == c.beforeunload_memory_pct
            &&& flag != FlowFlag::UserWorkerInspect ==> r.inspector_addresses
                == c.inspector_addresses
        }),
{
    lemma_policies_differ();
    assert(applied(c, FlowFlag::UserWorkerInspect, value).inspector_addresses
        =~= c.inspector_addresses + seq![value]);
}

proof fn lemma_policies_differ()
    ensures
        "per_worker"@ != "per_request"@,
        "per_worker"@ != "oneshot"@,
        "per_request"@ != "oneshot"@,
{
    reveal_strlit("per_worker");
    reveal_strlit("per_request");
    reveal_strlit("oneshot");
    assert("per_worker"@.len() == 10);
    assert("per_request"@.len() == 11);
    assert("oneshot"@.len() == 7);
}

/// A flag accepts exactly the values that it takes over: the three policies, numbers that fit, and
/// ratios below one hundred; an address is taken over as it is.
pub proof fn law_flags_accept_what_fits(flag: FlowFlag, value: Seq<char>)
    ensures
        flag == FlowFlag::Policy ==> (accepts(flag, value) <==> value == "per_worker"@ || value
            == "per_request"@ || value == "oneshot"@),
        flag == FlowFlag::MaxParallelism ==> (accepts(flag, value) <==> unsigned_number(
            value,
            usize::MAX as int,
        ) is Some),
        flag == FlowFlag::RequestWaitTimeout ==> (accepts(flag, value) <==> unsigned_number(
            value,
            u64::MAX as int,
        ) is Some),
        flag == FlowFlag::BeforeunloadWallClock || flag == FlowFlag::BeforeunloadCpu || flag
            == FlowFlag::BeforeunloadMemory ==> (accepts(flag, value) <==> unsigned_number(
            value,
            99,
        ) is Some),
        flag == FlowFlag::UserWorkerInspect ==> accepts(flag, value),
{
    lemma_policies_differ();
}

/// A ratio that is reported as out of range is a number of at least one hundred; everything else
/// that is no ratio is reported as invalid.
pub proof fn law_ratios_are_told_apart(flag: FlowFlag, value: Seq<char>)
    requires
        flag == FlowFlag::BeforeunloadWallClock || flag == FlowFlag::BeforeunloadCpu || flag
            == FlowFlag::BeforeunloadMemory,
    ensures
        match rejection_of(flag, value) {
            Some(Rejection::OutOfRange(n)) => n >= 100 && unsigned_number(value, 255) == Some(
                n as int,
            ),
            Some(Rejection::Invalid) => unsigned_number(value, 255) is None,
            Some(Rejection::NoPolicy) => false,
            None => unsigned_number(value, 99) is Some,
        },
{
}

/// Each variable of the environment sets its own setting, as the flag that it feeds would. An empty
/// one, and one whose value does not fit, sets nothing.
pub proof fn law_variables_set_their_own_settings(env: EnvVars)
    ensures
        ({
            let r = env_config(env);
            &&& r.policy == match env.policy {
                Some(s) => if s@ == "per_worker"@ {
                    Some(SupervisorPolicy::PerWorker)
                } else if s@ == "per_request"@ {
                    Some(SupervisorPolicy::PerRequest { oneshot: false })
                } else if s@ == "oneshot"@ {
                    Some(SupervisorPolicy::PerRequest { oneshot: true })
                } else {
                    None
                },
                None => None,
            }
            &&& r.max_parallelism == match env.max_parallelism {
                Some(s) => match unsigned_number(s@, usize::MAX as int) {
                    Some(n) => Some(n as usize),
                    None => None,
                },
                None => None,
            }
            &&& r.request_wait_timeout_ms == match env.request_wait_timeout_ms {
                Some(s) => match unsigned_number(s@, u64::MAX as int) {
                    Some(n) => Some(n as u64),
                    None => None,
                },
                None => None,
            }
            &&& r.beforeunload_wall_clock_pct == match env.beforeunload_wall_clock_ratio {
                Some(s) => match unsigned_number(s@, 99) {
                    Some(n) => Some(n as u8),
                    None => None,
                },
                None => None,
            }
            &&& r.beforeunload_cpu_pct == match env.beforeunload_cpu_ratio {
                Some(s) => match unsigned_number(s@, 99) {
                    Some(n) => Some(n as u8),
                    None => None,
                },
                None => None,
            }
            &&& r.beforeunload_memory_pct == match env.beforeunload_memory_ratio {
                Some(s) => match unsigned_number(s@, 99) {
                    Some(n) => Some(n as u8),
                    None => None,
                },
                None => None,
            }
            &&& r.inspector_addresses == match env.inspector_address {
                Some(s) => if s@.len() > 0 {
                    seq![s@]
                } else {
                    Seq::empty()
                },
                None => Seq::empty(),
            }
        }),
{
    lemma_policies_differ();
    reveal_strlit("per_worker");
    reveal_strlit("per_request");
    reveal_strlit("oneshot");
    assert(Seq::<Seq<char>>::empty().push(env.inspector_address->0@) =~= seq![
        env.inspector_address->0@,
    ]);
}

/// The name that a flag has on the command line.
pub open spec fn is_flag_name(name: Seq<char>, flag: FlowFlag) -> bool {
    ||| name == "--policy"@ && flag == FlowFlag::Policy
    ||| name == "--max-parallelism"@ && flag == FlowFlag::MaxParallelism
    ||| name == "--request-wait-timeout"@ && flag == FlowFlag::RequestWaitTimeout
    ||| name == "--dispatch-beforeunload-wall-clock-ratio"@ && flag
        == FlowFlag::BeforeunloadWallClock
    ||| name == "--dispatch-beforeunload-cpu-ratio"@ && flag == FlowFlag::BeforeunloadCpu
    ||| name == "--dispatch-beforeunload-memory-ratio"@ && flag == FlowFlag::BeforeunloadMemory
    ||| name == "--user-worker-inspect"@ && flag == FlowFlag::UserWorkerInspect
}

proof fn lemma_flag_name(name: Seq<char>, flag: FlowFlag)
    requires
        is_flag_name(name, flag),
    ensures
        flag_named(name) == Some(flag),
        !name.contains('='),
        name != "--"@,
{
    reveal_strlit("--");
    reveal_strlit("--policy");
    reveal_strlit("--max-parallelism");
    reveal_strlit("--request-wait-timeout");
    reveal_strlit("--dispatch-beforeunload-wall-clock-ratio");
    reveal_strlit("--dispatch-beforeunload-cpu-ratio");
    reveal_strlit("--dispatch-beforeunload-memory-ratio");
    reveal_strlit("--user-worker-inspect");
    assert("--"@.len() == 2);
    assert("--policy"@.len() == 8);
    assert("--max-parallelism"@.len() == 17);
    assert("--request-wait-timeout"@.len() == 22);
    assert("--dispatch-beforeunload-wall-clock-ratio"@.len() == 40);
    assert("--dispatch-beforeunload-cpu-ratio"@.len() == 33);
    assert("--dispatch-beforeunload-memory-ratio"@.len() == 36);
    assert("--user-worker-inspect"@.len() == 21);
}

/// The same scan, of the same arguments `shift` places further on.
proof fn lemma_scan_shifted(
    a: Seq<Option<Seq<char>>>,
    b: Seq<Option<Seq<char>>>,
    i: int,
    shift: int,
    passthrough: bool,
    s: Scan,
    t: Scan,
)
    requires
        0 <= i <= a.len(),
        0 <= shift,
        b.len() == a.len() + shift,
        forall|k: int| i <= k < a.len() ==> #[trigger] a[k] == b[k + shift],
        s.config == t.config,
    ensures
        ({
            let x = scan(a, i, passthrough, s);
            let y = scan(b, i + shift, passthrough, t);
            &&& x.config == y.config
            &&& x.kept.len() - s.kept.len() == y.kept.len() - t.kept.len()
            &&& x.complaints.len() - s.complaints.len() == y.complaints.len() - t.complaints.len()
            &&& s.kept.is_prefix_of(x.kept)
            &&& t.kept.is_prefix_of(y.kept)
            &&& forall|k: int|
                0 <= k < x.kept.len() - s.kept.len() ==> #[trigger] y.kept[t.kept.len() + k]
                    == x.kept[s.kept.len() + k] + shift
        }),
    decreases a.len() - i,
{
    if i < a.len() {
        assert(a[i] == b[i + shift]);
        let s1 = Scan { kept: s.kept.push(i), ..s };
        let t1 = Scan { kept: t.kept.push(i + shift), ..t };
        let keeps = passthrough || token(a[i]) is Terminator || token(a[i]) is Foreign;
        if keeps {
            let p = passthrough || token(a[i]) is Terminator;
            lemma_scan_shifted(a, b, i + 1, shift, p, s1, t1);
            let x = scan(a, i, passthrough, s);
            let y = scan(b, i + shift, passthrough, t);
            assert(s1.kept.is_prefix_of(x.kept));
            assert(t1.kept.is_prefix_of(y.kept));
            assert(s.kept =~= x.kept.take(s.kept.len() as int)) by {
                assert(s1.kept =~= x.kept.take(s1.kept.len() as int));
                assert forall|k: int| 0 <= k < s.kept.len() implies s.kept[k] == x.kept[k] by {
                    assert(s1.kept[k] == x.kept.take(s1.kept.len() as int)[k]);
                }
            }
            assert(t.kept =~= y.kept.take(t.kept.len() as int)) by {
                assert(t1.kept =~= y.kept.take(t1.kept.len() as int));
                assert forall|k: int| 0 <= k < t.kept.len() implies t.kept[k] == y.kept[k] by {
                    assert(t1.kept[k] == y.kept.take(t1.kept.len() as int)[k]);
                }
            }
            assert forall|k: int| 0 <= k < x.kept.len() - s.kept.len() implies #[trigger] y.kept[
            t.kept.len() + k] == x.kept[s.kept.len() + k] + shift by {
                if k == 0 {
                    assert(s1.kept =~= x.kept.take(s1.kept.len() as int));
                    assert(t1.kept =~= y.kept.take(t1.kept.len() as int));
                    assert(s1.kept[s.kept.len() as int] == x.kept.take(s1.kept.len() as int)[
                    s.kept.len() as int]);
                    assert(t1.kept[t.kept.len() as int] == y.kept.take(t1.kept.len() as int)[
                    t.kept.len() as int]);
                } else {
                    assert(y.kept[t1.kept.len() + (k - 1)] == x.kept[s1.kept.len() + (k - 1)]
                        + shift);
                }
            }
        } else {
            match token(a[i]) {
                Token::Joined { flag, value } => {
                    lemma_scan_shifted(
                        a,
                        b,
                        i + 1,
                        shift,
                        false,
                        Scan {
                            config: applied(s.config, flag, value),
                            complaints: complain(s.complaints, accepts(flag, value), i),
                            ..s
                        },
                        Scan {
                            config: applied(t.config, flag, value),
                            complaints: complain(t.complaints, accepts(flag, value), i + shift),
                            ..t
                        },
                    );
                },
                Token::Spaced { flag } => {
                    if i + 1 < a.len() {
                        assert(a[i + 1] == b[i + 1 + shift]);
                        match a[i + 1] {
                            Some(value) => lemma_scan_shifted(
                                a,
                                b,
                                i + 2,
                                shift,
                                false,
                                Scan {
                                    config: applied(s.config, flag, value),
                                    complaints: complain(s.complaints, accepts(flag, value), i),
                                    ..s
                                },
                                Scan {
                                    config: applied(t.config, flag, value),
                                    complaints: complain(
                                        t.complaints,
                                        accepts(flag, value),
                                        i + shift,
                                    ),
                                    ..t
                                },
                            ),
                            None => lemma_scan_shifted(
                                a,
                                b,
                                i + 2,
                                shift,
                                false,
                                Scan {
                                    complaints: s.complaints.push(
                                        Complaint::NotUnicode { at: i as usize },
                                    ),
                                    ..s
                                },
                                Scan {
                                    complaints: t.complaints.push(
                                        Complaint::NotUnicode { at: (i + shift) as usize },
                                    ),
                                    ..t
                                },
                            ),
                        }
                    } else {
                        assert(s.kept =~= s.kept.take(s.kept.len() as int));
                        assert(t.kept =~= t.kept.take(t.kept.len() as int));
                    }
                },
                _ => {},
            }
        }
    } else {
        assert(s.kept =~= s.kept.take(s.kept.len() as int));
        assert(t.kept =~= t.kept.take(t.kept.len() as int));
    }
}

/// What a command line gives with the flag in front, against what it gives without: the flag counts
/// as if the environment had set it, except that what follows may override it again, and it is taken
/// out, with its value.
pub open spec fn takes_effect(
    with: Scan,
    without: Scan,
    shift: int,
    is_accepted: bool,
) -> bool {
    &&& with.config == without.config
    &&& with.kept.len() == without.kept.len()
    &&& with.kept[0] == 0
    &&& forall|k: int|
        1 <= k < with.kept.len() ==> #[trigger] with.kept[k] == without.kept[k] + shift
    &&& with.complaints.len() == without.complaints.len() + if is_accepted {
        0int
    } else {
        1
    }
}

/// A flag that stands in front of the rest of a command line is applied on top of the environment
/// and taken out together with its value, whether that is the next argument or follows behind `=`.
pub proof fn law_flags_override_what_was_there(
    program: Option<Seq<char>>,
    name: Seq<char>,
    flag: FlowFlag,
    value: Seq<char>,
    rest: Seq<Option<Seq<char>>>,
    base: ConfigView,
)
    requires
        is_flag_name(name, flag),
    ensures
        takes_effect(
            resolved(seq![program, Some(name), Some(value)] + rest, base),
            resolved(seq![program] + rest, applied(base, flag, value)),
            2,
            accepts(flag, value),
        ),
        takes_effect(
            resolved(seq![program, Some(name + seq!['='] + value)] + rest, base),
            resolved(seq![program] + rest, applied(base, flag, value)),
            1,
            accepts(flag, value),
        ),
{
    lemma_flag_name(name, flag);
    let without = seq![program] + rest;
    let spaced = seq![program, Some(name), Some(value)] + rest;
    let text = name + seq!['='] + value;
    let together = seq![program, Some(text)] + rest;
    let start = Scan {
        config: applied(base, flag, value),
        kept: seq![0int],
        complaints: Seq::<Complaint>::empty(),
    };
    let after = Scan {
        config: applied(base, flag, value),
        kept: seq![0int],
        complaints: complain(Seq::<Complaint>::empty(), accepts(flag, value), 1),
    };
    let begin = Scan { config: base, kept: seq![0int], complaints: Seq::<Complaint>::empty() };
    // The value is the next argument.
    assert(spaced[1] == Some(name));
    assert(spaced[2] == Some(value));
    if let Some(i) = first_index(name, '=') {
        lemma_first_index(name, '=');
        assert(name[i] == '=');
        assert(false);
    }
    assert(token(spaced[1]) == (Token::Spaced { flag }));
    assert(scan(spaced, 1, false, begin) == scan(spaced, 3, false, after));
    assert forall|k: int| 1 <= k < without.len() implies #[trigger] without[k] == spaced[k + 2] by {}
    lemma_scan_shifted(without, spaced, 1, 2, false, start, after);
    lemma_takes_effect(without, spaced, base, start, after, 2, accepts(flag, value));
    // The value stands behind the name.
    assert(together[1] == Some(text));
    assert(text[name.len() as int] == '=');
    assert forall|k: int| 0 <= k < name.len() implies text[k] != '=' by {
        assert(text[k] == name[k]);
    }
    lemma_first_index_at(text, '=', name.len() as int);
    assert(text.take(name.len() as int) =~= name);
    assert(text.skip(name.len() as int + 1) =~= value);
    reveal_strlit("--");
    assert(text.len() > 2) by {
        reveal_strlit("--policy");
        reveal_strlit("--max-parallelism");
        reveal_strlit("--request-wait-timeout");
        reveal_strlit("--dispatch-beforeunload-wall-clock-ratio");
        reveal_strlit("--dispatch-beforeunload-cpu-ratio");
        reveal_strlit("--dispatch-beforeunload-memory-ratio");
        reveal_strlit("--user-worker-inspect");
    }
    assert(text != "--"@);
    assert(token(together[1]) == (Token::Joined { flag, value }));
    assert(scan(together, 1, false, begin) == scan(together, 2, false, after));
    assert forall|k: int| 1 <= k < without.len() implies #[trigger] without[k] == together[k
        + 1] by {}
    lemma_scan_shifted(without, together, 1, 1, false, start, after);
    lemma_takes_effect(without, together, base, start, after, 1, accepts(flag, value));
}

proof fn lemma_takes_effect(
    a: Seq<Option<Seq<char>>>,
    b: Seq<Option<Seq<char>>>,
    base: ConfigView,
    start: Scan,
    after: Scan,
    shift: int,
    is_accepted: bool,
)
    requires
        a.len() >= 1,
        b.len() == a.len() + shift,
        start.kept == seq![0int],
        after.kept == seq![0int],
        start.complaints.len() == 0,
        after.complaints.len() == if is_accepted {
            0int
        } else {
            1
        },
        ({
            let x = scan(a, 1, false, start);
            let y = scan(b, 1 + shift, false, after);
            &&& x.config == y.config
            &&& x.kept.len() == y.kept.len()
            &&& x.complaints.len() - start.complaints.len() == y.complaints.len()
                - after.complaints.len()
            &&& after.kept.is_prefix_of(y.kept)
            &&& forall|k: int|
                0 <= k < x.kept.len() - 1 ==> #[trigger] y.kept[1 + k] == x.kept[1 + k] + shift
        }),
    ensures
        takes_effect(scan(b, 1 + shift, false, after), scan(a, 1, false, start), shift, is_accepted),
{
    let x = scan(a, 1, false, start);
    let y = scan(b, 1 + shift, false, after);
    assert(after.kept =~= y.kept.take(1));
    assert(y.kept[0] == y.kept.take(1)[0]);
    assert forall|k: int| 1 <= k < y.kept.len() implies #[trigger] y.kept[k] == x.kept[k] + shift by {
        assert(y.kept[1 + (k - 1)] == x.kept[1 + (k - 1)] + shift);
    }
}

/// Whether a switch is on does not depend on the case of its letters: in lower case it is on for the
/// four words, and for no others.
pub proof fn law_switches_ignore_case(s: Seq<char>, i: int)
    requires
        0 <= i < s.len(),
        'A' <= s[i] && s[i] <= 'Z',
    ensures
        means_yes(s) == means_yes(s.update(i, ((s[i] as u32 + 32) as u8) as char)),
{
    let t = s.update(i, ((s[i] as u32 + 32) as u8) as char);
    assert(s.map_values(|c: char| ascii_lower(c)) =~= t.map_values(|c: char| ascii_lower(c)));
}

/// A text without capital letters is a switch that is on exactly where it is one of the four words.
pub proof fn law_four_words_mean_yes(s: Seq<char>)
    requires
        forall|i: int| 0 <= i < s.len() ==> !('A' <= #[trigger] s[i] && s[i] <= 'Z'),
    ensures
        means_yes(s) <==> s == "1"@ || s == "true"@ || s == "yes"@ || s == "on"@,
{
    assert(s.map_values(|c: char| ascii_lower(c)) =~= s);
}


/// An argument is a flag of its own if it is the name of one, with a value behind an equals sign or
/// without; two dashes end the flags; anything else is left to others.
pub proof fn law_only_own_flags_are_read(s: Seq<char>, flag: FlowFlag, value: Seq<char>)
    ensures
        token(None) is Foreign,
        token(Some(s)) is Terminator <==> s == "--"@,
        token(Some(s)) == (Token::Spaced { flag }) <==> is_flag_name(s, flag),
        token(Some(s)) == (Token::Joined { flag, value }) ==> exists|name: Seq<char>|
            is_flag_name(name, flag) && s == #[trigger] (name + seq!['='] + value),
        forall|name: Seq<char>|
            is_flag_name(name, flag) && s == #[trigger] (name + seq!['='] + value) ==> token(Some(s))
                == (Token::Joined { flag, value }),
{
    reveal_strlit("--");
    lemma_first_index(s, '=');
    if is_flag_name(s, flag) {
        lemma_flag_name(s, flag);
        if first_index(s, '=') is Some {
            assert(s[first_index(s, '=')->0] == '=');
        }
    }
    if token(Some(s)) == (Token::Joined { flag, value }) {
        let i = first_index(s, '=')->0;
        let name = s.take(i);
        assert(is_flag_name(name, flag));
        assert(s =~= name + seq!['='] + value);
    }
    assert forall|name: Seq<char>|
        is_flag_name(name, flag) && s == #[trigger] (name + seq!['='] + value) implies token(Some(s))
        == (Token::Joined { flag, value }) by {
        lemma_flag_name(name, flag);
        assert(s[name.len() as int] == '=');
        assert forall|k: int| 0 <= k < name.len() implies s[k] != '=' by {
            assert(s[k] == name[k]);
        }
        lemma_first_index_at(s, '=', name.len() as int);
        assert(s.take(name.len() as int) =~= name);
        assert(s.skip(name.len() as int + 1) =~= value);
        if s == "--"@ {
            assert(s.last() == '-');
            assert(s[name.len() as int] == '=');
        }
    }
}

proof fn lemma_scan_front(args: Seq<Option<Seq<char>>>, i: int, at: int, s: Scan)
    requires
        0 <= i <= at <= args.len(),
        forall|j: int| i <= j < at ==> token(#[trigger] args[j]) is Foreign,
    ensures
        scan(args, i, false, s) == scan(
            args,
            at,
            false,
            (Scan { kept: s.kept + Seq::new((at - i) as nat, |k: int| i + k), ..s }),
        ),
    decreases at - i,
{
    if i == at {
        assert(s.kept + Seq::new((at - i) as nat, |k: int| i + k) =~= s.kept);
    } else {
        let next = Scan { kept: s.kept.push(i), ..s };
        lemma_scan_front(args, i + 1, at, next);
        assert(next.kept + Seq::new((at - (i + 1)) as nat, |k: int| i + 1 + k) =~= s.kept + Seq::new(
            (at - i) as nat,
            |k: int| i + k,
        ));
    }
}

/// A flag that goes wrong is complained of by its place on the command line: a value that is not
/// accepted, one that is not text, and one that is not there. The last two change nothing.
pub proof fn law_complaints_name_their_place(
    front: Seq<Option<Seq<char>>>,
    name: Seq<char>,
    flag: FlowFlag,
    value: Seq<char>,
    base: ConfigView,
)
    requires
        0 < front.len() <= usize::MAX,
        forall|i: int| 1 <= i < front.len() ==> token(#[trigger] front[i]) is Foreign,
        is_flag_name(name, flag),
    ensures
        ({
            let at = front.len() as usize;
            let missing = resolved(front + seq![Some(name)], base);
            let unreadable = resolved(front + seq![Some(name), None], base);
            let spaced = resolved(front + seq![Some(name), Some(value)], base);
            let together = resolved(front + seq![Some(name + seq!['='] + value)], base);
            &&& missing.complaints == seq![Complaint::Missing { at }]
            &&& unreadable.complaints == seq![Complaint::NotUnicode { at }]
            &&& accepts(flag, value) ==> spaced.complaints.len() == 0
            &&& accepts(flag, value) ==> together.complaints.len() == 0
            &&& !accepts(flag, value) ==> spaced.complaints == seq![Complaint::Rejected { at }]
            &&& !accepts(flag, value) ==> together.complaints == seq![Complaint::Rejected { at }]
            &&& missing.config == base && unreadable.config == base
            &&& missing.kept == Seq::new(front.len(), |i: int| i)
            &&& unreadable.kept == Seq::new(front.len(), |i: int| i)
        }),
{
    let at: int = front.len() as int;
    let start = Scan { config: base, kept: seq![0int], complaints: Seq::<Complaint>::empty() };
    let text = name + seq!['='] + value;
    let a = front + seq![Some(name)];
    let b = front + seq![Some(name), None];
    let c = front + seq![Some(name), Some(value)];
    let d = front + seq![Some(text)];
    law_only_own_flags_are_read(name, flag, value);
    law_only_own_flags_are_read(text, flag, value);
    assert forall|j: int| 1 <= j < at implies token(#[trigger] a[j]) is Foreign && token(b[j])
        is Foreign && token(c[j]) is Foreign && token(d[j]) is Foreign by {
        assert(a[j] == front[j]);
    }
    assert forall|j: int| 1 <= j < at implies token(#[trigger] b[j]) is Foreign by {
        assert(token(a[j]) is Foreign);
    }
    assert forall|j: int| 1 <= j < at implies token(#[trigger] c[j]) is Foreign by {
        assert(token(a[j]) is Foreign);
    }
    assert forall|j: int| 1 <= j < at implies token(#[trigger] d[j]) is Foreign by {
        assert(token(a[j]) is Foreign);
    }
    lemma_scan_front(a, 1, at, start);
    lemma_scan_front(b, 1, at, start);
    lemma_scan_front(c, 1, at, start);
    lemma_scan_front(d, 1, at, start);
    assert(start.kept + Seq::new((at - 1) as nat, |k: int| 1 + k) =~= Seq::new(
        front.len(),
        |i: int| i,
    ));
    assert(a[at] == Some(name));
    assert(b[at] == Some(name) && b[at + 1] is None);
    assert(c[at] == Some(name) && c[at + 1] == Some(value));
    assert(d[at] == Some(text));
    reveal_with_fuel(scan, 3);
}

/// What is wrong with a variable that is set to something other than nothing.
pub open spec fn variable_fault(v: (FlowFlag, Option<String>)) -> Option<RejectedVariable> {
    if v.1 is Some && (v.1->0)@.len() > 0 && rejection_of(v.0, (v.1->0)@) is Some {
        Some(RejectedVariable { flag: v.0, why: rejection_of(v.0, (v.1->0)@)->0 })
    } else {
        None
    }
}

proof fn lemma_variable_noted(
    all: Seq<(FlowFlag, Option<String>)>,
    i: int,
    list: Seq<RejectedVariable>,
)
    requires
        0 <= i < all.len(),
        list == all.take(i).filter_map(|v: (FlowFlag, Option<String>)| variable_fault(v)),
    ensures
        env_noted(list, all[i].0, all[i].1) == all.take(i + 1).filter_map(
            |v: (FlowFlag, Option<String>)| variable_fault(v),
        ),
{
    all.lemma_filter_map_take_succ(|v: (FlowFlag, Option<String>)| variable_fault(v), i);
}

/// The variables that are set to something not accepted are listed, each once, with what is wrong
/// with it and in the order in which variables are read; an empty variable counts as not set, and
/// any address is accepted.
pub proof fn law_rejected_variables_are_listed(env: EnvVars)
    ensures
        env_rejected(env) == seq![
            (FlowFlag::Policy, env.policy),
            (FlowFlag::MaxParallelism, env.max_parallelism),
            (FlowFlag::RequestWaitTimeout, env.request_wait_timeout_ms),
            (FlowFlag::BeforeunloadWallClock, env.beforeunload_wall_clock_ratio),
            (FlowFlag::BeforeunloadCpu, env.beforeunload_cpu_ratio),
            (FlowFlag::BeforeunloadMemory, env.beforeunload_memory_ratio),
        ].filter_map(|v: (FlowFlag, Option<String>)| variable_fault(v)),
{
    let all = seq![
        (FlowFlag::Policy, env.policy),
        (FlowFlag::MaxParallelism, env.max_parallelism),
        (FlowFlag::RequestWaitTimeout, env.request_wait_timeout_ms),
        (FlowFlag::BeforeunloadWallClock, env.beforeunload_wall_clock_ratio),
        (FlowFlag::BeforeunloadCpu, env.beforeunload_cpu_ratio),
        (FlowFlag::BeforeunloadMemory, env.beforeunload_memory_ratio),
    ];
    let l0 = Seq::<RejectedVariable>::empty();
    let l1 = env_noted(l0, all[0].0, all[0].1);
    let l2 = env_noted(l1, all[1].0, all[1].1);
    let l3 = env_noted(l2, all[2].0, all[2].1);
    let l4 = env_noted(l3, all[3].0, all[3].1);
    let l5 = env_noted(l4, all[4].0, all[4].1);
    assert(all.take(0).filter_map(|v: (FlowFlag, Option<String>)| variable_fault(v)) =~= l0);
    lemma_variable_noted(all, 0, l0);
    lemma_variable_noted(all, 1, l1);
    lemma_variable_noted(all, 2, l2);
    lemma_variable_noted(all, 3, l3);
    lemma_variable_noted(all, 4, l4);
    lemma_variable_noted(all, 5, l5);
    assert(all.take(6) =~= all);
}

/// A switch that is not set, or set to nothing, is left open; any other text is a yes or a no.
pub proof fn law_unset_switches_are_open(v: Option<String>)
    ensures
        env_switch(v) is Some <==> v is Some && (v->0)@.len() > 0,
        env_switch(v) is Some ==> env_switch(v)->0 == means_yes((v->0)@),
{
}

} // verus!
