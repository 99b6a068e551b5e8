use flow_edge::flags::{
    test_user_worker_pool_policy, SupervisorPolicy, WorkerFlags, WorkerPoolPolicy,
};
use flow_edge::flow_config::{
    check_ratio, env_bool, env_parse_ratio, flow_flag, parse_policy, parse_ratio_or_warn,
    rejected_variables, rejection, rejects_heap_limit, strip_and_resolve, Complaint, EnvVars,
    FlowConfig, FlowFlag, RejectedVariable, Rejection, Resolved, RuntimeEnv,
};

fn no_env() -> EnvVars {
    EnvVars {
        policy: None,
        max_parallelism: None,
        request_wait_timeout_ms: None,
        beforeunload_wall_clock_ratio: None,
        beforeunload_cpu_ratio: None,
        beforeunload_memory_ratio: None,
        inspector_address: None,
    }
}

fn resolve(args: &[&str], env: &EnvVars) -> Resolved {
    let args: Vec<Option<String>> = args.iter().map(|s| Some(s.to_string())).collect();
    strip_and_resolve(&args, env)
}

#[test]
fn flags_are_taken_out_of_the_command_line() {
    let r = resolve(
        &["flow", "--policy", "oneshot", "run", "--max-parallelism=8", "main.ts", "-A"],
        &no_env(),
    );
    assert_eq!(r.kept, [0, 3, 5, 6]);
    assert_eq!(r.config.policy, Some(SupervisorPolicy::PerRequest { oneshot: true }));
    assert_eq!(r.config.max_parallelism, Some(8));
    assert!(r.complaints.is_empty());
}

#[test]
fn everything_behind_the_terminator_stays() {
    let r = resolve(&["flow", "run", "--", "--policy", "oneshot", "--"], &no_env());
    assert_eq!(r.kept, [0, 1, 2, 3, 4, 5]);
    assert_eq!(r.config.policy, None);
}

#[test]
fn a_foreign_command_line_is_untouched() {
    let r = resolve(&["flow", "run", "--allow-net=a=b", "x=y", "--policyx"], &no_env());
    assert_eq!(r.kept, [0, 1, 2, 3, 4]);
    let r = resolve(&[], &no_env());
    assert!(r.kept.is_empty());
    // The program name always stays, whatever it is.
    let r = resolve(&["--policy", "x"], &no_env());
    assert_eq!(r.kept, [0, 1]);
}

#[test]
fn rejected_variables_are_listed() {
    assert!(rejected_variables(&no_env()).is_empty());
    let env = EnvVars {
        policy: Some("sometimes".into()),
        max_parallelism: Some("8".into()),
        request_wait_timeout_ms: Some("soon".into()),
        beforeunload_wall_clock_ratio: Some("100".into()),
        beforeunload_cpu_ratio: Some("".into()),
        beforeunload_memory_ratio: Some("256".into()),
        inspector_address: Some("nowhere".into()),
    };
    let rejected = |flag, why| RejectedVariable { flag, why };
    assert_eq!(
        rejected_variables(&env),
        [
            rejected(FlowFlag::Policy, Rejection::NoPolicy),
            rejected(FlowFlag::RequestWaitTimeout, Rejection::Invalid),
            rejected(FlowFlag::BeforeunloadWallClock, Rejection::OutOfRange(100)),
            rejected(FlowFlag::BeforeunloadMemory, Rejection::Invalid),
        ]
    );
    assert_eq!(rejection(FlowFlag::BeforeunloadCpu, "99"), None);
    assert_eq!(rejection(FlowFlag::MaxParallelism, "-1"), Some(Rejection::Invalid));
    let limit = |v: Option<&str>| {
        rejects_heap_limit(&RuntimeEnv {
            no_deprecation_warnings: None,
            verbose_warnings: None,
            include_malloced_memory: None,
            max_heap_size_mib: v.map(String::from),
        })
    };
    assert!(limit(Some("lots")));
    assert!(!limit(Some("512")) && !limit(Some("")) && !limit(None));
}

#[test]
fn flags_override_the_environment() {
    let env = EnvVars {
        policy: Some("per_worker".into()),
        max_parallelism: Some("3".into()),
        request_wait_timeout_ms: Some("5000".into()),
        beforeunload_wall_clock_ratio: Some("80".into()),
        beforeunload_cpu_ratio: Some("100".into()),
        beforeunload_memory_ratio: Some("".into()),
        inspector_address: Some("127.0.0.1:1".into()),
    };
    let r = resolve(
        &["flow", "--request-wait-timeout", "1", "--user-worker-inspect=127.0.0.1:2"],
        &env,
    );
    let c = &r.config;
    assert_eq!(c.policy, Some(SupervisorPolicy::PerWorker));
    assert_eq!(c.max_parallelism, Some(3));
    assert_eq!(c.request_wait_timeout_ms, Some(1));
    assert_eq!(c.beforeunload_wall_clock_pct, Some(80));
    assert_eq!(c.beforeunload_cpu_pct, None);
    assert_eq!(c.beforeunload_memory_pct, None);
    assert_eq!(c.inspector_addresses, ["127.0.0.1:1", "127.0.0.1:2"]);
}

#[test]
fn rejected_values_leave_the_environment_in_force() {
    let env = EnvVars {
        max_parallelism: Some("3".into()),
        beforeunload_cpu_ratio: Some("50".into()),
        policy: Some("oneshot".into()),
        ..no_env()
    };
    let r = resolve(
        &[
            "flow",
            "--max-parallelism",
            "lots",
            "--dispatch-beforeunload-cpu-ratio=100",
            "--policy=whatever",
        ],
        &env,
    );
    assert_eq!(r.config.max_parallelism, Some(3));
    assert_eq!(r.config.beforeunload_cpu_pct, Some(50));
    assert_eq!(r.config.policy, Some(SupervisorPolicy::PerRequest { oneshot: true }));
    assert_eq!(r.kept, [0]);
    assert_eq!(r.complaints.len(), 3);
    assert!(matches!(r.complaints[0], Complaint::Rejected { at: 1 }));
    assert!(matches!(r.complaints[1], Complaint::Rejected { at: 3 }));
    assert!(matches!(r.complaints[2], Complaint::Rejected { at: 4 }));
}

#[test]
fn values_that_are_missing_or_not_unicode_are_complained_about() {
    let r = resolve(&["flow", "run", "--policy"], &no_env());
    assert_eq!(r.kept, [0, 1]);
    assert!(matches!(r.complaints[..], [Complaint::Missing { at: 2 }]));

    let args = vec![
        Some("flow".to_string()),
        None,
        Some("--policy".to_string()),
        None,
        Some("x".to_string()),
    ];
    let r = strip_and_resolve(&args, &no_env());
    assert_eq!(r.kept, [0, 1, 4]);
    assert!(matches!(r.complaints[..], [Complaint::NotUnicode { at: 2 }]));
}

#[test]
fn names_and_numbers_are_read_exactly() {
    assert_eq!(flow_flag("--user-worker-inspect"), Some(FlowFlag::UserWorkerInspect));
    assert_eq!(flow_flag("--dispatch-beforeunload-memory-ratio"), Some(FlowFlag::BeforeunloadMemory));
    assert_eq!(flow_flag("--Policy"), None);
    assert_eq!(parse_policy("per_request"), Some(SupervisorPolicy::PerRequest { oneshot: false }));
    assert_eq!(parse_policy("per-request"), None);
    assert_eq!(parse_ratio_or_warn("99"), Some(99));
    assert_eq!(parse_ratio_or_warn("+7"), Some(7));
    assert_eq!(parse_ratio_or_warn("100"), None);
    assert_eq!(parse_ratio_or_warn("256"), None);
    assert_eq!(parse_ratio_or_warn("-1"), None);
    assert_eq!(parse_ratio_or_warn(""), None);
    assert_eq!(parse_ratio_or_warn("+"), None);
    assert_eq!(check_ratio(99), Some(99));
    assert_eq!(check_ratio(100), None);
    assert_eq!(env_parse_ratio(&Some("42".into())), Some(42));
    assert_eq!(env_parse_ratio(&Some("".into())), None);
    assert_eq!(env_parse_ratio(&None), None);
}

#[test]
fn switches_know_several_words_for_yes() {
    for yes in ["1", "true", "TRUE", "Yes", "on"] {
        assert_eq!(env_bool(&Some(yes.into())), Some(true), "{yes}");
    }
    for no in ["0", "false", "y", "2"] {
        assert_eq!(env_bool(&Some(no.into())), Some(false), "{no}");
    }
    assert_eq!(env_bool(&Some("".into())), None);
    assert_eq!(env_bool(&None), None);
}

#[test]
fn pool_settings_fall_back_to_their_defaults() {
    let c = FlowConfig::new();
    let (policy, flags) = c.to_pool_config();
    assert_eq!(policy.supervisor_policy, SupervisorPolicy::PerWorker);
    assert_eq!(policy.max_parallelism, 4);
    assert_eq!(policy.request_wait_timeout_ms, 10000);
    assert_eq!(flags, WorkerFlags::default());

    let mut c = FlowConfig::new();
    assert!(c.apply(FlowFlag::RequestWaitTimeout, "250"));
    assert!(c.apply(FlowFlag::BeforeunloadWallClock, "90"));
    let (policy, flags) = c.to_pool_config();
    assert_eq!(policy.request_wait_timeout_ms, 250);
    assert_eq!(flags.request_wait_timeout_ms, Some(250));
    assert_eq!(flags.beforeunload_wall_clock_pct, Some(90));
    assert!(!flags.restrict_host_fs);
}

#[test]
fn the_pool_for_tests_is_small_and_patient() {
    assert_eq!(
        test_user_worker_pool_policy(),
        WorkerPoolPolicy {
            supervisor_policy: SupervisorPolicy::oneshot(),
            max_parallelism: 1,
            request_wait_timeout_ms: 4 * 1000 * 3600,
        }
    );
    assert!(SupervisorPolicy::oneshot().is_per_request());
    assert!(!SupervisorPolicy::PerWorker.is_per_request());
}
