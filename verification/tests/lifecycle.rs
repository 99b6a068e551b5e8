use flow_edge::lifecycle::{
    reports_to_isolate, worker_pool_size, BlockingScopeCPUUsage, IsolateLifecycle, IsolateState,
    LifecyclePhase, RuntimeState, DEFAULT_PRIMARY_WORKER_POOL_SIZE, DEFAULT_USER_WORKER_POOL_SIZE,
};

#[test]
fn test_try_enter_returns_guard_when_running() {
    let mut lifecycle = IsolateLifecycle::new();

    let guard = lifecycle.try_enter();
    assert!(guard.is_some());
    assert_eq!(lifecycle.active_operation_count(), 1);

    lifecycle.leave(guard.unwrap());
    assert_eq!(lifecycle.active_operation_count(), 0);
}

#[test]
fn test_try_enter_returns_none_after_begin_drop() {
    let mut lifecycle = IsolateLifecycle::new();

    lifecycle.begin_drop(Vec::new());

    let guard = lifecycle.try_enter();
    assert!(guard.is_none());
    assert_eq!(lifecycle.state(), IsolateState::Dropped);
}

#[test]
fn test_drop_token_is_cancelled_on_begin_drop() {
    let mut lifecycle = IsolateLifecycle::new();

    assert!(!lifecycle.drop_cancelled);
    lifecycle.begin_drop(Vec::new());
    assert!(lifecycle.drop_cancelled);
}

#[test]
fn test_begin_drop_waits_for_active_guards() {
    let mut lifecycle = IsolateLifecycle::new();
    let guard = lifecycle.try_enter().unwrap();
    assert_eq!(lifecycle.active_operation_count(), 1);

    lifecycle.begin_drop(vec![guard]);
    assert_eq!(lifecycle.state(), IsolateState::Dropped);
    assert_eq!(lifecycle.active_operation_count(), 0);
    assert!(lifecycle.drop_cancelled);
    assert!(lifecycle.try_enter().is_none());
}

#[test]
fn a_drop_ends_with_the_last_operation() {
    let mut lifecycle = IsolateLifecycle::new();
    let first = lifecycle.try_enter().unwrap();
    let second = lifecycle.try_enter().unwrap();

    lifecycle.announce_drop();
    assert_eq!(lifecycle.state(), IsolateState::Dropping);
    assert!(lifecycle.is_dropping() && !lifecycle.is_running() && lifecycle.drop_cancelled);
    assert!(lifecycle.try_enter().is_none());

    lifecycle.leave(first);
    assert_eq!(lifecycle.state(), IsolateState::Dropping);
    lifecycle.leave(second);
    assert_eq!(lifecycle.state(), IsolateState::Dropped);
    assert_eq!(lifecycle.active_operation_count(), 0);
}

#[test]
fn states_and_phases_by_number() {
    assert_eq!(IsolateState::from_u32(0), IsolateState::Running);
    assert_eq!(IsolateState::from_u32(1), IsolateState::Dropping);
    assert_eq!(IsolateState::from_u32(2), IsolateState::Dropped);
    assert_eq!(IsolateState::from_u32(77), IsolateState::Dropped);
    for n in 0..5u32 {
        assert_eq!(LifecyclePhase::from_u32(n).as_u32(), n);
    }
    assert_eq!(LifecyclePhase::from_u32(5), LifecyclePhase::Terminated);
    assert_eq!(LifecyclePhase::from_u32(2), LifecyclePhase::Running);
}

#[test]
fn phase_transitions_compare_first() {
    let mut s = RuntimeState::new();
    assert_eq!(s.phase(), LifecyclePhase::Created);
    assert!(!s.transition(LifecyclePhase::Running, LifecyclePhase::Terminated));
    assert_eq!(s.phase(), LifecyclePhase::Created);
    assert!(s.transition(LifecyclePhase::Created, LifecyclePhase::Initializing));
    assert_eq!(s.phase(), LifecyclePhase::Initializing);
    s.set_phase(LifecyclePhase::Terminated);
    assert_eq!(s.phase(), LifecyclePhase::Terminated);
    assert!(!s.is_init() && !s.is_terminated() && !s.is_evaluating_mod());
    assert!(!s.is_event_loop_completed() && !s.is_found_inspector_session());
}

#[test]
fn pools_never_shrink_below_their_least_size() {
    let least = DEFAULT_PRIMARY_WORKER_POOL_SIZE;
    assert_eq!(worker_pool_size(Some("1"), Some(8), least), 2);
    assert_eq!(worker_pool_size(Some("5"), Some(8), least), 5);
    assert_eq!(worker_pool_size(Some("many"), Some(8), least), 8);
    assert_eq!(worker_pool_size(None, Some(1), least), 2);
    assert_eq!(worker_pool_size(None, None, DEFAULT_USER_WORKER_POOL_SIZE), 1);
    assert_eq!(worker_pool_size(Some("0"), None, DEFAULT_USER_WORKER_POOL_SIZE), 1);
}

#[test]
fn blocking_time_is_added_up_and_reset() {
    let mut u = BlockingScopeCPUUsage::new();
    u.add(100, 350);
    u.add(400, 300);
    u.add(0, 50);
    assert_eq!(u.get_cpu_usage_ns_and_reset(), 300);
    assert_eq!(u.get_cpu_usage_ns_and_reset(), 0);
}

#[test]
fn blocking_tasks_report_only_to_live_isolates() {
    assert!(reports_to_isolate(Some(true), true));
    assert!(!reports_to_isolate(Some(false), false));
    assert!(reports_to_isolate(None, false));
    assert!(!reports_to_isolate(None, true));
}
