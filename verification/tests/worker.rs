use flow_edge::flags::{SupervisorPolicy, WorkerFlags};
use flow_edge::flow_events::ShutdownReason;
use flow_edge::lifecycle::RuntimeState;
use flow_edge::runtime::memory::{HeapReading, MemCheckState};
use flow_edge::worker::driver::BaseCx;
use flow_edge::worker::start::{
    apply_source_maps, boot_outcome, get_default_permissions, get_event_metadata, placement, spawned,
    worker_name, AttributeValue, BootOutcome, Placement, Spawned, StartAction, StartEvent,
    WorkerKind, WorkerStart,
};
use flow_edge::worker::supervisor::{
    cpu_budget, debugger_cleanup, handle_beforeunload, handle_drain, handle_termination,
    memory_used, raised_heap_limit, strategy_for, unblock_message, DebuggerCleanup,
    IsolateMemoryStats, MessageIds, Strategy, Supervisor, SupervisorAction, UnblockStep,
    WorkerMemoryUsed,
};
use flow_edge::source_map_store::{MapToken, SourceMapStore};
use flow_edge::worker::surface::{SurfaceError, WorkerBuilder, WorkerSurfaceBuilder};
use sourcemap::SourceMap;

#[test]
fn workers_are_named_by_kind() {
    assert_eq!(worker_name(WorkerKind::MainWorker, None), "main-worker");
    assert_eq!(worker_name(WorkerKind::EventsWorker, Some("k")), "events-workers");
    assert_eq!(worker_name(WorkerKind::UserWorker, Some("k")), "sb-iso-k");
    assert_eq!(worker_name(WorkerKind::UserWorker, None), "isolate-worker-unknown");
}

#[test]
fn user_workers_get_fewer_permissions() {
    let p = get_default_permissions(WorkerKind::UserWorker);
    assert!(p.allow_ffi.is_none() && p.allow_run.is_none());
    assert_eq!(p.allow_sys.unwrap(), ["hostname", "userInfo", "cpus"]);
    assert_eq!(p.allow_net.unwrap().len(), 0);
    let p = get_default_permissions(WorkerKind::MainWorker);
    assert_eq!(p.allow_ffi.unwrap().len(), 0);
    assert_eq!(p.allow_run.unwrap().len(), 0);
    assert_eq!(p.allow_sys.unwrap().len(), 0);
}

#[test]
fn the_context_adds_attributes() {
    let get = |attrs: &Vec<flow_edge::worker::start::Attribute>, k: &str| {
        attrs.iter().rev().find(|a| a.key == k).map(|a| a.value.clone())
    };
    let a = get_event_metadata(&vec![]);
    assert_eq!(get(&a, "edge_runtime.worker.kind").unwrap(), "user");
    let a = get_event_metadata(&vec![
        ("tenant".to_string(), AttributeValue::Text("t1".to_string())),
        ("n".to_string(), AttributeValue::Json("3".to_string())),
        (
            "edge_runtime.worker.kind".to_string(),
            AttributeValue::Text("mine".to_string()),
        ),
    ]);
    assert_eq!(get(&a, "tenant").unwrap(), "t1");
    assert_eq!(get(&a, "n").unwrap(), "3");
    assert_eq!(get(&a, "edge_runtime.worker.kind").unwrap(), "mine");
    assert!(get(&a, "other").is_none());
}

#[test]
fn a_user_worker_starts_on_its_own_thread() {
    assert_eq!(placement(WorkerKind::UserWorker), Placement::DedicatedThread);
    let mut s = WorkerStart::begin(WorkerKind::UserWorker, true);
    assert_eq!(s.step(StartEvent::Created { ok: true }), StartAction::HandOver);
    assert_eq!(
        s.step(StartEvent::HandedOver { ok: true }),
        StartAction::SignalBootedAndSupervise
    );
    assert_eq!(s.step(StartEvent::Supervised { ok: true }), StartAction::InitModule);
    assert_eq!(s.step(StartEvent::ModuleInitialized { ok: true }), StartAction::Run);
    assert_eq!(
        s.step(StartEvent::RanToEnd { uncaught: false }),
        StartAction::End {
            exit_with_exception: false,
            send_event: true
        }
    );
}

#[test]
fn failures_end_the_start() {
    let user = || WorkerStart::begin(WorkerKind::UserWorker, false);
    assert_eq!(
        user().step(StartEvent::Created { ok: false }),
        StartAction::FailBoot { signal: true }
    );
    let mut s = user();
    s.step(StartEvent::Created { ok: true });
    assert_eq!(s.step(StartEvent::HandedOver { ok: false }), StartAction::Abandon);
    let mut s = user();
    s.step(StartEvent::Created { ok: true });
    s.step(StartEvent::HandedOver { ok: true });
    assert_eq!(s.step(StartEvent::Supervised { ok: false }), StartAction::EndUnsupervised);
    let mut s = WorkerStart::begin(WorkerKind::MainWorker, true);
    assert_eq!(
        s.step(StartEvent::Created { ok: true }),
        StartAction::SignalBootedAndSupervise
    );
    assert_eq!(s.step(StartEvent::Supervised { ok: false }), StartAction::InitModule);
    assert_eq!(
        s.step(StartEvent::ModuleInitialized { ok: false }),
        StartAction::FailBoot { signal: false }
    );
    let mut s = WorkerStart::begin(WorkerKind::EventsWorker, false);
    s.step(StartEvent::Created { ok: true });
    assert_eq!(s.step(StartEvent::Supervised { ok: true }), StartAction::Run);
    assert_eq!(
        s.step(StartEvent::RunFailed),
        StartAction::End {
            exit_with_exception: true,
            send_event: false
        }
    );
    assert_eq!(spawned(false, true), Spawned::NoThread);
    assert_eq!(spawned(true, false), Spawned::JoinAndForget);
    assert_eq!(spawned(true, true), Spawned::Handles);
}

type Setup = WorkerBuilder<u8, u16, u32, fn(Option<&str>) -> String>;
type Surface = WorkerSurfaceBuilder<u8, u16, u32, fn(Setup) -> Result<Setup, u64>>;

#[test]
fn workers_are_built_from_their_setup() {
    let e = Surface::new().build().unwrap_err();
    assert!(matches!(e, SurfaceError::NoInitOptions));
    assert_eq!(e.message().as_deref(), Some("init_opts must be specified"));
    let (b, eager) = Surface::new().init_opts(1).termination_token(2).build().unwrap();
    assert!(!eager);
    let cx = b.build(WorkerKind::UserWorker, Some("k"));
    assert_eq!(cx.init_opts, 1);
    assert_eq!(cx.flags, WorkerFlags::default());
    assert_eq!(cx.supervisor_policy, SupervisorPolicy::PerWorker);
    assert_eq!((cx.termination_token, cx.inspector), (Some(2), None));
    assert_eq!(cx.worker_name, "sb-iso-k");
    let mut b = Surface::new().eager_module_init(true);
    b.set_init_opts(Some(9));
    b.set_policy(Some(SupervisorPolicy::oneshot()));
    b.set_inspector(Some(3));
    b.set_eager_module_init(false);
    assert!(!b.eager_module_init);
    b.set_eager_module_init(true);
    let flags = WorkerFlags {
        restrict_host_fs: true,
        ..WorkerFlags::default()
    };
    b.set_worker_flags(Some(flags));
    b.set_worker_builder_hook(Some(|mut w: Setup| {
        w.set_worker_naming_fn(Some(|key: Option<&str>| format!("w-{}", key.unwrap_or("?"))));
        Ok(w)
    }));
    let (b, eager) = b.build().unwrap();
    assert!(eager);
    let cx = b.build(WorkerKind::MainWorker, None);
    assert_eq!((cx.init_opts, cx.inspector, cx.flags), (9, Some(3), flags));
    assert_eq!(cx.supervisor_policy, SupervisorPolicy::oneshot());
    assert_eq!(cx.worker_name, "w-?");
    let b = Surface::new().init_opts(1).worker_builder_hook(|_| Err(77)).build();
    let e = b.unwrap_err();
    assert!(matches!(e, SurfaceError::Hook(77)) && e.message().is_none());
}

#[test]
fn boots_are_reported_or_cancelled() {
    assert_eq!(boot_outcome(true, 12, true), BootOutcome::Booted { boot_time_ms: 12 });
    assert_eq!(
        boot_outcome(false, 12, true),
        BootOutcome::Failed {
            cancel_termination: true
        }
    );
}

#[test]
fn budgets_and_limits() {
    assert_eq!(cpu_budget(Some(7), 100, true), 7);
    assert_eq!(cpu_budget(None, 100, true), 100);
    assert_eq!(cpu_budget(None, 100, false), 1);
    assert_eq!(raised_heap_limit(10, 5), 50);
    assert_eq!(strategy_for(SupervisorPolicy::PerWorker), Strategy::PerWorker);
    assert_eq!(
        strategy_for(SupervisorPolicy::oneshot()),
        Strategy::PerRequest { oneshot: true }
    );
}

#[test]
fn waiting_workers_are_told_to_go_on() {
    let mut ids = MessageIds::new();
    assert_eq!(
        unblock_message(ids.next_msg_id(), UnblockStep::EnableDebugger),
        "{\"id\":0,\"method\":\"Debugger.enable\",\"params\":null}"
    );
    assert_eq!(
        unblock_message(ids.next_msg_id(), UnblockStep::RunIfWaiting),
        "{\"id\":1,\"method\":\"Runtime.runIfWaitingForDebugger\",\"params\":null}"
    );
    ids.next = i32::MAX;
    assert_eq!(ids.next_msg_id(), i32::MAX);
    let id = ids.next_msg_id();
    assert_eq!(id, i32::MIN);
    assert!(unblock_message(id, UnblockStep::RunIfWaiting).starts_with("{\"id\":-2147483648,"));
    assert_eq!(debugger_cleanup(true, false, false), DebuggerCleanup::Nothing);
    assert_eq!(debugger_cleanup(false, true, false), DebuggerCleanup::Nothing);
    assert_eq!(debugger_cleanup(false, false, true), DebuggerCleanup::RequestTermination);
    assert_eq!(debugger_cleanup(false, false, false), DebuggerCleanup::RequestAndUnblock);
}

#[test]
fn a_supervisor_reports_the_end_of_its_worker() {
    let stats = IsolateMemoryStats {
        used_heap_size: 100,
        external_memory: 20,
    };
    let (mut s, a) =
        Supervisor::create_supervisor(true, ShutdownReason::CPUTime, 250, false, false, false);
    assert_eq!(a, SupervisorAction::CleanUpDebugger(DebuggerCleanup::RequestAndUnblock));
    assert_eq!(s.debugger_done(), SupervisorAction::AwaitMemoryReport);
    let captured = MemCheckState {
        current: HeapReading {
            malloced: 1,
            used_heap: 2,
            external: 3,
            wasm: 4,
        },
        exceeded: true,
    };
    match s.memory_reported(Some(stats), captured, false) {
        SupervisorAction::Report {
            event,
            request_termination,
        } => {
            assert!(!request_termination);
            assert_eq!(event.reason, ShutdownReason::CPUTime);
            assert_eq!(event.cpu_time_used, 250);
            assert_eq!(
                event.memory_used,
                WorkerMemoryUsed {
                    total: 120,
                    heap: 100,
                    external: 20,
                    mem_check_captured: captured
                }
            );
        }
        other => panic!("{other:?}"),
    }
    let (mut s, a) =
        Supervisor::create_supervisor(false, ShutdownReason::Memory, 0, false, false, false);
    assert_eq!(a, SupervisorAction::AwaitMemoryReport);
    match s.memory_reported(None, captured, false) {
        SupervisorAction::Report {
            event,
            request_termination,
        } => {
            assert!(request_termination);
            assert_eq!(event.memory_used, memory_used(None, captured));
            assert_eq!(event.memory_used.mem_check_captured, MemCheckState::new());
        }
        other => panic!("{other:?}"),
    }
}

#[test]
fn interrupts_raise_flags_while_the_runtime_lives() {
    let mut s = RuntimeState::new();
    handle_beforeunload(&mut s, true);
    handle_drain(&mut s, true);
    assert_eq!(s, RuntimeState::new());
    handle_beforeunload(&mut s, false);
    assert!(s.wall_clock_beforeunload_triggered && !s.drain_triggered);
    handle_drain(&mut s, false);
    assert!(s.drain_triggered);
    assert!(handle_termination(true, true));
    assert!(!handle_termination(false, true) && !handle_termination(true, false));
}

#[test]
fn errors_of_workers_are_translated() {
    let mut store = SourceMapStore::new();
    store.store_source_map(
        "file:///a.js",
        br#"{"version":3,"sources":["m7.ts"],"names":[],"mappings":"AAAA"}"#,
    );
    let lookup = |m: &SourceMap, line: u32, column: u32| {
        Some(MapToken {
            source: m.get_source(0).map(|s| s.to_string()),
            line,
            column,
        })
    };
    assert_eq!(
        apply_source_maps("at file:///a.js:3:4", &store, &lookup),
        "at m7.ts:3:4"
    );
}

#[test]
fn channel_ends_are_taken_once() {
    let mut cx = BaseCx::new(1, "r");
    assert_eq!(cx.take_termination_event_sender(), Ok(1));
    assert_eq!(
        cx.take_termination_event_sender().unwrap_err().message(),
        "termination_event_tx already been consumed"
    );
    assert_eq!(cx.take_termination_event_receiver(), Ok("r"));
    assert_eq!(
        cx.take_termination_event_receiver().unwrap_err().message(),
        "termination_event_rx already been consumed"
    );
}
