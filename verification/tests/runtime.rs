use flow_edge::byte_path::BytePath;
use flow_edge::deno_options::CacheSetting;
use flow_edge::lifecycle::{IsolateLifecycle, RuntimeState};
use flow_edge::flow_config::RuntimeCells;
use flow_edge::runtime::boot::{
    archived_main, beforeunload_cpu_threshold, choose_main_module, compile_base_dir,
    disables_fs_fallback, embed_extension_sources, has_unrecognized_flags, lacks_entrypoint,
    plan_boot, service_directory, set_v8_flags, should_block_fs, source_root, uses_virtual_fs,
    ArchivedMain, BootRequest, DenoRuntime, EmbeddedSource, Entrypoint, ExtensionCode,
    ExtensionFile, MainLoad, MainModule,
};
use flow_edge::runtime::event_loop::{
    after_failed_dispatch, dispatch_beforeunload_event, dispatch_drain_event, dispatch_load_event,
    dispatch_unload_event, waits_for_inspector, Dispatch, EventLoop, HandlerCall, HandlerThrew,
    LoopPoll, PollFacts, ScriptPoll, Stage, WillTerminateReason,
};
use flow_edge::runtime::memory::{
    check_before_collection, reuses_timer, CpuAccount, HeapReading, MemCheck,
};
use flow_edge::runtime::run::{
    Run, RunAction, RunEvent, RunFacts, RunOptionsBuilder, RunResult, RunStage,
};

#[test]
fn entry_points_resolve_to_urls() {
    let none = vec![false; 5];
    let url = |e: &str| match choose_main_module(Some(e), true, "/srv", &none) {
        Ok(MainModule::Url(u)) => u,
        other => panic!("{other:?}"),
    };
    assert_eq!(url("worker/index.ts"), "file:///srv/worker/index.ts");
    assert_eq!(url("file:///srv/worker/index.ts"), "file:///srv/worker/index.ts");
    assert_eq!(url("https://x/y.ts"), "https://x/y.ts");
    let e = choose_main_module(Some("a.ts"), false, "srv", &none).unwrap_err();
    assert_eq!(e.message(), "failed to convert entrypoint to file URL: srv/a.ts");
}

#[test]
fn without_an_entry_point_the_directory_is_searched() {
    let none = vec![false; 5];
    assert!(matches!(choose_main_module(None, true, "/srv", &vec![true; 5]), Ok(MainModule::Code)));
    let some = vec![false, false, true, true, false];
    assert!(matches!(
        choose_main_module(None, false, "/srv", &some),
        Ok(MainModule::Index(n)) if n == "index.js"
    ));
    let dir = choose_main_module(None, false, "/srv", &none).unwrap();
    assert!(matches!(dir, MainModule::Directory));
    assert!(lacks_entrypoint(&dir, false));
    assert!(!lacks_entrypoint(&dir, true));
    assert!(!lacks_entrypoint(&MainModule::Code, false));
    assert_eq!(service_directory("app", "/srv", None), "/srv/app");
    assert_eq!(service_directory("/app", "/srv", None), "/app");
    assert_eq!(service_directory("app", "/srv", Some("/real/app")), "/real/app");
    assert!(matches!(
        archived_main(Some("k".into()), Some("e".into())),
        Some(ArchivedMain::Key(k)) if k == "k"
    ));
    assert!(matches!(
        archived_main(None, Some("e".into())),
        Some(ArchivedMain::Entrypoint(e)) if e == "e"
    ));
    assert!(archived_main(None, None).is_none());
}

#[test]
fn the_host_is_blocked_unless_allowed() {
    assert_eq!(should_block_fs(None, false).unwrap(), true);
    assert_eq!(should_block_fs(None, true).unwrap(), true);
    assert_eq!(should_block_fs(Some(false), true).unwrap(), true);
    assert_eq!(should_block_fs(Some(true), false).unwrap(), false);
    assert_eq!(
        should_block_fs(Some(true), true).unwrap_err().message(),
        "allowHostFsAccess cannot be enabled when restrict_host_fs is set"
    );
    assert!(disables_fs_fallback(true, false) && !disables_fs_fallback(false, false));
    assert!(uses_virtual_fs(false, true, false) && !uses_virtual_fs(false, false, false));
}

#[test]
fn the_source_root_mirrors_the_depth_of_the_main_module() {
    let root = &BytePath::of_text("/var/tmp/sb-compile-trex");
    let url = |path: &str| format!("file:///var/tmp/sb-compile-trex/{path}");
    assert_eq!(source_root(&url("a/b/main.ts"), root, "/home/me/a/b").unwrap(), "/home/me");
    assert_eq!(source_root(&url("main.ts"), root, "/home/me").unwrap(), "/home/me");
    assert!(source_root("file:///elsewhere/main.ts", root, "/home/me").is_none());
    assert!(source_root(&url("a/b/c.ts"), root, "/x").is_none());
    assert!(source_root("https://host/main.ts", root, "/x").is_none());
    let base = |has_key, has_entrypoint, root, main| {
        compile_base_dir(has_key, has_entrypoint, root, main)
            .map(|p| p.bytes())
            .map_err(|e| e.message(""))
    };
    let main = "file:///m/main.ts";
    assert_eq!(base(false, true, "file:///r", main).unwrap(), b"/r");
    assert_eq!(base(true, true, "file:///r", main).unwrap(), b"/m");
    assert_eq!(base(false, false, "file:///r", main).unwrap(), b"/m");
    assert_eq!(base(false, true, "file:///r%FF", main).unwrap(), b"/r\xff");
    assert_eq!(
        base(false, true, "https://host/r", main).unwrap_err(),
        "failed to resolve base url"
    );
    assert_eq!(
        base(true, false, "file:///r", "https://host/m.ts").unwrap_err(),
        "failed to resolve base dir using main module url"
    );
    assert_eq!(
        base(true, false, "file:///r", "file:///").unwrap_err(),
        "failed to determine parent directory"
    );
    assert_eq!(beforeunload_cpu_threshold(100, Some(90)), Some(90));
    assert_eq!(beforeunload_cpu_threshold(0, Some(90)), None);
}

#[test]
fn engine_flags_are_put_together() {
    assert!(set_v8_flags("", false).is_none());
    assert_eq!(set_v8_flags("--a --b", false).unwrap(), ["", "--a", "--b"]);
    assert_eq!(
        set_v8_flags("", true).unwrap(),
        ["", "--trace-gc", "--trace-gc-verbose", "--trace-gc-object-stats"]
    );
    assert_eq!(set_v8_flags(" x", false).unwrap(), ["", "", "x"]);
    assert_eq!(set_v8_flags("--z", true).unwrap().len(), 5);
    assert!(!has_unrecognized_flags(&vec![String::new()]));
    assert!(has_unrecognized_flags(&vec!["--z".to_string()]));
    assert!(has_unrecognized_flags(&vec![String::new(), "--z".to_string()]));
    assert!(has_unrecognized_flags(&vec![]));
}

#[test]
fn embedded_sources_replace_files() {
    let file = |s: &str| ExtensionFile {
        specifier: s.to_string(),
        code: ExtensionCode::LoadedFromFs(format!("/build/{s}")),
    };
    let mut files = vec![file("a.js"), file("b.js")];
    let sources = vec![EmbeddedSource {
        specifier: "b.js".to_string(),
        source: "B".to_string(),
    }];
    embed_extension_sources(&mut files, &sources);
    assert!(matches!(&files[0].code, ExtensionCode::LoadedFromFs(p) if p == "/build/a.js"));
    assert!(matches!(&files[1].code, ExtensionCode::Included(s) if s == "B"));
    assert_eq!(files[1].specifier, "b.js");
}

#[test]
fn memory_is_added_up_and_the_limit_latches() {
    let r = |used| HeapReading {
        malloced: 1000,
        used_heap: used,
        external: 20,
        wasm: 3,
    };
    let mut m = MemCheck::new(Some(100));
    assert_eq!(m.check(r(10), false), 33);
    assert!(!m.is_exceeded());
    assert_eq!(m.current, r(10));
    assert_eq!(m.check(r(77), false), 100);
    assert!(m.is_exceeded());
    assert_eq!(m.check(r(5), false), 28);
    assert!(m.is_exceeded());
    assert_eq!(m.current, r(77));
    assert_eq!(m.check(r(5), true), 1028);
    assert_eq!(m.check(r(usize::MAX), false), usize::MAX);
    let mut free = MemCheck::new(None);
    assert_eq!(free.check(r(5), true), 0);
    assert!(!free.is_exceeded());
}

#[test]
fn processor_time_is_added_up() {
    let mut a = CpuAccount::new();
    let u = a.leave(100, Some(1_500_100), 700_000);
    assert_eq!((u.diff, u.accumulated), (1_500_000, 2_200_000));
    assert_eq!(a.millis(), 2);
    let u = a.leave(100, None, 0);
    assert_eq!((u.diff, u.accumulated), (0, 2_200_000));
    a.leave(0, Some(-3_700_000), 0);
    assert_eq!(a.millis(), -1);
    a.accumulated_ns = i64::MIN;
    assert_eq!(a.millis(), i64::MIN / 1_000_000);
    assert!(reuses_timer(Some(1), 1) && !reuses_timer(Some(1), 2) && !reuses_timer(None, 1));
}

fn event_loop() -> EventLoop {
    EventLoop {
        state: RuntimeState::new(),
        cpu_threshold_ms: Some(5),
        memory_threshold_bytes: Some(50),
        memory_limit: Some(100),
    }
}

fn facts(cpu_ns: i64, bytes: usize) -> PollFacts {
    PollFacts {
        accumulated_cpu_ns: cpu_ns,
        memory_bytes: bytes,
        memory_exceeded: false,
    }
}

#[test]
fn workers_are_warned_once() {
    let mut l = event_loop();
    assert_eq!(l.check(Stage::Cpu, facts(4_999_999, 0)), None);
    assert_eq!(
        l.check(Stage::Cpu, facts(5_000_000, 0)),
        Some(Dispatch::BeforeUnload(WillTerminateReason::CPU))
    );
    assert_eq!(l.check(Stage::Cpu, facts(9_000_000, 0)), None);
    assert_eq!(l.check(Stage::Memory, facts(0, 49)), None);
    assert!(!l.state.mem_reached_half);
    assert_eq!(
        l.check(Stage::Memory, facts(0, 50)),
        Some(Dispatch::BeforeUnload(WillTerminateReason::Memory))
    );
    assert!(l.state.mem_reached_half);
    assert_eq!(l.check(Stage::Memory, facts(0, 60)), None);
    assert_eq!(l.check(Stage::WallClock, facts(0, 0)), None);
    l.state.wall_clock_beforeunload_triggered = true;
    assert_eq!(
        l.check(Stage::WallClock, facts(0, 0)),
        Some(Dispatch::BeforeUnload(WillTerminateReason::WallClock))
    );
    assert_eq!(l.check(Stage::WallClock, facts(0, 0)), None);
    l.state.drain_triggered = true;
    assert_eq!(l.check(Stage::Drain, facts(0, 0)), Some(Dispatch::Drain));
    assert_eq!(l.check(Stage::Drain, facts(0, 0)), None);
}

#[test]
fn terminated_workers_are_left_alone() {
    let mut l = event_loop();
    l.state.terminated = true;
    l.state.drain_triggered = true;
    assert_eq!(l.check(Stage::Cpu, facts(i64::MAX, 0)), None);
    assert_eq!(l.cpu_threshold_ms, None);
    assert_eq!(l.check(Stage::Drain, facts(0, 0)), None);
    assert!(!l.state.drain_triggered);
    let mut l = event_loop();
    let over = PollFacts {
        memory_exceeded: true,
        ..facts(0, 100)
    };
    assert_eq!(l.check(Stage::Memory, over), None);
    assert_eq!(l.memory_threshold_bytes, None);
    assert_eq!(after_failed_dispatch(true), LoopPoll::ExecutionTerminated);
    assert_eq!(after_failed_dispatch(false), LoopPoll::Failed);
}

#[test]
fn polls_end_by_what_the_script_and_the_supervisor_say() {
    let mut l = event_loop();
    assert_eq!(l.finish_poll(false, ScriptPoll::Pending, true, true), LoopPoll::Pending);
    assert_eq!(l.finish_poll(true, ScriptPoll::Pending, false, true), LoopPoll::Pending);
    assert_eq!(l.finish_poll(true, ScriptPoll::Pending, true, true), LoopPoll::Ended);
    l.state.evaluating_mod = true;
    assert_eq!(
        l.finish_poll(true, ScriptPoll::Pending, true, true),
        LoopPoll::ExecutionTerminated
    );
    assert_eq!(l.finish_poll(true, ScriptPoll::Failed, true, true), LoopPoll::Failed);
    assert!(!l.state.event_loop_completed);
    assert_eq!(l.finish_poll(true, ScriptPoll::Done, false, true), LoopPoll::Pending);
    assert!(l.state.event_loop_completed);
    assert_eq!(l.finish_poll(true, ScriptPoll::Done, true, true), LoopPoll::Ended);
    assert_eq!(l.finish_poll(true, ScriptPoll::Done, false, false), LoopPoll::Ended);
    assert!(waits_for_inspector(true, false, false, false, true));
    assert!(!waits_for_inspector(true, false, true, true, true));
    assert!(!waits_for_inspector(true, true, false, true, true));
    assert!(!waits_for_inspector(true, false, false, false, false));
    assert!(!waits_for_inspector(false, false, false, true, true));
}

#[test]
fn reasons_have_names() {
    let names = [
        (WillTerminateReason::CPU, "cpu"),
        (WillTerminateReason::Memory, "memory"),
        (WillTerminateReason::WallClock, "wall_clock"),
        (WillTerminateReason::EarlyDrop, "early_drop"),
        (WillTerminateReason::Termination, "termination"),
    ];
    for (reason, name) in names {
        assert_eq!(reason.as_str(), name);
    }
}

#[test]
fn a_run_goes_through_its_stages() {
    let facts = RunFacts {
        has_inspector: true,
        termination_requested: false,
        promises_settled: false,
    };
    let mut r = Run::begin(RuntimeState::new());
    assert!(r.state.init);
    assert_eq!(r.step(RunEvent::Loaded { has_id: true }, facts), RunAction::WaitForInspector);
    assert_eq!(r.step(RunEvent::InspectorReady, facts), RunAction::Evaluate);
    assert!(r.state.found_inspector_session && r.state.evaluating_mod);
    assert_eq!(r.step(RunEvent::Evaluated, facts), RunAction::DispatchLoadEvent);
    assert!(r.state.evaluating_mod);
    assert_eq!(r.step(RunEvent::LoadEventDispatched, facts), RunAction::RunEventLoop);
    assert!(!r.state.init && !r.state.evaluating_mod);
    assert_eq!(
        r.step(RunEvent::LoopEnded, facts),
        RunAction::Return {
            result: RunResult::Success,
            counts_cpu: true
        }
    );
    assert!(r.state.terminated);
    assert_eq!(r.stage, RunStage::Finished);
}

#[test]
fn a_run_ends_early_where_it_must() {
    let facts = RunFacts {
        has_inspector: false,
        termination_requested: false,
        promises_settled: true,
    };
    let ret = |result, counts_cpu| RunAction::Return { result, counts_cpu };
    let begin = || Run::begin(RuntimeState::new());
    assert_eq!(begin().step(RunEvent::LoadFailed, facts), ret(RunResult::LoadFailed, false));
    assert_eq!(
        begin().step(RunEvent::Loaded { has_id: false }, facts),
        ret(RunResult::NoModuleId, false)
    );
    let mut r = begin();
    assert_eq!(r.step(RunEvent::Loaded { has_id: true }, facts), RunAction::Evaluate);
    r.state.event_loop_completed = true;
    assert_eq!(r.step(RunEvent::Evaluated, facts), ret(RunResult::Success, true));
    let mut r = begin();
    r.step(RunEvent::Loaded { has_id: true }, facts);
    assert_eq!(r.step(RunEvent::EvaluationFailed, facts), ret(RunResult::EvaluationFailed, true));
    let mut r = begin();
    r.step(RunEvent::Loaded { has_id: true }, facts);
    let ending = RunFacts {
        termination_requested: true,
        ..facts
    };
    assert_eq!(r.step(RunEvent::Evaluated, ending), RunAction::RunEventLoop);
    assert_eq!(r.step(RunEvent::LoopFailed, ending), ret(RunResult::LoopFailed, true));
    let mut r = begin();
    let debugged = RunFacts {
        has_inspector: true,
        ..ending
    };
    r.step(RunEvent::Loaded { has_id: true }, debugged);
    assert_eq!(r.step(RunEvent::InspectorReady, debugged), ret(RunResult::Success, false));
    let o = RunOptionsBuilder::<u8>::new().build();
    assert!(o.wait_termination_request_token && o.maybe_cpu_usage_metrics_tx.is_none());
    let o = RunOptionsBuilder::new()
        .wait_termination_request_token(false)
        .cpu_usage_metrics_tx(Some(7))
        .build();
    assert!(!o.wait_termination_request_token);
    assert_eq!(o.maybe_cpu_usage_metrics_tx, Some(7));
}

fn request() -> BootRequest {
    BootRequest {
        directory: "/srv".to_string(),
        has_archive: false,
        entrypoint: None,
        has_module_code: true,
        no_module_cache: false,
        no_npm: None,
        import_map_path: None,
        unstable_sloppy_imports: None,
        allow_remote_modules: true,
        static_patterns: vec![],
        has_inspector: false,
        cells: RuntimeCells {
            disable_deprecated_api_warning: None,
            verbose_deprecated_api_warning: None,
            include_malloced_memory: None,
            default_memory_limit_mib: None,
        },
        source_map: None,
        allow_host_fs_access: None,
        restrict_host_fs: false,
        key: None,
        has_parent_port: true,
        cpu_time_hard_limit_ms: 0,
        cpu_share_ms: Some(5),
        memory_share_bytes: Some(6),
        s3_mounts: vec![],
        http_mounts: vec![],
    }
}

#[test]
fn runtimes_are_put_together_as_asked() {
    let p = plan_boot(&request()).unwrap();
    assert!(p.makes_archive && p.from_code && p.blocks_fs && p.disable_fs_fallback);
    assert!(!p.include_source_map && p.installs_parent_port && !p.receives_ports);
    assert_eq!(p.cache, CacheSetting::Use);
    assert_eq!((p.cpu_threshold_ms, p.memory_threshold_bytes), (None, Some(6)));
    assert_eq!(p.execution_id, "");
    let p = plan_boot(&BootRequest {
        has_archive: true,
        no_module_cache: true,
        source_map: Some(true),
        allow_host_fs_access: Some(true),
        key: Some("k".to_string()),
        cpu_time_hard_limit_ms: 9,
        ..request()
    })
    .unwrap();
    assert!(!p.makes_archive && !p.from_code && !p.blocks_fs && !p.disable_fs_fallback);
    assert!(p.include_source_map && p.receives_ports);
    assert_eq!(p.cache, CacheSetting::ReloadAll);
    assert_eq!(p.cpu_threshold_ms, Some(5));
    assert_eq!(p.execution_id, "k");
    assert!(plan_boot(&BootRequest {
        allow_host_fs_access: Some(true),
        restrict_host_fs: true,
        ..request()
    })
    .is_err());
}

#[test]
fn the_main_module_is_loaded_once() {
    let code = Entrypoint::ModuleCode("code".to_string());
    let mut r = DenoRuntime::unloaded("file:///m.ts".to_string(), Some(code));
    assert_eq!(r.main_module_url(), "file:///m.ts");
    assert_eq!(r.inspector_target(None), "file:///m.ts");
    assert_eq!(r.inspector_target(Some("worker:1".to_string())), "worker:1");
    assert!(matches!(r.init_main_module(), Some(MainLoad::Code(c)) if c == "code"));
    assert!(matches!(r.init_main_module(), Some(MainLoad::Url)));
    r.set_main_module_id(3);
    assert!(r.init_main_module().is_none());
    let mut r = DenoRuntime::unloaded("u".to_string(), Some(Entrypoint::Key("k".to_string())));
    assert!(matches!(r.init_main_module(), Some(MainLoad::Url)));
}

#[test]
fn handlers_fail_by_throwing() {
    let quiet = HandlerCall {
        caught: false,
        terminated: false,
        has_exception: false,
        returned_false: None,
    };
    let threw = HandlerCall {
        caught: true,
        has_exception: true,
        ..quiet
    };
    let cut = HandlerCall {
        terminated: true,
        returned_false: Some(true),
        ..threw
    };
    for dispatch in [dispatch_load_event, dispatch_unload_event, dispatch_drain_event] {
        assert_eq!(dispatch(quiet), Ok(()));
        assert_eq!(dispatch(threw), Err(HandlerThrew));
        assert_eq!(dispatch(cut), Ok(()));
    }
    assert_eq!(dispatch_beforeunload_event(quiet), Ok(false));
    assert_eq!(dispatch_beforeunload_event(threw), Err(HandlerThrew));
    assert_eq!(dispatch_beforeunload_event(cut), Ok(false));
    let answered = |v| HandlerCall {
        returned_false: Some(v),
        ..quiet
    };
    assert_eq!(dispatch_beforeunload_event(answered(true)), Ok(true));
    assert_eq!(dispatch_beforeunload_event(answered(false)), Ok(false));
}

#[test]
fn dropped_isolates_are_not_checked() {
    let reading = HeapReading {
        malloced: 0,
        used_heap: 10,
        external: 0,
        wasm: 0,
    };
    let mut life = IsolateLifecycle::new();
    let mut check = MemCheck::new(Some(10));
    assert!(!check_before_collection(&mut life, &mut check, false, reading, false));
    assert!(!check.is_exceeded());
    assert!(check_before_collection(&mut life, &mut check, true, reading, false));
    assert!(check.is_exceeded());
    assert_eq!(life.active_operation_count(), 0);
    life.begin_drop(Vec::new());
    let mut check = MemCheck::new(Some(10));
    assert!(!check_before_collection(&mut life, &mut check, true, reading, false));
    assert!(!check.is_exceeded());
}

#[test]
fn checks_follow_one_another() {
    let mut order = vec![Stage::first()];
    while let Some(next) = order[order.len() - 1].next() {
        order.push(next);
    }
    assert_eq!(order, [Stage::Cpu, Stage::Memory, Stage::WallClock, Stage::Drain]);
}
