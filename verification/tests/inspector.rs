use flow_edge::inspector::{
    find_session_target, host_and_port, pump_starts, pump_step, requested_host, route, target_id,
    Disconnect, GenerationCounter, InspectorInfo, InspectorOption, PumpAction, PumpEvent,
    Registered, Route, SessionError, Targets, Inspector, SessionWait
};
use uuid::Uuid;

fn make_info(url: &str, generations: &mut GenerationCounter) -> InspectorInfo {
    InspectorInfo::new(
        "127.0.0.1:9229".to_string(),
        None,
        url.to_string(),
        false,
        generations,
    )
}

#[test]
fn v5_uuid_is_stable_for_same_url() {
    let mut g = GenerationCounter::new();
    let a = make_info("file:///main.ts", &mut g);
    let b = make_info("file:///main.ts", &mut g);
    assert_eq!(a.uuid, b.uuid);
    assert_eq!(
        a.uuid,
        Uuid::new_v5(&Uuid::NAMESPACE_URL, b"file:///main.ts").as_u128()
    );
}

#[test]
fn v5_uuid_differs_for_different_urls() {
    let mut g = GenerationCounter::new();
    let a = make_info("file:///a.ts", &mut g);
    let b = make_info("file:///b.ts", &mut g);
    assert_ne!(a.uuid, b.uuid);
}

#[test]
fn generations_are_monotonic() {
    let mut g = GenerationCounter::new();
    let a = make_info("file:///gen.ts", &mut g);
    let b = make_info("file:///gen.ts", &mut g);
    assert!(
        b.generation > a.generation,
        "{} > {}",
        b.generation,
        a.generation
    );
}

#[test]
fn force_disconnect_fires_watch_for_matching_generation() {
    let mut g = GenerationCounter::new();
    let mut targets = Targets::new();
    let url = "file:///force-match.ts";
    let info = make_info(url, &mut g);
    let generation = info.generation;
    assert!(matches!(targets.register(info, false), Registered::First));
    assert!(!targets.infos[0].deregistered);
    assert_eq!(
        targets.force_disconnect(target_id(url), generation),
        Disconnect::Fired
    );
    assert!(targets.infos[0].deregistered);
}

#[test]
fn force_disconnect_ignores_stale_generation() {
    let mut g = GenerationCounter::new();
    let mut targets = Targets::new();
    let url = "file:///race.ts";
    let a = make_info(url, &mut g);
    let gen_a = a.generation;
    targets.register(a, true);
    let b = make_info(url, &mut g);
    let gen_b = b.generation;
    match targets.register(b, true) {
        Registered::Replaced(prev) => assert!(prev.deregistered && prev.generation == gen_a),
        Registered::First => panic!("the target was there"),
    }
    assert_ne!(gen_a, gen_b);
    assert_eq!(
        targets.force_disconnect(target_id(url), gen_a),
        Disconnect::Stale
    );
    assert!(!targets.infos[0].deregistered);
    assert_eq!(
        targets.force_disconnect(target_id("file:///other.ts"), gen_a),
        Disconnect::Unknown
    );
}

#[test]
fn json_endpoint_returns_uuid_and_ws_url() {
    let mut g = GenerationCounter::new();
    let url = "file:///json.ts";
    let info = make_info(url, &mut g);
    let expected_uuid = Uuid::new_v5(&Uuid::NAMESPACE_URL, url.as_bytes());
    let entry = info.get_json_metadata(None, 42);
    assert_eq!(entry.id, expected_uuid.to_string());
    assert!(entry
        .web_socket_debugger_url
        .ends_with(&expected_uuid.to_string()));
    assert_eq!(
        entry.web_socket_debugger_url,
        format!("ws://127.0.0.1:9229/ws/{expected_uuid}")
    );
    assert_eq!(
        entry.devtools_frontend_url,
        format!(
            "devtools://devtools/bundled/js_app.html?ws=127.0.0.1:9229/ws/{expected_uuid}&experiments=true&v8only=true"
        )
    );
    assert_eq!(entry.title, "FlowRuntime [pid: 42]");
    assert_eq!(entry.target_type, "node");
    assert_eq!(entry.description, "FlowRuntime");
    assert_eq!(entry.url, url);
    let named = InspectorInfo {
        thread_name: Some("w1".to_string()),
        ..info
    };
    assert_eq!(named.get_title(7), "FlowRuntime - w1 [pid: 7]");
    assert_eq!(
        named.get_json_metadata(Some("example.com"), 7).web_socket_debugger_url,
        format!("ws://example.com/ws/{expected_uuid}")
    );
}

#[test]
fn a_written_identifier_leads_back_to_its_target() {
    let mut g = GenerationCounter::new();
    let mut targets = Targets::new();
    targets.register(make_info("file:///a.ts", &mut g), false);
    targets.register(make_info("file:///b.ts", &mut g), false);
    let id = Uuid::from_u128(targets.infos[1].uuid).to_string();
    assert_eq!(find_session_target(&id, &targets).unwrap(), 1);
    assert_eq!(
        find_session_target("nonsense", &targets).unwrap_err(),
        SessionError::Malformed
    );
    let stranger = Uuid::from_u128(5).to_string();
    let e = find_session_target(&stranger, &targets).unwrap_err();
    assert_eq!(e, SessionError::Unknown);
    assert_eq!(e.status(), 404);
    assert_eq!(e.message(), "Invalid inspector UUID");
    assert_eq!(SessionError::Malformed.status(), 400);
    assert_eq!(SessionError::NotAWebSocket.message(), "Not a valid Websocket Request");
}

#[test]
fn deregistered_targets_are_gone() {
    let mut g = GenerationCounter::new();
    let mut targets = Targets::new();
    targets.register(make_info("file:///a.ts", &mut g), false);
    let id = targets.infos[0].uuid;
    let gone = targets.deregister(id).unwrap();
    assert!(gone.deregistered);
    assert!(targets.infos.is_empty());
    assert!(targets.deregister(id).is_none());
}

#[test]
fn requests_are_routed_by_path() {
    assert!(matches!(route(true, "/json/version"), Route::Version));
    assert!(matches!(route(true, "/json"), Route::List));
    assert!(matches!(route(true, "/json/list"), Route::List));
    assert!(matches!(route(true, "/"), Route::NotFound));
    assert!(matches!(route(false, "/json"), Route::NotFound));
    match route(true, "/ws/abc") {
        Route::Session(rest) => assert_eq!(rest, "abc"),
        other => panic!("{other:?}"),
    }
}

#[test]
fn host_headers_become_addresses() {
    assert_eq!(requested_host("localhost:9229").unwrap(), "localhost:9229");
    assert_eq!(requested_host("LOCALHOST").unwrap(), "localhost");
    assert_eq!(requested_host("example.com:80").unwrap(), "example.com");
    assert!(requested_host("not a host").is_none());
    assert!(host_and_port(None, Some(1)).is_none());
}

#[test]
fn options_know_whether_to_wait() {
    let o = InspectorOption::Inspect("127.0.0.1:1");
    assert_eq!(*o.socket_addr(), "127.0.0.1:1");
    assert!(!o.should_wait_for_session());
    assert!(InspectorOption::WithBreak(0u8).should_wait_for_session());
    assert!(InspectorOption::WithWait(0u8).should_wait_for_session());
}

#[test]
fn sessions_are_relayed_until_one_side_leaves() {
    assert!(matches!(pump_starts(true), PumpAction::Close { by_server: true }));
    assert!(matches!(pump_starts(false), PumpAction::Nothing));
    match pump_step(PumpEvent::Outbound("m".to_string())) {
        PumpAction::SendToClient(m) => assert_eq!(m, "m"),
        other => panic!("{other:?}"),
    }
    match pump_step(PumpEvent::ClientText(b"hi".to_vec())) {
        PumpAction::SendToWorker(m) => assert_eq!(m, "hi"),
        other => panic!("{other:?}"),
    }
    assert!(matches!(
        pump_step(PumpEvent::ClientText(vec![0xff])),
        PumpAction::Nothing
    ));
    assert!(matches!(
        pump_step(PumpEvent::WorkerGone),
        PumpAction::Close { by_server: true }
    ));
    assert!(matches!(
        pump_step(PumpEvent::ClientClosed),
        PumpAction::Close { by_server: false }
    ));
    assert!(matches!(
        pump_step(PumpEvent::Tick { deregistered: true }),
        PumpAction::Close { by_server: true }
    ));
    assert!(matches!(
        pump_step(PumpEvent::Tick { deregistered: false }),
        PumpAction::Nothing
    ));
}

#[test]
fn inspectors_know_their_registration() {
    let mut i = Inspector::with_option(InspectorOption::WithBreak(9229));
    assert_eq!(i.generation(), 0);
    i.set_generation(4);
    assert_eq!(i.generation(), 4);
    assert!(i.should_wait_for_session());
    assert_eq!(i.wait_for_inspector_session(), SessionWait::AttachAndBreak);
    let w = Inspector::with_option(InspectorOption::WithWait(1));
    assert_eq!(w.wait_for_inspector_session(), SessionWait::Attach);
    let p = Inspector::with_option(InspectorOption::Inspect(1));
    assert_eq!(p.wait_for_inspector_session(), SessionWait::Skip);
    assert!(!p.should_wait_for_session());
}
