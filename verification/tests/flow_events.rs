use flow_edge::bundle_cache::sweep::{CacheEvent, CacheEventAction};
use flow_edge::flow_events::{
    bundle_cache_event, print_inherit, relay_step, write_inherit, Accepted, ClaimReply,
    EventsClaim, EventsError, LogLevel, Output, RawEvent, Relay, RelayAction, RelayInput,
    ShutdownReason, WorkerEvent,
};

type Input = RelayInput<u8, &'static str>;

#[test]
fn the_relay_hands_the_receiver_over_and_takes_it_back() {
    let (s, a) = relay_step(Relay::Draining(7u8), Input::Event("e1"));
    assert!(matches!(a, RelayAction::Print("e1")));
    let (s, a) = relay_step(s, Input::Claim);
    assert!(matches!(a, RelayAction::HandOver(7)));
    assert!(matches!(s, Relay::Claimed));
    let (s, a) = relay_step(s, Input::Claim);
    assert!(matches!(a, RelayAction::Refuse));
    let (s, a) = relay_step(s, Input::Release(7));
    assert!(matches!(a, RelayAction::Nothing));
    assert!(matches!(s, Relay::Draining(7)));
}

#[test]
fn a_claimer_that_went_away_gives_the_receiver_back() {
    let (s, _) = relay_step(Relay::Draining(7u8), Input::Claim);
    let (s, _) = relay_step(s, Input::Unsent(7));
    assert!(matches!(s, Relay::Draining(7)));
}

#[test]
fn the_relay_ends_with_its_channels() {
    let (s, _) = relay_step(Relay::Draining(7u8), Input::CommandsClosed);
    assert!(matches!(s, Relay::DrainingForGood(7)));
    let (s, a) = relay_step(s, Input::Event("late"));
    assert!(matches!(a, RelayAction::Print("late")));
    let (s, a) = relay_step(s, Input::EventsClosed);
    assert!(matches!((s, a), (Relay::Stopped, RelayAction::Stop)));
    let (s, a) = relay_step(Relay::<u8>::Claimed, Input::CommandsClosed);
    assert!(matches!((s, a), (Relay::Stopped, RelayAction::Stop)));
    let (s, a) = relay_step(Relay::Draining(7u8), Input::EventsClosed);
    assert!(matches!((s, a), (Relay::Stopped, RelayAction::Stop)));
}

#[test]
fn a_consumer_claims_accepts_and_releases() {
    let mut c: EventsClaim<u8> = EventsClaim::new();
    assert_eq!(c.begin_accept().unwrap_err(), EventsError::NotClaimed);
    assert_eq!(c.claim(ClaimReply::NoRelay).unwrap_err(), EventsError::NotAvailable);
    assert_eq!(c.claim(ClaimReply::RelayGone).unwrap_err(), EventsError::Gone);
    assert_eq!(
        c.claim(ClaimReply::Answer(None)).unwrap_err().message(),
        "FlowRuntime.events is already claimed by another consumer"
    );
    c.claim(ClaimReply::Answer(Some(7))).unwrap();
    assert!(c.cancellable);
    let rx = c.begin_accept().unwrap();
    // A second wait while one is pending fails loudly.
    assert_eq!(
        c.begin_accept().unwrap_err().message(),
        "FlowRuntime.events is not claimed (or another accept is pending)"
    );
    assert!(matches!(c.end_accept(rx, Accepted::Event("e")), RawEvent::Event("e")));
    let rx = c.begin_accept().unwrap();
    assert!(matches!(c.end_accept::<&str>(rx, Accepted::Cancelled), RawEvent::Done));
    let rx = c.begin_accept().unwrap();
    assert!(matches!(c.end_accept::<&str>(rx, Accepted::Closed), RawEvent::Done));
    assert_eq!(c.release(), Some(7));
    assert_eq!(c.release(), None);
    assert!(!c.cancellable);
    assert_eq!(EventsError::Gone.message(), "flow events relay is gone");
    assert_eq!(EventsError::NotAvailable.message(), "flow events relay is not available");
}

#[test]
fn output_goes_where_a_child_process_would_send_it() {
    let log = |level, msg: &str| WorkerEvent::Log {
        level,
        msg: msg.to_string(),
    };
    assert_eq!(
        print_inherit(&log(LogLevel::Info, "hi\n")),
        Some((Output::Stdout, "hi\n".to_string()))
    );
    assert_eq!(
        print_inherit(&log(LogLevel::Debug, "hi")),
        Some((Output::Stdout, "hi\n".to_string()))
    );
    assert_eq!(
        print_inherit(&log(LogLevel::Warning, "")),
        Some((Output::Stderr, "\n".to_string()))
    );
    assert_eq!(
        print_inherit(&log(LogLevel::Error, "no")),
        Some((Output::Stderr, "no\n".to_string()))
    );
    assert_eq!(
        print_inherit(&WorkerEvent::BootFailure { msg: "x".to_string() }),
        Some((Output::Stderr, "flow: worker boot failure: x\n".to_string()))
    );
    assert_eq!(
        print_inherit(&WorkerEvent::UncaughtException {
            exception: "Error: y".to_string(),
            cpu_time_used: 0
        }),
        Some((Output::Stderr, "Error: y\n".to_string()))
    );
    assert_eq!(print_inherit(&WorkerEvent::Boot { boot_time: 3 }), None);
    assert_eq!(
        print_inherit(&WorkerEvent::Shutdown {
            reason: ShutdownReason::EarlyDrop,
            cpu_time_used: 0
        }),
        None
    );
    assert_eq!(write_inherit("a\nb"), "a\nb\n");
}

#[test]
fn cache_notices_become_events() {
    let notice = |action| CacheEvent {
        action,
        cache_key: Some("k".to_string()),
        path: None,
        bytes: 1,
        total_bytes: 2,
        max_bytes: Some(3),
    };
    for (action, name) in [
        (CacheEventAction::Evicted, "evicted"),
        (CacheEventAction::OverCap, "overCap"),
        (CacheEventAction::Sweep, "sweep"),
    ] {
        match bundle_cache_event(notice(action)) {
            WorkerEvent::BundleCache(e) => {
                assert_eq!(e.action, name);
                assert_eq!(e.cache_key.as_deref(), Some("k"));
                assert_eq!((e.bytes, e.total_bytes, e.max_bytes), (1, 2, Some(3)));
            }
            other => panic!("{other:?}"),
        }
    }
}
