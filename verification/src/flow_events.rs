//! The worker event stream. A relay holds the receiver and prints what arrives, until a single
//! consumer claims it; when the consumer lets go, the relay takes it back.

use vstd::prelude::*;

use crate::bundle_cache::sweep::{opt_view, CacheEvent, CacheEventAction};
use crate::text::{finishes_with, join};

verus! {

// ---------------------------------------------------------------------------
// The relay
// ---------------------------------------------------------------------------

/// Who holds the receiver `R` of the event channel.
pub enum Relay<R> {
    /// The relay, which prints what arrives.
    Draining(R),
    /// A consumer; the relay only answers commands.
    Claimed,
    /// The relay, and no consumer can appear any more.
    DrainingForGood(R),
    /// Nobody: the relay has ended.
    Stopped,
}

/// What the relay is told.
pub enum RelayInput<R, E> {
    /// A consumer asks for the receiver.
    Claim,
    /// The consumer that the receiver was handed to is gone; here it is again.
    Unsent(R),
    /// The consumer gives the receiver back.
    Release(R),
    /// No further command can come.
    CommandsClosed,
    /// An event arrived on the receiver that the relay holds.
    Event(E),
    /// The channel of the receiver that the relay holds is closed.
    EventsClosed,
}

/// What the relay does.
pub enum RelayAction<R, E> {
    Nothing,
    /// Hand the receiver to the consumer that asked.
    HandOver(R),
    /// Tell the consumer that asked that another one holds the stream.
    Refuse,
    /// Print the event.
    Print(E),
    /// End.
    Stop,
}

pub open spec fn relay_next<R, E>(s: Relay<R>, i: RelayInput<R, E>) -> Relay<R> {
    match (s, i) {
        (Relay::Draining(rx), RelayInput::Claim) => Relay::Claimed,
        (Relay::Draining(rx), RelayInput::CommandsClosed) => Relay::DrainingForGood(rx),
        (Relay::Draining(rx), RelayInput::EventsClosed) => Relay::Stopped,
        (Relay::Claimed, RelayInput::Unsent(rx)) => Relay::Draining(rx),
        (Relay::Claimed, RelayInput::Release(rx)) => Relay::Draining(rx),
        (Relay::Claimed, RelayInput::CommandsClosed) => Relay::Stopped,
        (Relay::DrainingForGood(rx), RelayInput::EventsClosed) => Relay::Stopped,
        _ => s,
    }
}

pub open spec fn relay_does<R, E>(s: Relay<R>, i: RelayInput<R, E>) -> RelayAction<R, E> {
    match (s, i) {
        (Relay::Draining(rx), RelayInput::Claim) => RelayAction::HandOver(rx),
        (Relay::Draining(rx), RelayInput::Event(e)) => RelayAction::Print(e),
        (Relay::Draining(rx), RelayInput::EventsClosed) => RelayAction::Stop,
        (Relay::Claimed, RelayInput::Claim) => RelayAction::Refuse,
        (Relay::Claimed, RelayInput::CommandsClosed) => RelayAction::Stop,
        (Relay::DrainingForGood(rx), RelayInput::Event(e)) => RelayAction::Print(e),
        (Relay::DrainingForGood(rx), RelayInput::EventsClosed) => RelayAction::Stop,
        _ => RelayAction::Nothing,
    }
}

/// One step of the relay.
pub fn relay_step<R, E>(s: Relay<R>, i: RelayInput<R, E>) -> (r: (Relay<R>, RelayAction<R, E>))
    ensures
        r.0 == relay_next(s, i),
        r.1 == relay_does(s, i),
{
    match (s, i) {
        (Relay::Draining(rx), RelayInput::Claim) => (Relay::Claimed, RelayAction::HandOver(rx)),
        (Relay::Draining(rx), RelayInput::CommandsClosed) => (
            Relay::DrainingForGood(rx),
            RelayAction::Nothing,
        ),
        (Relay::Draining(_), RelayInput::EventsClosed) => (Relay::Stopped, RelayAction::Stop),
        (Relay::Draining(rx), RelayInput::Event(e)) => (
            Relay::Draining(rx),
            RelayAction::Print(e),
        ),
        (Relay::Claimed, RelayInput::Unsent(rx)) => (Relay::Draining(rx), RelayAction::Nothing),
        (Relay::Claimed, RelayInput::Release(rx)) => (Relay::Draining(rx), RelayAction::Nothing),
        (Relay::Claimed, RelayInput::CommandsClosed) => (Relay::Stopped, RelayAction::Stop),
        (Relay::Claimed, RelayInput::Claim) => (Relay::Claimed, RelayAction::Refuse),
        (Relay::DrainingForGood(_), RelayInput::EventsClosed) => (
            Relay::Stopped,
            RelayAction::Stop,
        ),
        (Relay::DrainingForGood(rx), RelayInput::Event(e)) => (
            Relay::DrainingForGood(rx),
            RelayAction::Print(e),
        ),
        (s, _) => (s, RelayAction::Nothing),
    }
}

// ---------------------------------------------------------------------------
// The consumer
// ---------------------------------------------------------------------------

/// Why the consumer's request fails.
#[derive(Debug, Clone, Copy, PartialEq, Eq, Structural)]
pub enum EventsError {
    NotAvailable,
    Gone,
    AlreadyClaimed,
    NotClaimed,
}

impl EventsError {
    pub open spec fn text(self) -> Seq<char> {
        match self {
            EventsError::NotAvailable => "flow events relay is not available"@,
            EventsError::Gone => "flow events relay is gone"@,
            EventsError::AlreadyClaimed
                => "FlowRuntime.events is already claimed by another consumer"@,
            EventsError::NotClaimed
                => "FlowRuntime.events is not claimed (or another accept is pending)"@,
        }
    }

    pub fn message(&self) -> (r: String)
        ensures
            r@ == self.text(),
    {
        match self {
            EventsError::NotAvailable => "flow events relay is not available".to_owned(),
            EventsError::Gone => "flow events relay is gone".to_owned(),
            EventsError::AlreadyClaimed
                => "FlowRuntime.events is already claimed by another consumer".to_owned(),
            EventsError::NotClaimed
                => "FlowRuntime.events is not claimed (or another accept is pending)".to_owned(),
        }
    }
}

/// What came of asking the relay for the stream.
pub enum ClaimReply<R> {
    /// There is no relay to ask.
    NoRelay,
    /// The relay ended before or while it was asked.
    RelayGone,
    /// The relay's answer: the receiver, unless another consumer holds it.
    Answer(Option<R>),
}

/// What became of waiting for the next event.
pub enum Accepted<E> {
    Event(E),
    /// The wait was cancelled.
    Cancelled,
    /// The channel is closed.
    Closed,
}

/// What the consumer is given: an event, or the end of the stream.
pub enum RawEvent<E> {
    Event(E),
    Done,
}

/// The consumer's hold on the stream. While it waits for an event, the receiver is out of it.
pub struct EventsClaim<R> {
    pub receiver: Option<R>,
    /// Whether a pending wait can be cancelled: from the claim until the release.
    pub cancellable: bool,
}

impl<R> EventsClaim<R> {
    pub fn new() -> (r: EventsClaim<R>)
        ensures
            r.receiver is None,
            !r.cancellable,
    {
        EventsClaim { receiver: None, cancellable: false }
    }

    /// Takes in the answer to a claim.
    pub fn claim(&mut self, reply: ClaimReply<R>) -> (r: Result<(), EventsError>)
        ensures
            match reply {
                ClaimReply::NoRelay => r == Err::<(), EventsError>(EventsError::NotAvailable),
                ClaimReply::RelayGone => r == Err::<(), EventsError>(EventsError::Gone),
                ClaimReply::Answer(None) => r == Err::<(), EventsError>(
                    EventsError::AlreadyClaimed,
                ),
                ClaimReply::Answer(Some(rx)) => r is Ok && final(self).receiver == Some(rx)
                    && final(self).cancellable,
            },
            r is Err ==> *final(self) == *old(self),
    {
        match reply {
            ClaimReply::NoRelay => Err(EventsError::NotAvailable),
            ClaimReply::RelayGone => Err(EventsError::Gone),
            ClaimReply::Answer(None) => Err(EventsError::AlreadyClaimed),
            ClaimReply::Answer(Some(rx)) => {
                self.receiver = Some(rx);
                self.cancellable = true;
                Ok(())
            },
        }
    }

    /// Begins to wait for the next event: takes the receiver out. That fails while nothing is
    /// claimed or another wait is pending.
    pub fn begin_accept(&mut self) -> (r: Result<R, EventsError>)
        ensures
            final(self).cancellable == old(self).cancellable,
            final(self).receiver is None,
            match old(self).receiver {
                Some(rx) => r == Ok::<R, EventsError>(rx),
                None => r == Err::<R, EventsError>(EventsError::NotClaimed),
            },
    {
        match self.receiver.take() {
            Some(rx) => Ok(rx),
            None => Err(EventsError::NotClaimed),
        }
    }

    /// Ends a wait: puts the receiver back and gives what the consumer gets.
    pub fn end_accept<E>(&mut self, rx: R, got: Accepted<E>) -> (r: RawEvent<E>)
        ensures
            final(self).receiver == Some(rx),
            final(self).cancellable == old(self).cancellable,
            r == match got {
                Accepted::Event(e) => RawEvent::Event(e),
                _ => RawEvent::Done,
            },
    {
        self.receiver = Some(rx);
        match got {
            Accepted::Event(e) => RawEvent::Event(e),
            _ => RawEvent::Done,
        }
    }

    /// Lets go of the stream: gives the receiver, which goes back to the relay. Nothing happens
    /// where the stream is not held.
    pub fn release(&mut self) -> (r: Option<R>)
        ensures
            r == old(self).receiver,
            final(self).receiver is None,
            !final(self).cancellable,
    {
        self.cancellable = false;
        self.receiver.take()
    }
}

// ---------------------------------------------------------------------------
// Printing
// ---------------------------------------------------------------------------

#[derive(Debug, Clone, Copy, PartialEq, Eq, Structural)]
pub enum LogLevel {
    Debug,
    Info,
    Warning,
    Error,
}

/// A notice of the bundle cache, as the event stream carries it.
#[derive(Debug)]
pub struct BundleCacheEvent {
    pub action: String,
    pub cache_key: Option<String>,
    pub path: Option<String>,
    pub bytes: u64,
    pub total_bytes: u64,
    pub max_bytes: Option<u64>,
}

/// An event of a worker.
#[derive(Debug)]
pub enum WorkerEvent {
    Boot { boot_time: usize },
    BootFailure { msg: String },
    UncaughtException { exception: String, cpu_time_used: usize },
    Shutdown { reason: ShutdownReason, cpu_time_used: usize },
    Log { level: LogLevel, msg: String },
    BundleCache(BundleCacheEvent),
}

/// Why a worker was shut down.
#[derive(Debug, Clone, Copy, PartialEq, Eq, Structural)]
pub enum ShutdownReason {
    EventLoopCompleted,
    WallClockTime,
    CPUTime,
    Memory,
    EarlyDrop,
    TerminationRequested,
}

/// Where a text is printed.
#[derive(Debug, Clone, Copy, PartialEq, Eq, Structural)]
pub enum Output {
    Stdout,
    Stderr,
}

/// A message with a line end behind it.
pub open spec fn with_newline(msg: Seq<char>) -> Seq<char> {
    if msg.len() > 0 && msg.last() == '\n' {
        msg
    } else {
        msg.push('\n')
    }
}

/// What is written for a message: the message itself, and a line end where it has none.
pub fn write_inherit(msg: &str) -> (r: String)
    ensures
        r@ == with_newline(msg@),
{
    proof {
        reveal_strlit("\n");
        assert("\n"@ =~= seq!['\n']);
        if msg@.len() > 0 {
            assert(msg@.last() == msg@.subrange(msg@.len() - 1, msg@.len() as int)[0]);
        }
        if msg@.len() > 0 && msg@.last() == '\n' {
            assert(msg@.subrange(msg@.len() - 1, msg@.len() as int) =~= seq!['\n']);
        }
    }
    let mut s: String = msg.to_owned();
    if !finishes_with(msg, "\n") {
        s.push('\n');
    }
    s
}

/// What is printed of an event, and where. Lifecycle telemetry makes no noise.
pub open spec fn inherited(ev: WorkerEvent) -> Option<(Output, Seq<char>)> {
    match ev {
        WorkerEvent::Log { level, msg } => Some(
            (
                match level {
                    LogLevel::Debug | LogLevel::Info => Output::Stdout,
                    LogLevel::Warning | LogLevel::Error => Output::Stderr,
                },
                with_newline(msg@),
            ),
        ),
        WorkerEvent::BootFailure { msg } => Some(
            (Output::Stderr, with_newline("flow: worker boot failure: "@ + msg@)),
        ),
        WorkerEvent::UncaughtException { exception, cpu_time_used } => Some(
            (Output::Stderr, with_newline(exception@)),
        ),
        _ => None,
    }
}

/// What is printed of an event, the way the output of a child process with inherited streams
/// would appear.
pub fn print_inherit(ev: &WorkerEvent) -> (r: Option<(Output, String)>)
    ensures
        match r {
            Some((o, s)) => inherited(*ev) == Some((o, s@)),
            None => inherited(*ev) is None,
        },
{
    match ev {
        WorkerEvent::Log { level, msg } => {
            let out = match level {
                LogLevel::Debug | LogLevel::Info => Output::Stdout,
                LogLevel::Warning | LogLevel::Error => Output::Stderr,
            };
            Some((out, write_inherit(msg.as_str())))
        },
        WorkerEvent::BootFailure { msg } => {
            let s = join("flow: worker boot failure: ", msg.as_str());
            Some((Output::Stderr, write_inherit(s.as_str())))
        },
        WorkerEvent::UncaughtException { exception, cpu_time_used: _ } => {
            Some((Output::Stderr, write_inherit(exception.as_str())))
        },
        _ => None,
    }
}

/// The name of a cache activity on the event stream.
pub open spec fn action_name(a: CacheEventAction) -> Seq<char> {
    match a {
        CacheEventAction::Evicted => "evicted"@,
        CacheEventAction::OverCap => "overCap"@,
        CacheEventAction::Sweep => "sweep"@,
    }
}

/// A notice of the bundle cache as a worker event.
pub fn bundle_cache_event(event: CacheEvent) -> (r: WorkerEvent)
    ensures
        r matches WorkerEvent::BundleCache(e) && {
            &&& e.action@ == action_name(event.action)
            &&& opt_view(e.cache_key) == opt_view(event.cache_key)
            &&& opt_view(e.path) == opt_view(event.path)
            &&& e.bytes == event.bytes
            &&& e.total_bytes == event.total_bytes
            &&& e.max_bytes == event.max_bytes
        },
{
    let action: String = match event.action {
        CacheEventAction::Evicted => "evicted".to_owned(),
        CacheEventAction::OverCap => "overCap".to_owned(),
        CacheEventAction::Sweep => "sweep".to_owned(),
    };
    WorkerEvent::BundleCache(
        BundleCacheEvent {
            action,
            cache_key: event.cache_key,
            path: event.path,
            bytes: event.bytes,
            total_bytes: event.total_bytes,
            max_bytes: event.max_bytes,
        },
    )
}

// ---------------------------------------------------------------------------
// Laws
// ---------------------------------------------------------------------------

/// The stream as a whole: the relay, the consumer, the events that wait in the channel, and those
/// that were taken out of it, by whom they may be.
pub struct Stream<E> {
    pub relay: Relay<()>,
    /// Whether the consumer holds the receiver.
    pub consumer: bool,
    pub pending: Seq<E>,
    /// What the relay printed and the consumer accepted, in the order it was taken out.
    pub taken: Seq<E>,
    /// What was sent.
    pub sent: Seq<E>,
}

/// What can happen to the stream.
pub enum StreamStep<E> {
    /// A worker sends an event.
    Send(E),
    /// A consumer asks for the stream. `delivered` says whether it is still there to take it.
    Claim { delivered: bool },
    /// The consumer gives the stream back.
    Release,
    /// The relay takes the next event.
    RelayReceives,
    /// The consumer takes the next event.
    ConsumerReceives,
    /// The consumer's side of the command channel goes away; the consumer with it.
    CommandsClose,
}

pub open spec fn stream_step<E>(s: Stream<E>, step: StreamStep<E>) -> Stream<E> {
    match step {
        StreamStep::Send(e) => Stream { pending: s.pending.push(e), sent: s.sent.push(e), ..s },
        StreamStep::Claim { delivered } => {
            let claim = RelayInput::<(), E>::Claim;
            let next = relay_next(s.relay, claim);
            if relay_does(s.relay, claim) is HandOver {
                if delivered {
                    Stream { relay: next, consumer: true, ..s }
                } else {
                    Stream { relay: relay_next(next, RelayInput::<(), E>::Unsent(())), ..s }
                }
            } else {
                Stream { relay: next, ..s }
            }
        },
        StreamStep::Release => if s.consumer {
            Stream {
                relay: relay_next(s.relay, RelayInput::<(), E>::Release(())),
                consumer: false,
                ..s
            }
        } else {
            s
        },
        StreamStep::RelayReceives => if s.pending.len() > 0 && relay_does(
            s.relay,
            RelayInput::Event(s.pending[0]),
        ) is Print {
            Stream {
                relay: relay_next(s.relay, RelayInput::Event(s.pending[0])),
                pending: s.pending.drop_first(),
                taken: s.taken.push(s.pending[0]),
                ..s
            }
        } else {
            s
        },
        StreamStep::ConsumerReceives => if s.consumer && s.pending.len() > 0 {
            Stream {
                pending: s.pending.drop_first(),
                taken: s.taken.push(s.pending[0]),
                ..s
            }
        } else {
            s
        },
        StreamStep::CommandsClose => Stream {
            relay: relay_next(s.relay, RelayInput::<(), E>::CommandsClosed),
            consumer: false,
            ..s
        },
    }
}

/// At most one side holds the receiver, and every event that was sent has either been taken out,
/// in order, or still waits.
pub open spec fn stream_ok<E>(s: Stream<E>) -> bool {
    &&& s.consumer ==> s.relay is Claimed
    &&& s.relay is Claimed ==> s.consumer
    &&& s.taken + s.pending == s.sent
}

/// No event is lost or taken twice, whatever happens: claiming and releasing the stream hands the
/// receiver over whole, and there is never more than one that takes from it.
pub proof fn law_no_event_is_lost<E>(s: Stream<E>, step: StreamStep<E>)
    requires
        stream_ok(s),
    ensures
        stream_ok(stream_step(s, step)),
{
    let t = stream_step(s, step);
    match step {
        StreamStep::Send(e) => {
            assert(s.taken + s.pending.push(e) =~= (s.taken + s.pending).push(e));
        },
        _ => {
            if s.pending.len() > 0 {
                assert(s.taken.push(s.pending[0]) + s.pending.drop_first() =~= s.taken
                    + s.pending);
            }
        },
    }
    assert(t.taken + t.pending == t.sent);
}

/// The stream has one consumer: while it is claimed, every further claim is refused and changes
/// nothing.
pub proof fn law_single_consumer<R, E>(s: Relay<R>)
    requires
        s is Claimed,
    ensures
        relay_does(s, RelayInput::<R, E>::Claim) is Refuse,
        relay_next(s, RelayInput::<R, E>::Claim) == s,
{
}

/// What is printed always ends its line.
pub proof fn law_printed_text_ends_its_line(ev: WorkerEvent)
    requires
        inherited(ev) is Some,
    ensures
        (inherited(ev)->0).1.len() > 0,
        (inherited(ev)->0).1.last() == '\n',
{
}


/// A claim gets the receiver of a relay that drains, and is refused by one that was claimed. What
/// is given back is drained again. A relay that can no longer be claimed drains to the end, if it
/// has the receiver, and stops if it has not; either stops with the events.
pub proof fn law_relays_hold_or_hand_over<R, E>(rx: R, e: E)
    ensures
        ({
            let draining = Relay::Draining(rx);
            let claimed = Relay::<R>::Claimed;
            let last = Relay::DrainingForGood(rx);
            let claim = RelayInput::<R, E>::Claim;
            let closed = RelayInput::<R, E>::CommandsClosed;
            let over = RelayInput::<R, E>::EventsClosed;
            let event = RelayInput::<R, E>::Event(e);
            &&& relay_next(draining, claim) == claimed && relay_does(draining, claim)
                == RelayAction::<R, E>::HandOver(rx)
            &&& relay_next(draining, event) == draining && relay_does(draining, event)
                == RelayAction::<R, E>::Print(e)
            &&& relay_next(draining, closed) == last && relay_does(draining, closed) is Nothing
            &&& relay_next(draining, over) is Stopped && relay_does(draining, over) is Stop
            &&& relay_next(claimed, RelayInput::<R, E>::Release(rx)) == draining
            &&& relay_does(claimed, RelayInput::<R, E>::Release(rx)) is Nothing
            &&& relay_next(claimed, RelayInput::<R, E>::Unsent(rx)) == draining
            &&& relay_does(claimed, RelayInput::<R, E>::Unsent(rx)) is Nothing
            &&& relay_next(claimed, closed) is Stopped && relay_does(claimed, closed) is Stop
            &&& relay_next(claimed, event) == claimed && relay_does(claimed, event) is Nothing
            &&& relay_next(claimed, over) == claimed && relay_does(claimed, over) is Nothing
            &&& relay_next(last, event) == last && relay_does(last, event)
                == RelayAction::<R, E>::Print(e)
            &&& relay_next(last, claim) == last && relay_does(last, claim) is Nothing
            &&& relay_next(last, over) is Stopped && relay_does(last, over) is Stop
        }),
{
}

/// A relay that has stopped stays so and does nothing.
pub proof fn law_stopped_relays_stay<R, E>(i: RelayInput<R, E>)
    ensures
        relay_next(Relay::<R>::Stopped, i) is Stopped,
        relay_does(Relay::<R>::Stopped, i) is Nothing,
{
}

/// A text is printed as it is, with a line end behind it unless it has one.
pub proof fn law_lines_are_ended_once(msg: Seq<char>)
    ensures
        msg.is_prefix_of(with_newline(msg)),
        with_newline(msg).last() == '\n',
        with_newline(msg + seq!['\n']) == msg + seq!['\n'],
        with_newline(with_newline(msg)) == with_newline(msg),
        msg.len() > 0 && msg.last() != '\n' ==> with_newline(msg).len() == msg.len() + 1,
{
    assert(with_newline(msg).take(msg.len() as int) =~= msg);
    assert((msg + seq!['\n']).last() == '\n');
}

/// Logs are printed where they belong by their level, failures to boot and exceptions that nobody
/// caught among the errors; nothing else is printed.
pub proof fn law_events_are_printed(ev: WorkerEvent)
    ensures
        inherited(ev) is Some <==> ev is Log || ev is BootFailure || ev is UncaughtException,
        inherited(ev) is Some ==> {
            let (output, text) = inherited(ev)->0;
            &&& output == Output::Stdout <==> ev is Log && (ev->level == LogLevel::Debug || ev->level
                == LogLevel::Info)
            &&& ev is Log ==> ev->Log_msg@.is_prefix_of(text) && text.len() <= ev->Log_msg@.len() + 1
            &&& ev is UncaughtException ==> ev->exception@.is_prefix_of(text) && text.len()
                <= ev->exception@.len() + 1
            &&& ev is BootFailure ==> ("flow: worker boot failure: "@
                + ev->BootFailure_msg@).is_prefix_of(text) && text.len()
                <= "flow: worker boot failure: "@.len() + ev->BootFailure_msg@.len() + 1
        },
{
    if ev is Log {
        law_lines_are_ended_once(ev->Log_msg@);
    } else if ev is UncaughtException {
        law_lines_are_ended_once(ev->exception@);
    } else if ev is BootFailure {
        law_lines_are_ended_once("flow: worker boot failure: "@ + ev->BootFailure_msg@);
    }
}

/// What the cache has done is told apart by its name.
pub proof fn law_cache_actions_are_told_apart(a: CacheEventAction, b: CacheEventAction)
    ensures
        action_name(a) == action_name(b) ==> a == b,
        action_name(CacheEventAction::Evicted) == "evicted"@,
        action_name(CacheEventAction::OverCap) == "overCap"@,
        action_name(CacheEventAction::Sweep) == "sweep"@,
{
    reveal_strlit("evicted");
    reveal_strlit("overCap");
    reveal_strlit("sweep");
    assert(action_name(a)[0] == action_name(b)[0] || action_name(a) != action_name(b));
}

} // verus!
