//! Naming and starting workers.

use sourcemap::SourceMap;
use vstd::prelude::*;

use crate::paths::views;
use crate::source_map_store::{
    is_translation, location_pattern, regex_groups, regex_pieces, translate_error_locations,
    MapToken, SourceMapStore,
};
use crate::text::join;

verus! {

#[derive(Debug, Clone, Copy, PartialEq, Eq, Structural)]
pub enum WorkerKind {
    MainWorker,
    UserWorker,
    EventsWorker,
}

/// What a worker is called; `key` is its key in the pool, where it has one.
pub open spec fn name_of(kind: WorkerKind, key: Option<Seq<char>>) -> Seq<char> {
    match kind {
        WorkerKind::MainWorker => "main-worker"@,
        WorkerKind::EventsWorker => "events-workers"@,
        WorkerKind::UserWorker => match key {
            Some(k) => "sb-iso-"@ + k,
            None => "isolate-worker-unknown"@,
        },
    }
}

/// What a worker is called.
pub fn worker_name(kind: WorkerKind, key: Option<&str>) -> (r: String)
    ensures
        r@ == name_of(
            kind,
            match key {
                Some(k) => Some(k@),
                None => None,
            },
        ),
{
    match kind {
        WorkerKind::MainWorker => "main-worker".to_owned(),
        WorkerKind::EventsWorker => "events-workers".to_owned(),
        WorkerKind::UserWorker => match key {
            Some(k) => join("sb-iso-", k),
            None => "isolate-worker-unknown".to_owned(),
        },
    }
}

// ---------------------------------------------------------------------------
// Permissions
// ---------------------------------------------------------------------------

/// The permissions of a worker. Each is `None` where it is not granted, and the list of what it is
/// granted for otherwise; an empty list stands for everything.
#[derive(Debug)]
pub struct PermissionsOptions {
    pub allow_env: Option<Vec<String>>,
    pub allow_net: Option<Vec<String>>,
    pub allow_ffi: Option<Vec<String>>,
    pub allow_read: Option<Vec<String>>,
    pub allow_run: Option<Vec<String>>,
    pub allow_sys: Option<Vec<String>>,
    pub allow_write: Option<Vec<String>>,
    pub allow_import: Option<Vec<String>>,
}

/// A permission for everything.
pub open spec fn is_everything(p: Option<Vec<String>>) -> bool {
    p matches Some(v) && v@.len() == 0
}

/// The permissions that a worker has where nothing else is asked for. A user worker may neither
/// run programs nor call native code, and learns only a little of the system.
pub fn get_default_permissions(kind: WorkerKind) -> (r: PermissionsOptions)
    ensures
        is_everything(r.allow_env),
        is_everything(r.allow_net),
        is_everything(r.allow_read),
        is_everything(r.allow_write),
        is_everything(r.allow_import),
        kind == WorkerKind::UserWorker ==> {
            &&& r.allow_ffi is None
            &&& r.allow_run is None
            &&& r.allow_sys matches Some(v) && views(v@) == seq![
                "hostname"@,
                "userInfo"@,
                "cpus"@,
            ]
        },
        kind != WorkerKind::UserWorker ==> {
            &&& is_everything(r.allow_ffi)
            &&& is_everything(r.allow_run)
            &&& is_everything(r.allow_sys)
        },
{
    match kind {
        WorkerKind::UserWorker => {
            let mut sys: Vec<String> = Vec::new();
            sys.push("hostname".to_owned());
            sys.push("userInfo".to_owned());
            sys.push("cpus".to_owned());
            assert(views(sys@) =~= seq!["hostname"@, "userInfo"@, "cpus"@]);
            PermissionsOptions {
                allow_env: Some(Vec::new()),
                allow_net: Some(Vec::new()),
                allow_ffi: None,
                allow_read: Some(Vec::new()),
                allow_run: None,
                allow_sys: Some(sys),
                allow_write: Some(Vec::new()),
                allow_import: Some(Vec::new()),
            }
        },
        _ => PermissionsOptions {
            allow_env: Some(Vec::new()),
            allow_net: Some(Vec::new()),
            allow_ffi: Some(Vec::new()),
            allow_read: Some(Vec::new()),
            allow_run: Some(Vec::new()),
            allow_sys: Some(Vec::new()),
            allow_write: Some(Vec::new()),
            allow_import: Some(Vec::new()),
        },
    }
}

// ---------------------------------------------------------------------------
// Metadata of events
// ---------------------------------------------------------------------------

/// A value that the worker's context gives for an attribute.
#[derive(Debug)]
pub enum AttributeValue {
    Text(String),
    /// Anything else, in the form in which it is written as JSON.
    Json(String),
}

/// An attribute with its value.
#[derive(Debug)]
pub struct Attribute {
    pub key: String,
    pub value: String,
}

/// The latest value of an attribute.
pub open spec fn attribute(attrs: Seq<Attribute>, key: Seq<char>) -> Option<Seq<char>>
    decreases attrs.len(),
{
    if attrs.len() == 0 {
        None
    } else if attrs.last().key@ == key {
        Some(attrs.last().value@)
    } else {
        attribute(attrs.drop_last(), key)
    }
}

/// The text of a value.
pub open spec fn value_text(v: AttributeValue) -> Seq<char> {
    match v {
        AttributeValue::Text(s) => s@,
        AttributeValue::Json(s) => s@,
    }
}

/// The latest value that a context gives for an attribute.
pub open spec fn context_value(context: Seq<(String, AttributeValue)>, key: Seq<char>) -> Option<
    Seq<char>,
>
    decreases context.len(),
{
    if context.len() == 0 {
        None
    } else if context.last().0@ == key {
        Some(value_text(context.last().1))
    } else {
        context_value(context.drop_last(), key)
    }
}

/// The attributes of a worker's events: that it is a user worker, and what its context gives, which
/// comes first.
pub fn get_event_metadata(context: &Vec<(String, AttributeValue)>) -> (r: Vec<Attribute>)
    ensures
        forall|key: Seq<char>| #[trigger]
            attribute(r@, key) == match context_value(context@, key) {
                Some(v) => Some(v),
                None => if key == "edge_runtime.worker.kind"@ {
                    Some("user"@)
                } else {
                    None
                },
            },
{
    let mut out: Vec<Attribute> = Vec::new();
    out.push(
        Attribute { key: "edge_runtime.worker.kind".to_owned(), value: "user".to_owned() },
    );
    let mut i: usize = 0;
    proof {
        assert(out@.drop_last() =~= Seq::<Attribute>::empty());
        assert(context@.take(0) =~= Seq::<(String, AttributeValue)>::empty());
        assert forall|key: Seq<char>| #[trigger]
            attribute(out@, key) == match context_value(context@.take(0), key) {
                Some(v) => Some(v),
                None => if key == "edge_runtime.worker.kind"@ {
                    Some("user"@)
                } else {
                    None
                },
            } by {
            assert(attribute(out@.drop_last(), key) is None);
        }
    }
    while i < context.len()
        invariant
            i <= context@.len(),
            forall|key: Seq<char>| #[trigger]
                attribute(out@, key) == match context_value(context@.take(i as int), key) {
                    Some(v) => Some(v),
                    None => if key == "edge_runtime.worker.kind"@ {
                        Some("user"@)
                    } else {
                        None
                    },
                },
        decreases context@.len() - i,
    {
        let value: String = match &context[i].1 {
            AttributeValue::Text(s) => s.clone(),
            AttributeValue::Json(s) => s.clone(),
        };
        let ghost before = out@;
        out.push(Attribute { key: context[i].0.clone(), value });
        proof {
            assert(out@.drop_last() =~= before);
            assert(context@.take(i + 1).drop_last() =~= context@.take(i as int));
            assert(context@.take(i + 1).last() == context@[i as int]);
            assert forall|key: Seq<char>| #[trigger]
                attribute(out@, key) == match context_value(context@.take(i + 1), key) {
                    Some(v) => Some(v),
                    None => if key == "edge_runtime.worker.kind"@ {
                        Some("user"@)
                    } else {
                        None
                    },
                } by {
                assert(attribute(before, key) == match context_value(
                    context@.take(i as int),
                    key,
                ) {
                    Some(v) => Some(v),
                    None => if key == "edge_runtime.worker.kind"@ {
                        Some("user"@)
                    } else {
                        None
                    },
                });
            }
        }
        i = i + 1;
    }
    assert(context@.take(i as int) =~= context@);
    out
}

/// Translates the locations in an error message of a worker through its source maps.
pub fn apply_source_maps<F: Fn(&SourceMap, u32, u32) -> Option<MapToken>>(
    message: &str,
    store: &SourceMapStore,
    lookup: &F,
) -> (r: String)
    requires
        forall|m: &SourceMap, l: u32, c: u32| lookup.requires((m, l, c)),
    ensures
        exists|to: Seq<Option<(Seq<char>, u32, u32)>>| #[trigger]
            is_translation(
                *store,
                *lookup,
                regex_pieces(location_pattern(), message@)->0,
                regex_groups(location_pattern(), message@)->0,
                to,
                r@,
            ),
{
    translate_error_locations(message, store, lookup)
}

// ---------------------------------------------------------------------------
// Starting a worker
// ---------------------------------------------------------------------------

/// Where a worker runs: a user worker has a thread of its own, and the others share a pool.
#[derive(Debug, Clone, Copy, PartialEq, Eq, Structural)]
pub enum Placement {
    DedicatedThread,
    SharedPool,
}

/// Where a worker of this kind runs.
pub fn placement(kind: WorkerKind) -> (r: Placement)
    ensures
        r == if kind == WorkerKind::UserWorker {
            Placement::DedicatedThread
        } else {
            Placement::SharedPool
        },
{
    match kind {
        WorkerKind::UserWorker => Placement::DedicatedThread,
        _ => Placement::SharedPool,
    }
}

/// The stack of a worker's own thread: eight mebibytes, which the engine needs.
pub const WORKER_STACK_SIZE: usize = 8388608;

/// Where the start of a worker stands: what it waits for.
#[derive(Debug, Clone, Copy, PartialEq, Eq, Structural)]
pub enum StartStage {
    /// Its runtime is being created.
    Creating,
    /// The handle of its isolate is being handed to the thread that started it.
    HandingOver,
    /// It is being put under supervision.
    Supervising,
    /// Its main module is being loaded.
    InitModule,
    /// It runs.
    Running,
    Finished,
}

/// What happened.
#[derive(Debug, Clone, Copy, PartialEq, Eq, Structural)]
pub enum StartEvent {
    Created { ok: bool },
    HandedOver { ok: bool },
    Supervised { ok: bool },
    ModuleInitialized { ok: bool },
    /// It ran to its end, which was or was not an exception that nobody caught.
    RanToEnd { uncaught: bool },
    /// Running it failed.
    RunFailed,
}

/// What is done next.
#[derive(Debug, Clone, Copy, PartialEq, Eq, Structural)]
pub enum StartAction {
    /// Hand the handle of the isolate over.
    HandOver,
    /// Tell whoever waits for the worker that it has booted, and put it under supervision.
    SignalBootedAndSupervise,
    /// Load the main module, with supervision active.
    InitModule,
    /// Run the worker. From here on the pool is told when it ends.
    Run,
    /// The worker failed to boot. `signal` says whether whoever waits for it is told.
    FailBoot { signal: bool },
    /// The worker is over before it began: it could not be handed over.
    Abandon,
    /// The worker is over before it began: it could not be supervised.
    EndUnsupervised,
    /// The worker is over. `exit_with_exception` says whether its exit is recorded as one, and
    /// `send_event` whether its last event is passed on.
    End { exit_with_exception: bool, send_event: bool },
}

/// The start of a worker.
#[derive(Debug, Clone, Copy, PartialEq, Eq, Structural)]
pub struct WorkerStart {
    pub stage: StartStage,
    pub placement: Placement,
    pub eager_module_init: bool,
}

pub open spec fn start_fits(stage: StartStage, e: StartEvent) -> bool {
    match stage {
        StartStage::Creating => e is Created,
        StartStage::HandingOver => e is HandedOver,
        StartStage::Supervising => e is Supervised,
        StartStage::InitModule => e is ModuleInitialized,
        StartStage::Running => e is RanToEnd || e is RunFailed,
        StartStage::Finished => false,
    }
}

/// What is done once the worker is supervised, or needs no supervision.
pub open spec fn after_supervision(eager: bool) -> StartAction {
    if eager {
        StartAction::InitModule
    } else {
        StartAction::Run
    }
}

/// What is done after an event. A worker of the pool needs no supervision; one on a thread of its
/// own does not run without.
pub open spec fn start_action(s: WorkerStart, e: StartEvent) -> StartAction {
    match e {
        StartEvent::Created { ok } => if !ok {
            StartAction::FailBoot { signal: true }
        } else if s.placement is DedicatedThread {
            StartAction::HandOver
        } else {
            StartAction::SignalBootedAndSupervise
        },
        StartEvent::HandedOver { ok } => if ok {
            StartAction::SignalBootedAndSupervise
        } else {
            StartAction::Abandon
        },
        StartEvent::Supervised { ok } => if !ok && s.placement is DedicatedThread {
            StartAction::EndUnsupervised
        } else {
            after_supervision(s.eager_module_init)
        },
        StartEvent::ModuleInitialized { ok } => if ok {
            StartAction::Run
        } else {
            StartAction::FailBoot { signal: false }
        },
        StartEvent::RanToEnd { uncaught } => StartAction::End {
            exit_with_exception: uncaught,
            send_event: true,
        },
        StartEvent::RunFailed => StartAction::End { exit_with_exception: true, send_event: false },
    }
}

pub open spec fn start_stage_of(a: StartAction) -> StartStage {
    match a {
        StartAction::HandOver => StartStage::HandingOver,
        StartAction::SignalBootedAndSupervise => StartStage::Supervising,
        StartAction::InitModule => StartStage::InitModule,
        StartAction::Run => StartStage::Running,
        _ => StartStage::Finished,
    }
}

impl WorkerStart {
    /// Begins to start a worker: its runtime is to be created.
    pub fn begin(kind: WorkerKind, eager_module_init: bool) -> (r: WorkerStart)
        ensures
            r.stage is Creating,
            r.placement == if kind == WorkerKind::UserWorker {
                Placement::DedicatedThread
            } else {
                Placement::SharedPool
            },
            r.eager_module_init == eager_module_init,
    {
        WorkerStart { stage: StartStage::Creating, placement: placement(kind), eager_module_init }
    }

    /// Takes in what happened and gives what is done next.
    pub fn step(&mut self, event: StartEvent) -> (r: StartAction)
        requires
            start_fits(old(self).stage, event),
        ensures
            r == start_action(*old(self), event),
            *final(self) == (WorkerStart { stage: start_stage_of(r), ..*old(self) }),
    {
        let dedicated = match self.placement {
            Placement::DedicatedThread => true,
            Placement::SharedPool => false,
        };
        let action = match event {
            StartEvent::Created { ok } => {
                if !ok {
                    StartAction::FailBoot { signal: true }
                } else if dedicated {
                    StartAction::HandOver
                } else {
                    StartAction::SignalBootedAndSupervise
                }
            },
            StartEvent::HandedOver { ok } => {
                if ok {
                    StartAction::SignalBootedAndSupervise
                } else {
                    StartAction::Abandon
                }
            },
            StartEvent::Supervised { ok } => {
                if !ok && dedicated {
                    StartAction::EndUnsupervised
                } else if self.eager_module_init {
                    StartAction::InitModule
                } else {
                    StartAction::Run
                }
            },
            StartEvent::ModuleInitialized { ok } => {
                if ok {
                    StartAction::Run
                } else {
                    StartAction::FailBoot { signal: false }
                }
            },
            StartEvent::RanToEnd { uncaught } => StartAction::End {
                exit_with_exception: uncaught,
                send_event: true,
            },
            StartEvent::RunFailed => StartAction::End {
                exit_with_exception: true,
                send_event: false,
            },
        };
        self.stage = match action {
            StartAction::HandOver => StartStage::HandingOver,
            StartAction::SignalBootedAndSupervise => StartStage::Supervising,
            StartAction::InitModule => StartStage::InitModule,
            StartAction::Run => StartStage::Running,
            _ => StartStage::Finished,
        };
        action
    }
}

/// What the thread that starts a worker learns.
#[derive(Debug, Clone, Copy, PartialEq, Eq, Structural)]
pub enum Spawned {
    /// The thread could not be started.
    NoThread,
    /// The thread ended without handing over its isolate: it is joined, so that nothing is left of
    /// it.
    JoinAndForget,
    /// The thread runs, and its isolate can be reached.
    Handles,
}

/// What becomes of a worker's own thread once it has, or has not, handed over its isolate.
pub fn spawned(thread_started: bool, handle_received: bool) -> (r: Spawned)
    ensures
        r == if !thread_started {
            Spawned::NoThread
        } else if handle_received {
            Spawned::Handles
        } else {
            Spawned::JoinAndForget
        },
{
    if !thread_started {
        Spawned::NoThread
    } else if handle_received {
        Spawned::Handles
    } else {
        Spawned::JoinAndForget
    }
}

/// Module code only ever runs under supervision: a worker on a thread of its own neither loads its
/// main module nor runs before it has been supervised, so that its processor time is always
/// counted.
pub proof fn law_code_runs_under_supervision(s: WorkerStart, e: StartEvent)
    requires
        start_fits(s.stage, e),
        s.placement is DedicatedThread,
        start_action(s, e) is InitModule || start_action(s, e) is Run,
    ensures
        e == (StartEvent::Supervised { ok: true }) || s.stage is InitModule,
{
}

/// How many steps a start has left at most.
pub open spec fn start_steps_left(stage: StartStage) -> nat {
    match stage {
        StartStage::Creating => 5,
        StartStage::HandingOver => 4,
        StartStage::Supervising => 3,
        StartStage::InitModule => 2,
        StartStage::Running => 1,
        StartStage::Finished => 0,
    }
}

/// A start always moves on: whatever happens, the worker is over after five events at most.
pub proof fn law_start_moves_on(s: WorkerStart, e: StartEvent)
    requires
        start_fits(s.stage, e),
    ensures
        start_steps_left(start_stage_of(start_action(s, e))) < start_steps_left(s.stage),
{
}

// ---------------------------------------------------------------------------
// The surface of a worker
// ---------------------------------------------------------------------------

/// What is done once it is known whether a worker has booted.
#[derive(Debug, Clone, Copy, PartialEq, Eq, Structural)]
pub enum BootOutcome {
    /// It has: the event that it did is passed on, with the time that it took.
    Booted { boot_time_ms: usize },
    /// It has not: whoever may wait for its termination is told that there is none to wait for.
    Failed { cancel_termination: bool },
}

/// What is done once it is known whether a worker has booted.
pub fn boot_outcome(ok: bool, elapsed_ms: u128, has_termination_token: bool) -> (r: BootOutcome)
    ensures
        r == if ok {
            (BootOutcome::Booted { boot_time_ms: elapsed_ms as usize })
        } else {
            (BootOutcome::Failed { cancel_termination: has_termination_token })
        },
{
    if ok {
        BootOutcome::Booted { boot_time_ms: elapsed_ms as usize }
    } else {
        BootOutcome::Failed { cancel_termination: has_termination_token }
    }
}


/// A user's worker is named after its key; workers of different keys, and of different kinds, have
/// different names.
pub proof fn law_names_tell_workers_apart(a: Seq<char>, b: Seq<char>)
    ensures
        a.is_suffix_of(name_of(WorkerKind::UserWorker, Some(a))),
        name_of(WorkerKind::UserWorker, Some(a)) == name_of(WorkerKind::UserWorker, Some(b)) ==> a
            == b,
        name_of(WorkerKind::UserWorker, Some(a)) != name_of(WorkerKind::UserWorker, None),
        name_of(WorkerKind::UserWorker, Some(a)) != name_of(WorkerKind::MainWorker, Some(b)),
        name_of(WorkerKind::UserWorker, Some(a)) != name_of(WorkerKind::EventsWorker, Some(b)),
        name_of(WorkerKind::MainWorker, Some(a)) == name_of(WorkerKind::MainWorker, None),
        name_of(WorkerKind::EventsWorker, Some(a)) == name_of(WorkerKind::EventsWorker, None),
        name_of(WorkerKind::EventsWorker, None) != name_of(WorkerKind::MainWorker, None),
{
    reveal_strlit("main-worker");
    reveal_strlit("events-workers");
    reveal_strlit("sb-iso-");
    reveal_strlit("isolate-worker-unknown");
    let x = name_of(WorkerKind::UserWorker, Some(a));
    let y = name_of(WorkerKind::UserWorker, Some(b));
    assert(x.skip(7) =~= a);
    assert(y.skip(7) =~= b);
    assert(x[0] == 's');
    assert(name_of(WorkerKind::UserWorker, None)[0] == 'i');
    assert(name_of(WorkerKind::MainWorker, Some(b))[0] == 'm');
    assert(name_of(WorkerKind::EventsWorker, Some(b))[0] == 'e');
}

/// Where a context has several values under one key, the last stands, as the text that it is.
pub proof fn law_last_value_stands(
    context: Seq<(String, AttributeValue)>,
    i: int,
    key: Seq<char>,
)
    requires
        forall|j: int| i < j < context.len() ==> (#[trigger] context[j]).0@ != key,
        0 <= i < context.len() ==> context[i].0@ == key,
        -1 <= i < context.len(),
    ensures
        i >= 0 ==> context_value(context, key) == Some(
            match context[i].1 {
                AttributeValue::Text(s) => s@,
                AttributeValue::Json(s) => s@,
            },
        ),
        i == -1 ==> context_value(context, key) is None,
    decreases context.len(),
{
    if context.len() > 0 && i < context.len() - 1 {
        let front = context.drop_last();
        assert(context.last() == context[context.len() - 1]);
        assert forall|j: int| i < j < front.len() implies (#[trigger] front[j]).0@ != key by {
            assert(front[j] == context[j]);
        }
        if i >= 0 {
            assert(front[i] == context[i]);
        }
        law_last_value_stands(front, i, key);
    }
}

/// Where a list of attributes has one key several times, the last stands.
pub proof fn law_last_attribute_stands(attrs: Seq<Attribute>, i: int, key: Seq<char>)
    requires
        forall|j: int| i < j < attrs.len() ==> (#[trigger] attrs[j]).key@ != key,
        0 <= i < attrs.len() ==> attrs[i].key@ == key,
        -1 <= i < attrs.len(),
    ensures
        i >= 0 ==> attribute(attrs, key) == Some(attrs[i].value@),
        i == -1 ==> attribute(attrs, key) is None,
    decreases attrs.len(),
{
    if attrs.len() > 0 && i < attrs.len() - 1 {
        let front = attrs.drop_last();
        assert(attrs.last() == attrs[attrs.len() - 1]);
        assert forall|j: int| i < j < front.len() implies (#[trigger] front[j]).key@ != key by {
            assert(front[j] == attrs[j]);
        }
        if i >= 0 {
            assert(front[i] == attrs[i]);
        }
        law_last_attribute_stands(front, i, key);
    }
}

/// A worker that was created is handed over to its own thread, if it has one, then supervised, its
/// module set up where that is to be done early, and run. What fails on the way ends it: a creation
/// and a module with the boot, a hand-over with nobody to tell, a supervision only for a worker
/// with a thread of its own. A run that came to its end is reported; one that failed is not.
pub proof fn law_workers_start_in_order(s: WorkerStart, ok: bool, uncaught: bool)
    ensures
        ({
            let own = s.placement == Placement::DedicatedThread;
            let created = start_action(s, StartEvent::Created { ok });
            let handed = start_action(s, StartEvent::HandedOver { ok });
            let supervised = start_action(s, StartEvent::Supervised { ok });
            let ready = start_action(s, StartEvent::ModuleInitialized { ok });
            let ended = start_action(s, StartEvent::RanToEnd { uncaught });
            let failed = start_action(s, StartEvent::RunFailed);
            &&& created == (StartAction::FailBoot { signal: true }) <==> !ok
            &&& created == StartAction::HandOver <==> ok && own
            &&& created == StartAction::SignalBootedAndSupervise <==> ok && !own
            &&& handed == StartAction::SignalBootedAndSupervise <==> ok
            &&& handed == StartAction::Abandon <==> !ok
            &&& supervised == StartAction::EndUnsupervised <==> !ok && own
            &&& supervised == StartAction::InitModule <==> (ok || !own) && s.eager_module_init
            &&& supervised == StartAction::Run <==> (ok || !own) && !s.eager_module_init
            &&& ready == StartAction::Run <==> ok
            &&& ready == (StartAction::FailBoot { signal: false }) <==> !ok
            &&& ended == (StartAction::End { exit_with_exception: uncaught, send_event: true })
            &&& failed == (StartAction::End { exit_with_exception: true, send_event: false })
        }),
{
}

/// Every stage waits for the outcome of the action that led to it, and the last for none.
pub proof fn law_stages_wait_for_their_outcome(a: StartAction, e: StartEvent)
    ensures
        start_fits(start_stage_of(a), e) <==> {
            ||| a == StartAction::HandOver && e is HandedOver
            ||| a == StartAction::SignalBootedAndSupervise && e is Supervised
            ||| a == StartAction::InitModule && e is ModuleInitialized
            ||| a == StartAction::Run && (e is RanToEnd || e is RunFailed)
        },
        start_fits(StartStage::Creating, e) <==> e is Created,
{
}


/// A permission without limits is one that is given and lists nothing.
pub proof fn law_empty_lists_permit_everything(p: Option<Vec<String>>)
    ensures
        is_everything(p) <==> p is Some && (p->0)@ == Seq::<String>::empty(),
{
    if is_everything(p) {
        assert((p->0)@ =~= Seq::<String>::empty());
    }
}

} // verus!
