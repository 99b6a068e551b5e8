//! The debugger server of user workers: its targets, how requests are routed to them, and how a
//! session is relayed.

use uuid::Uuid;
use vstd::prelude::*;
use vstd::string::*;
use vstd::utf8::*;

use crate::module_loader::load::text_from_utf8;
use crate::text::{
    after_prefix, decimal, decimal_text, hex_text, join, law_hex_spells_the_number, same,
};
use crate::urls::{parse_url, url_parsed};

verus! {

// ---------------------------------------------------------------------------
// Identifiers
// ---------------------------------------------------------------------------

/// The identifier that a name has in the namespace of URLs.
pub uninterp spec fn url_uuid(name: Seq<u8>) -> u128;

/// `Uuid::new_v5` derives an identifier from a namespace, here that of URLs, and a name. It depends
/// on the bytes of the name alone.
#[verifier::external_body]
pub(crate) fn uuid_for_url(name: &[u8]) -> (r: u128)
    ensures
        r == url_uuid(name@),
{
    Uuid::new_v5(&Uuid::NAMESPACE_URL, name).as_u128()
}

/// An identifier as it is written: its hexadecimal digits in lower case, in groups of eight, four,
/// four, four and twelve.
pub open spec fn uuid_text(id: u128) -> Seq<char> {
    let n = id as nat;
    hex_text(n / 0x1_0000_0000_0000_0000_0000_0000, 8) + "-"@ + hex_text(
        n / 0x1_0000_0000_0000_0000_0000,
        4,
    ) + "-"@ + hex_text(n / 0x1_0000_0000_0000_0000, 4) + "-"@ + hex_text(
        n / 0x1_0000_0000_0000,
        4,
    ) + "-"@ + hex_text(n, 12)
}

/// `Uuid`'s `Display` writes an identifier in its hyphenated form.
#[verifier::external_body]
pub(crate) fn write_uuid(id: u128) -> (r: String)
    ensures
        r@ == uuid_text(id),
{
    Uuid::from_u128(id).to_string()
}

/// The identifier that a text writes.
pub uninterp spec fn uuid_parsed(text: Seq<char>) -> Option<u128>;

/// `Uuid::parse_str` reads an identifier, which depends on the text alone. What `Display` writes is
/// among the forms that it reads.
#[verifier::external_body]
pub(crate) fn parse_uuid(text: &str) -> (r: Option<u128>)
    ensures
        r == uuid_parsed(text@),
        forall|id: u128| text@ == #[trigger] uuid_text(id) ==> r == Some(id),
{
    Uuid::parse_str(text).ok().map(|u| u.as_u128())
}

/// Gives every registration a number of its own.
#[derive(Debug)]
pub struct GenerationCounter {
    pub next: u64,
}

impl GenerationCounter {
    /// The number that follows the next one.
    pub open spec fn following(self) -> u64 {
        if self.next < u64::MAX {
            (self.next + 1) as u64
        } else {
            0
        }
    }

    /// A counter that starts at one: zero means that nothing is registered.
    pub fn new() -> (r: GenerationCounter)
        ensures
            r.next == 1,
    {
        GenerationCounter { next: 1 }
    }

    /// The next number. Numbers that follow one another are in ascending order, up to the largest,
    /// after which they start again at zero.
    pub fn take(&mut self) -> (r: u64)
        ensures
            r == old(self).next,
            final(self).next == old(self).following(),
    {
        let n: u64 = self.next;
        self.next = if n < u64::MAX {
            n + 1
        } else {
            0
        };
        n
    }
}

// ---------------------------------------------------------------------------
// Options
// ---------------------------------------------------------------------------

/// How a worker is debugged; `A` is the address of the server.
#[derive(Debug, Clone, Copy)]
pub enum InspectorOption<A> {
    Inspect(A),
    WithBreak(A),
    WithWait(A),
}

impl<A> InspectorOption<A> {
    pub open spec fn addr(self) -> A {
        match self {
            InspectorOption::Inspect(a) => a,
            InspectorOption::WithBreak(a) => a,
            InspectorOption::WithWait(a) => a,
        }
    }

    /// The address of the server.
    pub fn socket_addr(&self) -> (r: &A)
        ensures
            *r == self.addr(),
    {
        match self {
            InspectorOption::Inspect(a) => a,
            InspectorOption::WithBreak(a) => a,
            InspectorOption::WithWait(a) => a,
        }
    }

    /// Whether a worker waits for a debugger before it runs.
    pub fn should_wait_for_session(&self) -> (r: bool)
        ensures
            r == !(*self is Inspect),
    {
        match self {
            InspectorOption::Inspect(_) => false,
            _ => true,
        }
    }
}

/// How a worker waits for a debugger before it runs.
#[derive(Debug, Clone, Copy, PartialEq, Eq, Structural)]
pub enum SessionWait {
    /// It does not.
    Skip,
    /// Until one is attached.
    Attach,
    /// Until one is attached, and it then stops at its first statement.
    AttachAndBreak,
}

/// The debugging of one worker: how, and the number of its registration, which is zero until it has
/// been registered.
#[derive(Debug)]
pub struct Inspector<A> {
    pub option: InspectorOption<A>,
    pub generation: u64,
}

impl<A> Inspector<A> {
    /// The debugging of a worker that has not been registered.
    pub fn with_option(option: InspectorOption<A>) -> (r: Inspector<A>)
        ensures
            r == (Inspector { option, generation: 0 }),
    {
        Inspector { option, generation: 0 }
    }

    /// Whether the worker waits for a debugger before it runs.
    pub fn should_wait_for_session(&self) -> (r: bool)
        ensures
            r == !(self.option is Inspect),
    {
        self.option.should_wait_for_session()
    }

    /// Records the number of the worker's registration.
    pub fn set_generation(&mut self, generation: u64)
        ensures
            *final(self) == (Inspector { generation, ..*old(self) }),
    {
        self.generation = generation;
    }

    /// The number of the worker's registration, or zero before it.
    pub fn generation(&self) -> (r: u64)
        ensures
            r == self.generation,
    {
        self.generation
    }

    /// How the worker waits for a debugger before it runs.
    pub fn wait_for_inspector_session(&self) -> (r: SessionWait)
        ensures
            r == match self.option {
                InspectorOption::Inspect(_) => SessionWait::Skip,
                InspectorOption::WithBreak(_) => SessionWait::AttachAndBreak,
                InspectorOption::WithWait(_) => SessionWait::Attach,
            },
    {
        match self.option {
            InspectorOption::Inspect(_) => SessionWait::Skip,
            InspectorOption::WithBreak(_) => SessionWait::AttachAndBreak,
            InspectorOption::WithWait(_) => SessionWait::Attach,
        }
    }
}

// ---------------------------------------------------------------------------
// Targets
// ---------------------------------------------------------------------------

/// A worker that can be debugged.
#[derive(Debug)]
pub struct InspectorInfo {
    /// The address of the server, as text.
    pub host: String,
    pub uuid: u128,
    /// Tells two registrations of the same identifier apart.
    pub generation: u64,
    pub thread_name: Option<String>,
    pub url: String,
    pub wait_for_session: bool,
    /// Whether its sessions have been told that it is gone.
    pub deregistered: bool,
}

/// The identifier of the worker behind a module URL. It stays the same when the worker is started
/// again.
pub open spec fn target_uuid(url: Seq<char>) -> u128 {
    url_uuid(encode_utf8(url))
}

/// The identifier of the worker behind `url`.
pub fn target_id(url: &str) -> (r: u128)
    ensures
        r == target_uuid(url@),
{
    uuid_for_url(url.as_bytes())
}

impl InspectorInfo {
    /// A target for the worker behind `url`.
    pub fn new(
        host: String,
        thread_name: Option<String>,
        url: String,
        wait_for_session: bool,
        generations: &mut GenerationCounter,
    ) -> (r: InspectorInfo)
        ensures
            r.host == host,
            r.thread_name == thread_name,
            r.url == url,
            r.wait_for_session == wait_for_session,
            !r.deregistered,
            r.uuid == target_uuid(url@),
            r.generation == old(generations).next,
            final(generations).next == old(generations).following(),
    {
        let uuid: u128 = target_id(url.as_str());
        let generation: u64 = generations.take();
        InspectorInfo {
            host,
            uuid,
            generation,
            thread_name,
            url,
            wait_for_session,
            deregistered: false,
        }
    }

    /// The address that a debugger connects to.
    pub fn get_websocket_debugger_url(&self, host: &str) -> (r: String)
        ensures
            r@ == "ws://"@ + host@ + "/ws/"@ + uuid_text(self.uuid),
    {
        let a = join("ws://", host);
        let b = join(a.as_str(), "/ws/");
        join(b.as_str(), write_uuid(self.uuid).as_str())
    }

    /// The address that opens a debugger on this target.
    pub fn get_frontend_url(&self, host: &str) -> (r: String)
        ensures
            r@ == "devtools://devtools/bundled/js_app.html?ws="@ + host@ + "/ws/"@ + uuid_text(
                self.uuid,
            ) + "&experiments=true&v8only=true"@,
    {
        let a = join("devtools://devtools/bundled/js_app.html?ws=", host);
        let b = join(a.as_str(), "/ws/");
        let c = join(b.as_str(), write_uuid(self.uuid).as_str());
        join(c.as_str(), "&experiments=true&v8only=true")
    }

    /// What the target is called.
    pub fn get_title(&self, pid: u32) -> (r: String)
        ensures
            r@ == "FlowRuntime"@ + (match self.thread_name {
                Some(n) => " - "@ + n@,
                None => Seq::empty(),
            }) + " [pid: "@ + decimal_text(pid as nat) + "]"@,
    {
        let a: String = match &self.thread_name {
            Some(n) => {
                let dash = join(" - ", n.as_str());
                join("FlowRuntime", dash.as_str())
            },
            None => {
                proof {
                    assert("FlowRuntime"@ + Seq::<char>::empty() =~= "FlowRuntime"@);
                }
                "FlowRuntime".to_owned()
            },
        };
        let b = join(a.as_str(), " [pid: ");
        let c = join(b.as_str(), decimal(pid as u64).as_str());
        join(c.as_str(), "]")
    }

    /// What the list of targets says of this one. `host` is the address under which the client
    /// reached the server, where that is known.
    pub fn get_json_metadata(&self, host: Option<&str>, pid: u32) -> (r: TargetMetadata)
        ensures
            ({
                let h = match host {
                    Some(h) => h@,
                    None => self.host@,
                };
                &&& r.description@ == "FlowRuntime"@
                &&& r.devtools_frontend_url@ == "devtools://devtools/bundled/js_app.html?ws="@ + h
                    + "/ws/"@ + uuid_text(self.uuid) + "&experiments=true&v8only=true"@
                &&& r.favicon_url@ == "https://deno.land/favicon.ico"@
                &&& r.id@ == uuid_text(self.uuid)
                &&& r.title@ == "FlowRuntime"@ + (match self.thread_name {
                    Some(n) => " - "@ + n@,
                    None => Seq::empty(),
                }) + " [pid: "@ + decimal_text(pid as nat) + "]"@
                &&& r.target_type@ == "node"@
                &&& r.url@ == self.url@
                &&& r.web_socket_debugger_url@ == "ws://"@ + h + "/ws/"@ + uuid_text(self.uuid)
            }),
    {
        let h: &str = match host {
            Some(h) => h,
            None => self.host.as_str(),
        };
        TargetMetadata {
            description: "FlowRuntime".to_owned(),
            devtools_frontend_url: self.get_frontend_url(h),
            favicon_url: "https://deno.land/favicon.ico".to_owned(),
            id: write_uuid(self.uuid),
            title: self.get_title(pid),
            target_type: "node".to_owned(),
            url: self.url.clone(),
            web_socket_debugger_url: self.get_websocket_debugger_url(h),
        }
    }
}

/// What the list of targets says of one of them.
#[derive(Debug)]
pub struct TargetMetadata {
    pub description: String,
    pub devtools_frontend_url: String,
    pub favicon_url: String,
    pub id: String,
    pub title: String,
    pub target_type: String,
    pub url: String,
    pub web_socket_debugger_url: String,
}

/// The targets of a server, one for each identifier.
pub struct Targets {
    pub infos: Vec<InspectorInfo>,
}

/// What became of a registration.
#[derive(Debug)]
pub enum Registered {
    /// The identifier is new.
    First,
    /// It replaces this one, whose sessions have been told so if they were still attached.
    Replaced(InspectorInfo),
}

/// What became of a request to close a worker's sessions.
#[derive(Debug, Clone, Copy, PartialEq, Eq, Structural)]
pub enum Disconnect {
    Fired,
    /// A newer worker has registered under the identifier in the meantime.
    Stale,
    /// No worker is registered under the identifier.
    Unknown,
}

pub open spec fn distinct_targets(infos: Seq<InspectorInfo>) -> bool {
    forall|i: int, j: int|
        0 <= i < j < infos.len() ==> (#[trigger] infos[i]).uuid != (#[trigger] infos[j]).uuid
}

/// Whether `i` is where the target with the identifier stands.
pub open spec fn target_at(infos: Seq<InspectorInfo>, uuid: u128, i: int) -> bool {
    0 <= i < infos.len() && infos[i].uuid == uuid
}

impl Targets {
    pub open spec fn wf(self) -> bool {
        distinct_targets(self.infos@)
    }

    pub open spec fn has(self, uuid: u128) -> bool {
        exists|i: int| target_at(self.infos@, uuid, i)
    }

    pub fn new() -> (r: Targets)
        ensures
            r.wf(),
            r.infos@.len() == 0,
    {
        Targets { infos: Vec::new() }
    }

    /// Where the target with the identifier stands.
    pub fn find(&self, uuid: u128) -> (r: Option<usize>)
        ensures
            match r {
                Some(i) => target_at(self.infos@, uuid, i as int),
                None => !self.has(uuid),
            },
    {
        let mut i: usize = 0;
        while i < self.infos.len()
            invariant
                i <= self.infos@.len(),
                forall|j: int| 0 <= j < i ==> (#[trigger] self.infos@[j]).uuid != uuid,
            decreases self.infos@.len() - i,
        {
            if self.infos[i].uuid == uuid {
                assert(target_at(self.infos@, uuid, i as int));
                return Some(i);
            }
            i = i + 1;
        }
        None
    }

    /// Registers a target. One with the same identifier is replaced; `still_attached` says whether
    /// its sessions are still there, which are then told that it is gone.
    pub fn register(&mut self, info: InspectorInfo, still_attached: bool) -> (r: Registered)
        requires
            old(self).wf(),
        ensures
            final(self).wf(),
            match r {
                Registered::First => !old(self).has(info.uuid) && final(self).infos@
                    == old(self).infos@.push(info),
                Registered::Replaced(prev) => exists|i: int|
                    {
                        &&& #[trigger] target_at(old(self).infos@, info.uuid, i)
                        &&& final(self).infos@ == old(self).infos@.update(i, info)
                        &&& prev == (InspectorInfo {
                            deregistered: old(self).infos@[i].deregistered || still_attached,
                            ..old(self).infos@[i]
                        })
                    },
            },
    {
        let uuid: u128 = info.uuid;
        match self.find(uuid) {
            Some(i) => {
                let ghost before = self.infos@;
                let mut slot = info;
                core::mem::swap(&mut self.infos[i], &mut slot);
                proof {
                    assert(self.infos@ =~= before.update(i as int, info));
                    assert(target_at(before, info.uuid, i as int));
                    assert forall|a: int, b: int| 0 <= a < b < self.infos@.len() implies (
                    #[trigger] self.infos@[a]).uuid != (#[trigger] self.infos@[b]).uuid by {
                        assert(before[a].uuid != before[b].uuid);
                    }
                }
                if still_attached {
                    slot.deregistered = true;
                }
                Registered::Replaced(slot)
            },
            None => {
                proof {
                    assert forall|a: int| 0 <= a < self.infos@.len() implies (
                    #[trigger] self.infos@[a]).uuid != uuid by {
                        if self.infos@[a].uuid == uuid {
                            assert(target_at(self.infos@, uuid, a));
                        }
                    }
                }
                self.infos.push(info);
                Registered::First
            },
        }
    }

    /// Tells the sessions of a target that its worker is gone, if it is still the worker that
    /// registered with this generation. The target stays, for its worker to register again.
    pub fn force_disconnect(&mut self, uuid: u128, generation: u64) -> (r: Disconnect)
        requires
            old(self).wf(),
        ensures
            final(self).wf(),
            match r {
                Disconnect::Unknown => !old(self).has(uuid) && *final(self) == *old(self),
                Disconnect::Stale => *final(self) == *old(self) && exists|i: int| #[trigger]
                    target_at(old(self).infos@, uuid, i) && old(self).infos@[i].generation
                        != generation,
                Disconnect::Fired => exists|i: int|
                    {
                        &&& #[trigger] target_at(old(self).infos@, uuid, i)
                        &&& old(self).infos@[i].generation == generation
                        &&& final(self).infos@ == old(self).infos@.update(
                            i,
                            (InspectorInfo { deregistered: true, ..old(self).infos@[i] }),
                        )
                    },
            },
    {
        match self.find(uuid) {
            Some(i) => {
                if self.infos[i].generation == generation {
                    let ghost before = self.infos@;
                    self.infos[i].deregistered = true;
                    proof {
                        assert(self.infos@ =~= before.update(
                            i as int,
                            InspectorInfo { deregistered: true, ..before[i as int] },
                        ));
                        assert(target_at(before, uuid, i as int));
                        assert forall|a: int, b: int| 0 <= a < b < self.infos@.len() implies (
                        #[trigger] self.infos@[a]).uuid != (#[trigger] self.infos@[b]).uuid by {
                            assert(before[a].uuid != before[b].uuid);
                        }
                    }
                    Disconnect::Fired
                } else {
                    assert(target_at(self.infos@, uuid, i as int));
                    Disconnect::Stale
                }
            },
            None => Disconnect::Unknown,
        }
    }

    /// Takes the target out whose worker has gone, and gives it with its sessions told so.
    pub fn deregister(&mut self, uuid: u128) -> (r: Option<InspectorInfo>)
        requires
            old(self).wf(),
        ensures
            final(self).wf(),
            match r {
                Some(info) => exists|i: int|
                    {
                        &&& #[trigger] target_at(old(self).infos@, uuid, i)
                        &&& final(self).infos@ == old(self).infos@.remove(i)
                        &&& info == (InspectorInfo {
                            deregistered: true,
                            ..old(self).infos@[i]
                        })
                    },
                None => !old(self).has(uuid) && *final(self) == *old(self),
            },
            !final(self).has(uuid),
    {
        match self.find(uuid) {
            Some(i) => {
                let ghost before = self.infos@;
                let mut info = self.infos.remove(i);
                info.deregistered = true;
                proof {
                    assert(target_at(before, uuid, i as int));
                    assert forall|a: int, b: int| 0 <= a < b < self.infos@.len() implies (
                    #[trigger] self.infos@[a]).uuid != (#[trigger] self.infos@[b]).uuid by {
                        let a2 = if a < i { a } else { a + 1 };
                        let b2 = if b < i { b } else { b + 1 };
                        assert(before[a2].uuid != before[b2].uuid);
                    }
                    assert forall|a: int| 0 <= a < self.infos@.len() implies (
                    #[trigger] self.infos@[a]).uuid != uuid by {
                        let a2 = if a < i { a } else { a + 1 };
                        if a2 < i {
                            assert(before[a2].uuid != before[i as int].uuid);
                        } else {
                            assert(before[i as int].uuid != before[a2].uuid);
                        }
                    }
                    assert(!self.has(uuid)) by {
                        if self.has(uuid) {
                            let k = choose|k: int| target_at(self.infos@, uuid, k);
                            assert(self.infos@[k].uuid != uuid);
                        }
                    }
                }
                Some(info)
            },
            None => None,
        }
    }
}

// ---------------------------------------------------------------------------
// Requests
// ---------------------------------------------------------------------------

/// What a request asks for.
#[derive(Debug)]
pub enum Route {
    /// A session with the target that the rest of the path names.
    Session(String),
    /// The version of the server.
    Version,
    /// The list of targets.
    List,
    NotFound,
}

/// What a request asks for.
pub fn route(is_get: bool, path: &str) -> (r: Route)
    ensures
        if is_get && "/ws/"@.is_prefix_of(path@) {
            r matches Route::Session(rest) && rest@ == path@.skip("/ws/"@.len() as int)
        } else if is_get && path@ == "/json/version"@ {
            r is Version
        } else if is_get && (path@ == "/json"@ || path@ == "/json/list"@) {
            r is List
        } else {
            r is NotFound
        },
{
    if !is_get {
        return Route::NotFound;
    }
    match after_prefix(path, "/ws/") {
        Some(rest) => Route::Session(rest.to_owned()),
        None => {
            if same(path, "/json/version") {
                Route::Version
            } else if same(path, "/json") || same(path, "/json/list") {
                Route::List
            } else {
                Route::NotFound
            }
        },
    }
}

/// Why a session is refused.
#[derive(Debug, Clone, Copy, PartialEq, Eq, Structural)]
pub enum SessionError {
    /// The path names no identifier.
    Malformed,
    /// No target has the identifier.
    Unknown,
    /// The request does not open a session.
    NotAWebSocket,
}

impl SessionError {
    pub open spec fn text(self) -> Seq<char> {
        match self {
            SessionError::Malformed => "Malformed inspector UUID"@,
            SessionError::Unknown => "Invalid inspector UUID"@,
            SessionError::NotAWebSocket => "Not a valid Websocket Request"@,
        }
    }

    /// The status of the response.
    pub open spec fn code(self) -> u16 {
        match self {
            SessionError::Unknown => 404,
            _ => 400,
        }
    }

    pub fn message(&self) -> (r: String)
        ensures
            r@ == self.text(),
    {
        match self {
            SessionError::Malformed => "Malformed inspector UUID".to_owned(),
            SessionError::Unknown => "Invalid inspector UUID".to_owned(),
            SessionError::NotAWebSocket => "Not a valid Websocket Request".to_owned(),
        }
    }

    pub fn status(&self) -> (r: u16)
        ensures
            r == self.code(),
    {
        match self {
            SessionError::Unknown => 404,
            _ => 400,
        }
    }
}

/// Finds the target of a session by the identifier that its path names.
pub fn handle_ws_request(named: Option<u128>, targets: &Targets) -> (r: Result<usize, SessionError>)
    ensures
        match named {
            None => r == Err::<usize, SessionError>(SessionError::Malformed),
            Some(uuid) => match r {
                Ok(i) => target_at(targets.infos@, uuid, i as int),
                Err(e) => e == SessionError::Unknown && !targets.has(uuid),
            },
        },
{
    match named {
        None => Err(SessionError::Malformed),
        Some(uuid) => match targets.find(uuid) {
            Some(i) => Ok(i),
            None => Err(SessionError::Unknown),
        },
    }
}

/// Finds the target of a session by what follows `/ws/` in its path.
pub fn find_session_target(rest: &str, targets: &Targets) -> (r: Result<usize, SessionError>)
    ensures
        match uuid_parsed(rest@) {
            None => r == Err::<usize, SessionError>(SessionError::Malformed),
            Some(uuid) => match r {
                Ok(i) => target_at(targets.infos@, uuid, i as int),
                Err(e) => e == SessionError::Unknown && !targets.has(uuid),
            },
        },
        forall|id: u128| rest@ == #[trigger] uuid_text(id) ==> uuid_parsed(rest@) == Some(id),
{
    handle_ws_request(parse_uuid(rest), targets)
}

/// The address under which a client reached the server, from the `Host` header of its request: the
/// host, and the port where it names one.
pub open spec fn client_host(header: Seq<char>) -> Option<Seq<char>> {
    match url_parsed("http://"@ + header) {
        Some(u) => match u.host {
            Some(h) => match u.port {
                Some(p) => Some(h + ":"@ + decimal_text(p as nat)),
                None => Some(h),
            },
            None => None,
        },
        None => None,
    }
}

/// The address that a host and a port make.
pub fn host_and_port(host: Option<String>, port: Option<u16>) -> (r: Option<String>)
    ensures
        match (host, port) {
            (Some(h), Some(p)) => r matches Some(s) && s@ == h@ + ":"@ + decimal_text(p as nat),
            (Some(h), None) => r matches Some(s) && s@ == h@,
            (None, _) => r is None,
        },
{
    match host {
        Some(h) => match port {
            Some(p) => {
                let a = join(h.as_str(), ":");
                Some(join(a.as_str(), decimal(p as u64).as_str()))
            },
            None => Some(h),
        },
        None => None,
    }
}

/// The address under which a client reached the server.
pub fn requested_host(header: &str) -> (r: Option<String>)
    ensures
        match r {
            Some(s) => client_host(header@) == Some(s@),
            None => client_host(header@) is None,
        },
{
    let text = join("http://", header);
    match parse_url(text.as_str()) {
        Some(u) => host_and_port(u.host, u.port),
        None => None,
    }
}

// ---------------------------------------------------------------------------
// Sessions
// ---------------------------------------------------------------------------

/// What happens in a session.
#[derive(Debug)]
pub enum PumpEvent {
    /// The worker sends a message.
    Outbound(String),
    /// The worker is gone.
    WorkerGone,
    /// The client sends text.
    ClientText(Vec<u8>),
    ClientClosed,
    /// The client sends something else.
    ClientOther,
    ClientError,
    /// It is time to look whether the worker has been deregistered.
    Tick { deregistered: bool },
}

/// What is done in a session.
#[derive(Debug)]
pub enum PumpAction {
    Nothing,
    /// Send the message to the client.
    SendToClient(String),
    /// Send the message to the worker.
    SendToWorker(String),
    /// End the session. `by_server` says whether the client is told why.
    Close { by_server: bool },
}

/// The code with which the server closes a session: it is going away.
pub const CLOSE_GOING_AWAY: u16 = 1001;

/// Whether a session ends before it begins: the worker has been deregistered already.
pub fn pump_starts(deregistered: bool) -> (r: PumpAction)
    ensures
        r == if deregistered {
            PumpAction::Close { by_server: true }
        } else {
            PumpAction::Nothing
        },
{
    if deregistered {
        PumpAction::Close { by_server: true }
    } else {
        PumpAction::Nothing
    }
}

/// What is done about an event of a session. Text of the client that is not UTF-8 is ignored.
pub fn pump_step(event: PumpEvent) -> (r: PumpAction)
    ensures
        match event {
            PumpEvent::Outbound(m) => r == PumpAction::SendToClient(m),
            PumpEvent::WorkerGone => r == (PumpAction::Close { by_server: true }),
            PumpEvent::ClientText(b) => if valid_utf8(b@) {
                r matches PumpAction::SendToWorker(s) && encode_utf8(s@) == b@
            } else {
                r is Nothing
            },
            PumpEvent::ClientClosed => r == (PumpAction::Close { by_server: false }),
            PumpEvent::ClientOther => r is Nothing,
            PumpEvent::ClientError => r == (PumpAction::Close { by_server: false }),
            PumpEvent::Tick { deregistered } => if deregistered {
                r == (PumpAction::Close { by_server: true })
            } else {
                r is Nothing
            },
        },
{
    match event {
        PumpEvent::Outbound(m) => PumpAction::SendToClient(m),
        PumpEvent::WorkerGone => PumpAction::Close { by_server: true },
        PumpEvent::ClientText(b) => match text_from_utf8(b) {
            Some(s) => PumpAction::SendToWorker(s),
            None => PumpAction::Nothing,
        },
        PumpEvent::ClientClosed => PumpAction::Close { by_server: false },
        PumpEvent::ClientOther => PumpAction::Nothing,
        PumpEvent::ClientError => PumpAction::Close { by_server: false },
        PumpEvent::Tick { deregistered } => if deregistered {
            PumpAction::Close { by_server: true }
        } else {
            PumpAction::Nothing
        },
    }
}

// ---------------------------------------------------------------------------
// Laws
// ---------------------------------------------------------------------------

/// A worker keeps its identifier when it is started again: it depends on the URL alone.
pub proof fn law_target_survives_restart(a: InspectorInfo, b: InspectorInfo)
    requires
        a.url@ == b.url@,
        a.uuid == target_uuid(a.url@),
        b.uuid == target_uuid(b.url@),
    ensures
        a.uuid == b.uuid,
{
}

/// A request to close the sessions of a worker that has been replaced closes nothing: after `newer`
/// has registered under the identifier, the generation of the older registration no longer matches.
pub proof fn law_stale_disconnect_is_ignored(
    infos: Seq<InspectorInfo>,
    newer: InspectorInfo,
    i: int,
    older_generation: u64,
)
    requires
        target_at(infos, newer.uuid, i),
        older_generation < newer.generation,
        distinct_targets(infos),
    ensures
        forall|k: int| #[trigger]
            target_at(infos.update(i, newer), newer.uuid, k) ==> infos.update(
                i,
                newer,
            )[k].generation != older_generation,
{
    assert forall|k: int| #[trigger]
        target_at(infos.update(i, newer), newer.uuid, k) implies infos.update(
        i,
        newer,
    )[k].generation != older_generation by {
        if k < i {
            assert(infos[k].uuid != infos[i].uuid);
        } else if i < k {
            assert(infos[i].uuid != infos[k].uuid);
        }
    }
}


/// Generations go up by one, and round at the end of the counter.
pub proof fn law_generations_go_up(c: GenerationCounter)
    ensures
        c.next < u64::MAX ==> c.following() == c.next + 1,
        c.next == u64::MAX ==> c.following() == 0,
        c.following() != c.next,
{
}

/// An inspector listens at the address that it was given, however it waits.
pub proof fn law_inspectors_keep_their_address<A>(a: A)
    ensures
        InspectorOption::Inspect(a).addr() == a,
        InspectorOption::WithBreak(a).addr() == a,
        InspectorOption::WithWait(a).addr() == a,
{
}

/// An identifier is written as five groups of hexadecimal digits with dashes between them.
pub proof fn law_identifiers_are_grouped(id: u128, i: int)
    ensures
        uuid_text(id).len() == 36,
        0 <= i < 36 && (i == 8 || i == 13 || i == 18 || i == 23) ==> uuid_text(id)[i] == '-',
        0 <= i < 36 && i != 8 && i != 13 && i != 18 && i != 23 ==> '0' <= uuid_text(id)[i] <= '9'
            || 'a' <= uuid_text(id)[i] <= 'f',
{
    reveal_strlit("-");
    let n = id as nat;
    let a: nat = n / 0x1_0000_0000_0000_0000_0000_0000;
    let b: nat = n / 0x1_0000_0000_0000_0000_0000;
    let c: nat = n / 0x1_0000_0000_0000_0000;
    let d: nat = n / 0x1_0000_0000_0000;
    law_hex_spells_the_number(a, 8);
    law_hex_spells_the_number(b, 4);
    law_hex_spells_the_number(c, 4);
    law_hex_spells_the_number(d, 4);
    law_hex_spells_the_number(n, 12);
    if 0 <= i < 8 {
        assert(uuid_text(id)[i] == hex_text(a, 8)[i]);
    } else if 8 < i < 13 {
        assert(uuid_text(id)[i] == hex_text(b, 4)[i - 9]);
    } else if 13 < i < 18 {
        assert(uuid_text(id)[i] == hex_text(c, 4)[i - 14]);
    } else if 18 < i < 23 {
        assert(uuid_text(id)[i] == hex_text(d, 4)[i - 19]);
    } else if 23 < i < 36 {
        assert(uuid_text(id)[i] == hex_text(n, 12)[i - 24]);
    }
}

/// A target goes by the identifier of its URL, and is there exactly while one of those registered
/// has that.
pub proof fn law_targets_go_by_their_identifier(t: Targets, url: Seq<char>)
    ensures
        target_uuid(url) == url_uuid(encode_utf8(url)),
        t.has(target_uuid(url)) <==> t.infos@.map_values(|i: InspectorInfo| i.uuid).contains(
            url_uuid(encode_utf8(url)),
        ),
{
    let ids = t.infos@.map_values(|i: InspectorInfo| i.uuid);
    let uuid = target_uuid(url);
    if t.has(uuid) {
        let i = choose|i: int| target_at(t.infos@, uuid, i);
        assert(ids[i] == uuid);
    }
    if ids.contains(uuid) {
        let i = ids.index_of(uuid);
        assert(target_at(t.infos@, uuid, i));
    }
}

/// The host that a client asked for is the one in its header, with the port where that has one; a
/// header that names no host stands for none.
pub proof fn law_clients_are_answered_at_their_host(header: Seq<char>)
    ensures
        ({
            let u = url_parsed("http://"@ + header);
            &&& client_host(header) is Some <==> u is Some && (u->0).host is Some
            &&& client_host(header) is Some && (u->0).port is None ==> client_host(header)->0 == (
            u->0).host->0
            &&& client_host(header) is Some && (u->0).port is Some ==> client_host(header)->0 == (
            u->0).host->0 + seq![':'] + decimal_text((u->0).port->0 as nat)
        }),
{
    reveal_strlit(":");
    assert(":"@ =~= seq![':']);
}

/// A session that names nothing known is not found; any other that cannot be had is a bad request.
pub proof fn law_refused_sessions_say_why(e: SessionError)
    ensures
        e.code() == 404 <==> e == SessionError::Unknown,
        e.code() == 400 <==> e == SessionError::Malformed || e == SessionError::NotAWebSocket,
        e.text() == "Malformed inspector UUID"@ <==> e == SessionError::Malformed,
        e.text() == "Invalid inspector UUID"@ <==> e == SessionError::Unknown,
        e.text() == "Not a valid Websocket Request"@ <==> e == SessionError::NotAWebSocket,
{
    reveal_strlit("Malformed inspector UUID");
    reveal_strlit("Invalid inspector UUID");
    reveal_strlit("Not a valid Websocket Request");
    assert("Malformed inspector UUID"@[0] == 'M');
    assert("Invalid inspector UUID"@[0] == 'I');
    assert("Not a valid Websocket Request"@[0] == 'N');
}

} // verus!
