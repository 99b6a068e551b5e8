//! Building a worker.

use vstd::prelude::*;

use crate::flags::{unset_flags, SupervisorPolicy, WorkerFlags};
use crate::worker::start::{name_of, worker_name, WorkerKind};

verus! {

/// Why a worker cannot be set up.
#[derive(Debug)]
pub enum SurfaceError<E> {
    /// It is not known how to start it.
    NoInitOptions,
    /// The hook refused it, for this reason.
    Hook(E),
}

impl<E> SurfaceError<E> {
    /// What is wrong, unless the hook says it.
    pub fn message(&self) -> (r: Option<String>)
        ensures
            match *self {
                SurfaceError::NoInitOptions => r matches Some(s) && s@
                    == "init_opts must be specified"@,
                SurfaceError::Hook(_) => r is None,
            },
    {
        match self {
            SurfaceError::NoInitOptions => Some("init_opts must be specified".to_owned()),
            SurfaceError::Hook(_) => None,
        }
    }
}

/// Sets a worker up: how to start it (`I`), its debugger (`P`), who is told of its termination
/// (`T`), and what it is called (`N`).
#[derive(Debug)]
pub struct WorkerBuilder<I, T, P, N> {
    pub init_opts: I,
    pub flags: WorkerFlags,
    pub inspector: Option<P>,
    pub supervisor_policy: Option<SupervisorPolicy>,
    pub termination_token: Option<T>,
    pub worker_naming_fn: Option<N>,
}

/// What a worker is known by.
#[derive(Debug)]
pub struct WorkerCx<I, T, P> {
    pub init_opts: I,
    pub flags: WorkerFlags,
    pub inspector: Option<P>,
    pub supervisor_policy: SupervisorPolicy,
    pub termination_token: Option<T>,
    pub worker_kind: WorkerKind,
    pub worker_name: String,
}

impl<I, T, P, N> WorkerBuilder<I, T, P, N> {
    pub fn new(init_opts: I, flags: WorkerFlags) -> (r: WorkerBuilder<I, T, P, N>)
        ensures
            r == (WorkerBuilder::<I, T, P, N> {
                init_opts,
                flags,
                inspector: None,
                supervisor_policy: None,
                termination_token: None,
                worker_naming_fn: None,
            }),
    {
        WorkerBuilder {
            init_opts,
            flags,
            inspector: None,
            supervisor_policy: None,
            termination_token: None,
            worker_naming_fn: None,
        }
    }

    pub fn inspector(self, value: P) -> (r: WorkerBuilder<I, T, P, N>)
        ensures
            r == (WorkerBuilder { inspector: Some(value), ..self }),
    {
        let mut b = self;
        b.inspector = Some(value);
        b
    }

    pub fn set_inspector(&mut self, value: Option<P>)
        ensures
            *final(self) == (WorkerBuilder { inspector: value, ..*old(self) }),
    {
        self.inspector = value;
    }

    pub fn supervisor_policy(self, value: SupervisorPolicy) -> (r: WorkerBuilder<I, T, P, N>)
        ensures
            r == (WorkerBuilder { supervisor_policy: Some(value), ..self }),
    {
        let mut b = self;
        b.supervisor_policy = Some(value);
        b
    }

    pub fn set_supervisor_policy(&mut self, value: Option<SupervisorPolicy>)
        ensures
            *final(self) == (WorkerBuilder { supervisor_policy: value, ..*old(self) }),
    {
        self.supervisor_policy = value;
    }

    pub fn termination_token(self, value: T) -> (r: WorkerBuilder<I, T, P, N>)
        ensures
            r == (WorkerBuilder { termination_token: Some(value), ..self }),
    {
        let mut b = self;
        b.termination_token = Some(value);
        b
    }

    pub fn set_termination_token(&mut self, value: Option<T>)
        ensures
            *final(self) == (WorkerBuilder { termination_token: value, ..*old(self) }),
    {
        self.termination_token = value;
    }

    pub fn worker_naming_fn(self, value: N) -> (r: WorkerBuilder<I, T, P, N>)
        ensures
            r == (WorkerBuilder { worker_naming_fn: Some(value), ..self }),
    {
        let mut b = self;
        b.worker_naming_fn = Some(value);
        b
    }

    pub fn set_worker_naming_fn(&mut self, value: Option<N>)
        ensures
            *final(self) == (WorkerBuilder { worker_naming_fn: value, ..*old(self) }),
    {
        self.worker_naming_fn = value;
    }

    /// The worker, under the name that it is given for its key or else goes by; where nothing is
    /// said of its supervision it is supervised for its whole life.
    pub fn build(self, worker_kind: WorkerKind, key: Option<&str>) -> (r: WorkerCx<I, T, P>) where
        N: FnOnce(Option<&str>) -> String,

        requires
            self.worker_naming_fn matches Some(f) ==> f.requires((key,)),
        ensures
            r.init_opts == self.init_opts,
            r.flags == self.flags,
            r.inspector == self.inspector,
            r.supervisor_policy == match self.supervisor_policy {
                Some(p) => p,
                None => SupervisorPolicy::PerWorker,
            },
            r.termination_token == self.termination_token,
            r.worker_kind == worker_kind,
            match self.worker_naming_fn {
                Some(f) => f.ensures((key,), r.worker_name),
                None => r.worker_name@ == name_of(
                    worker_kind,
                    match key {
                        Some(k) => Some(k@),
                        None => None,
                    },
                ),
            },
    {
        let name: String = match self.worker_naming_fn {
            Some(f) => f(key),
            None => worker_name(worker_kind, key),
        };
        WorkerCx {
            init_opts: self.init_opts,
            flags: self.flags,
            inspector: self.inspector,
            supervisor_policy: match self.supervisor_policy {
                Some(p) => p,
                None => SupervisorPolicy::PerWorker,
            },
            termination_token: self.termination_token,
            worker_kind,
            worker_name: name,
        }
    }
}

/// Collects what a worker is built from. The hook (`H`) has the last word on how it is set up.
#[derive(Debug)]
pub struct WorkerSurfaceBuilder<I, T, P, H> {
    pub init_opts: Option<I>,
    pub flags: Option<WorkerFlags>,
    pub policy: Option<SupervisorPolicy>,
    pub termination_token: Option<T>,
    pub inspector: Option<P>,
    pub worker_builder_hook: Option<H>,
    pub eager_module_init: bool,
}

impl<I, T, P, H> WorkerSurfaceBuilder<I, T, P, H> {
    /// A builder with nothing set.
    pub fn new() -> (r: WorkerSurfaceBuilder<I, T, P, H>)
        ensures
            r == (WorkerSurfaceBuilder::<I, T, P, H> {
                init_opts: None,
                flags: None,
                policy: None,
                termination_token: None,
                inspector: None,
                worker_builder_hook: None,
                eager_module_init: false,
            }),
    {
        WorkerSurfaceBuilder {
            init_opts: None,
            flags: None,
            policy: None,
            termination_token: None,
            inspector: None,
            worker_builder_hook: None,
            eager_module_init: false,
        }
    }

    pub fn init_opts(self, value: I) -> (r: WorkerSurfaceBuilder<I, T, P, H>)
        ensures
            r == (WorkerSurfaceBuilder { init_opts: Some(value), ..self }),
    {
        let mut b = self;
        b.init_opts = Some(value);
        b
    }

    pub fn set_init_opts(&mut self, value: Option<I>)
        ensures
            *final(self) == (WorkerSurfaceBuilder { init_opts: value, ..*old(self) }),
    {
        self.init_opts = value;
    }

    pub fn worker_flags(self, value: WorkerFlags) -> (r: WorkerSurfaceBuilder<I, T, P, H>)
        ensures
            r == (WorkerSurfaceBuilder { flags: Some(value), ..self }),
    {
        let mut b = self;
        b.flags = Some(value);
        b
    }

    pub fn set_worker_flags(&mut self, value: Option<WorkerFlags>)
        ensures
            *final(self) == (WorkerSurfaceBuilder { flags: value, ..*old(self) }),
    {
        self.flags = value;
    }

    pub fn policy(self, value: SupervisorPolicy) -> (r: WorkerSurfaceBuilder<I, T, P, H>)
        ensures
            r == (WorkerSurfaceBuilder { policy: Some(value), ..self }),
    {
        let mut b = self;
        b.policy = Some(value);
        b
    }

    pub fn set_policy(&mut self, value: Option<SupervisorPolicy>)
        ensures
            *final(self) == (WorkerSurfaceBuilder { policy: value, ..*old(self) }),
    {
        self.policy = value;
    }

    pub fn termination_token(self, value: T) -> (r: WorkerSurfaceBuilder<I, T, P, H>)
        ensures
            r == (WorkerSurfaceBuilder { termination_token: Some(value), ..self }),
    {
        let mut b = self;
        b.termination_token = Some(value);
        b
    }

    pub fn set_termination_token(&mut self, value: Option<T>)
        ensures
            *final(self) == (WorkerSurfaceBuilder { termination_token: value, ..*old(self) }),
    {
        self.termination_token = value;
    }

    pub fn inspector(self, value: P) -> (r: WorkerSurfaceBuilder<I, T, P, H>)
        ensures
            r == (WorkerSurfaceBuilder { inspector: Some(value), ..self }),
    {
        let mut b = self;
        b.inspector = Some(value);
        b
    }

    pub fn set_inspector(&mut self, value: Option<P>)
        ensures
            *final(self) == (WorkerSurfaceBuilder { inspector: value, ..*old(self) }),
    {
        self.inspector = value;
    }

    pub fn worker_builder_hook(self, value: H) -> (r: WorkerSurfaceBuilder<I, T, P, H>)
        ensures
            r == (WorkerSurfaceBuilder { worker_builder_hook: Some(value), ..self }),
    {
        let mut b = self;
        b.worker_builder_hook = Some(value);
        b
    }

    pub fn set_worker_builder_hook(&mut self, value: Option<H>)
        ensures
            *final(self) == (WorkerSurfaceBuilder { worker_builder_hook: value, ..*old(self) }),
    {
        self.worker_builder_hook = value;
    }

    pub fn eager_module_init(self, value: bool) -> (r: WorkerSurfaceBuilder<I, T, P, H>)
        ensures
            r == (WorkerSurfaceBuilder { eager_module_init: value, ..self }),
    {
        let mut b = self;
        b.eager_module_init = value;
        b
    }

    pub fn set_eager_module_init(&mut self, value: bool)
        ensures
            *final(self) == (WorkerSurfaceBuilder { eager_module_init: value, ..*old(self) }),
    {
        self.eager_module_init = value;
    }

    /// What the worker is set up with before the hook has seen it.
    pub open spec fn prepared<N>(self) -> WorkerBuilder<I, T, P, N> {
        WorkerBuilder {
            init_opts: self.init_opts->0,
            flags: match self.flags {
                Some(f) => f,
                None => unset_flags(),
            },
            inspector: self.inspector,
            supervisor_policy: self.policy,
            termination_token: self.termination_token,
            worker_naming_fn: None,
        }
    }

    /// The worker's setup, and whether its main module is loaded as soon as it starts. How to start
    /// it must be known; flags that are not set are all off. The hook may change anything, or refuse
    /// with an error of its own.
    pub fn build<N, E>(self) -> (r: Result<(WorkerBuilder<I, T, P, N>, bool), SurfaceError<E>>) where
        H: FnOnce(WorkerBuilder<I, T, P, N>) -> Result<WorkerBuilder<I, T, P, N>, E>,

        requires
            self.init_opts is Some ==> (self.worker_builder_hook matches Some(h) ==> h.requires(
                (self.prepared(),),
            )),
        ensures
            self.init_opts is None ==> r is Err && r->Err_0 is NoInitOptions,
            self.init_opts is Some ==> match self.worker_builder_hook {
                None => r == Ok::<(WorkerBuilder<I, T, P, N>, bool), SurfaceError<E>>(
                    (self.prepared(), self.eager_module_init),
                ),
                Some(h) => match r {
                    Ok((b, eager)) => eager == self.eager_module_init && h.ensures(
                        (self.prepared(),),
                        Ok(b),
                    ),
                    Err(SurfaceError::Hook(e)) => h.ensures((self.prepared(),), Err(e)),
                    Err(SurfaceError::NoInitOptions) => false,
                },
            },
    {
        let init_opts = match self.init_opts {
            Some(i) => i,
            None => {
                return Err(SurfaceError::NoInitOptions);
            },
        };
        let flags = match self.flags {
            Some(f) => f,
            None => WorkerFlags::default(),
        };
        let mut b: WorkerBuilder<I, T, P, N> = WorkerBuilder::new(init_opts, flags);
        b.set_inspector(self.inspector);
        b.set_supervisor_policy(self.policy);
        b.set_termination_token(self.termination_token);
        match self.worker_builder_hook {
            Some(hook) => match hook(b) {
                Ok(b) => Ok((b, self.eager_module_init)),
                Err(e) => Err(SurfaceError::Hook(e)),
            },
            None => Ok((b, self.eager_module_init)),
        }
    }
}


/// A builder comes with what was set on the surface; flags that were not set limit nothing, and a
/// name is left to be found.
pub proof fn law_builders_come_as_set<I, T, P, H, N>(s: WorkerSurfaceBuilder<I, T, P, H>)
    requires
        s.init_opts is Some,
    ensures
        ({
            let b = s.prepared::<N>();
            &&& s.init_opts == Some(b.init_opts)
            &&& s.flags is Some ==> s.flags == Some(b.flags)
            &&& s.flags is None ==> {
                &&& b.flags.request_wait_timeout_ms is None
                &&& b.flags.beforeunload_wall_clock_pct is None
                &&& b.flags.beforeunload_cpu_pct is None
                &&& b.flags.beforeunload_memory_pct is None
                &&& !b.flags.restrict_host_fs
            }
            &&& b.inspector == s.inspector
            &&& b.supervisor_policy == s.policy
            &&& b.termination_token == s.termination_token
            &&& b.worker_naming_fn is None
        }),
{
}

} // verus!
