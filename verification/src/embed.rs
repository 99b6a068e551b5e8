//! Registration points for an embedding binary: each can be filled once, and the first
//! registration wins.

use vstd::prelude::*;

verus! {

/// A place that is filled at most once.
pub struct Slot<T> {
    pub value: Option<T>,
}

impl<T> View for Slot<T> {
    type V = Option<T>;

    open spec fn view(&self) -> Option<T> {
        self.value
    }
}

impl<T> Slot<T> {
    /// An empty slot.
    pub fn new() -> (r: Slot<T>)
        ensures
            r@ is None,
    {
        Slot { value: None }
    }

    /// Fills the slot. Where it is filled already, it keeps what it holds, and the result is
    /// `false`.
    pub fn set(&mut self, value: T) -> (r: bool)
        ensures
            r == old(self)@ is None,
            final(self)@ == if r {
                Some(value)
            } else {
                old(self)@
            },
    {
        if self.value.is_none() {
            self.value = Some(value);
            true
        } else {
            false
        }
    }

    /// What the slot holds.
    pub fn get(&self) -> (r: Option<&T>)
        ensures
            match r {
                Some(v) => self@ == Some(*v),
                None => self@ is None,
            },
    {
        self.value.as_ref()
    }
}

/// Registers the factory of the extensions that the main worker gets.
pub fn register_main_worker_extensions<F>(slot: &mut Slot<F>, factory: F)
    ensures
        final(slot)@ == if old(slot)@ is Some {
            old(slot)@
        } else {
            Some(factory)
        },
{
    let _ = slot.set(factory);
}

/// Whether an embedding binary has registered extensions.
pub fn has_main_worker_extensions<F>(slot: &Slot<F>) -> (r: bool)
    ensures
        r == slot@ is Some,
{
    slot.value.is_some()
}

/// The extensions of the main worker: what the registered factory makes, or none.
pub fn build_main_worker_extensions<E, F: Fn() -> Vec<E>>(slot: &Slot<F>) -> (r: Vec<E>)
    requires
        slot@ matches Some(f) ==> f.requires(()),
    ensures
        slot@ matches Some(f) ==> f.ensures((), r),
        slot@ is None ==> r@.len() == 0,
{
    match slot.get() {
        Some(f) => f(),
        None => Vec::new(),
    }
}

/// Registers the text that is added to the command-line help.
pub fn register_help_section<F>(slot: &mut Slot<F>, section: F)
    ensures
        final(slot)@ == if old(slot)@ is Some {
            old(slot)@
        } else {
            Some(section)
        },
{
    let _ = slot.set(section);
}

/// The text that is added to the command-line help, if any.
pub fn help_section<F: Fn() -> String>(slot: &Slot<F>) -> (r: Option<String>)
    requires
        slot@ matches Some(f) ==> f.requires(()),
    ensures
        r is Some == slot@ is Some,
        slot@ matches Some(f) ==> f.ensures((), r->0),
{
    match slot.get() {
        Some(f) => Some(f()),
        None => None,
    }
}

/// Registers the filter that the command line passes through.
pub fn register_arg_filter<F>(slot: &mut Slot<F>, filter: F)
    ensures
        final(slot)@ == if old(slot)@ is Some {
            old(slot)@
        } else {
            Some(filter)
        },
{
    let _ = slot.set(filter);
}

/// The command line after the registered filter, or as it is where there is none.
pub fn apply_arg_filter<A, F: Fn(Vec<A>) -> Vec<A>>(slot: &Slot<F>, args: Vec<A>) -> (r: Vec<A>)
    requires
        slot@ matches Some(f) ==> f.requires((args,)),
    ensures
        slot@ matches Some(f) ==> f.ensures((args,), r),
        slot@ is None ==> r == args,
{
    match slot.get() {
        Some(f) => f(args),
        None => args,
    }
}

/// Registers the store of buffers that is shared between isolates.
pub fn register_shared_array_buffer_store<S>(slot: &mut Slot<S>, store: S)
    ensures
        final(slot)@ == if old(slot)@ is Some {
            old(slot)@
        } else {
            Some(store)
        },
{
    let _ = slot.set(store);
}

/// The registered store, or the fresh one where there is none.
pub fn shared_array_buffer_store<S: Clone>(slot: &Slot<S>, fresh: S) -> (r: S)
    ensures
        slot@ matches Some(s) ==> cloned(s, r),
        slot@ is None ==> r == fresh,
{
    match slot.get() {
        Some(s) => s.clone(),
        None => fresh,
    }
}

/// Registers the step that runs once on a freshly set up main worker.
pub fn register_main_worker_post_bootstrap<F>(slot: &mut Slot<F>, hook: F)
    ensures
        final(slot)@ == if old(slot)@ is Some {
            old(slot)@
        } else {
            Some(hook)
        },
{
    let _ = slot.set(hook);
}

/// Runs the registered step on the runtime that is lent to it, or does nothing where there is
/// none.
pub fn run_main_worker_post_bootstrap<R, E, F: Fn(R) -> Result<(), E>>(
    slot: &Slot<F>,
    runtime: R,
) -> (r: Result<(), E>)
    requires
        slot@ matches Some(f) ==> f.requires((runtime,)),
    ensures
        slot@ matches Some(f) ==> f.ensures((runtime,), r),
        slot@ is None ==> r is Ok,
{
    match slot.get() {
        Some(f) => f(runtime),
        None => Ok(()),
    }
}

/// What becomes of a slot that is offered several values in turn.
pub open spec fn offered<T>(slot: Option<T>, values: Seq<T>) -> Option<T>
    decreases values.len(),
{
    if values.len() == 0 {
        slot
    } else {
        let before = offered(slot, values.drop_last());
        if before is Some {
            before
        } else {
            Some(values.last())
        }
    }
}

/// The first registration wins: whatever follows it changes nothing.
pub proof fn law_first_registration_wins<T>(slot: Option<T>, values: Seq<T>)
    ensures
        slot is Some ==> offered(slot, values) == slot,
        slot is None && values.len() > 0 ==> offered(slot, values) == Some(values[0]),
    decreases values.len(),
{
    if values.len() > 0 {
        law_first_registration_wins(slot, values.drop_last());
        if values.len() > 1 {
            assert(values.drop_last()[0] == values[0]);
        }
    }
}

} // verus!
