//! How a bundle gets into the cache: under its content address, with no temporary file left
//! behind, and with room made for it first.

use vstd::prelude::*;

use crate::bundle_cache::address::{
    blob_name, blob_path, blob_path_of_bytes, needs_reconcile, xxh3_of,
};
use crate::bundle_cache::index::{admitted, index_admit, CacheIndex, Moment};
use crate::paths::joined;

verus! {

/// Where the bytes of a bundle come from.
#[derive(Debug, Clone, Copy, PartialEq, Eq, Structural)]
pub enum Origin {
    /// A buffer.
    Bytes,
    /// A file elsewhere, which is moved.
    Path,
    /// A temporary file that was streamed into.
    Spill,
}

/// What is to be done next.
#[derive(Debug, Clone, Copy, PartialEq, Eq, Structural)]
pub enum AdmitAction {
    /// The destination is touched, if it is there.
    Touch,
    /// Room is made for so many bytes.
    MakeRoom { incoming: u64 },
    /// The buffer is written to the temporary file, which is then renamed to the destination.
    WriteAndRename,
    /// The source is renamed to the destination.
    RenameSource,
    /// The source is copied to the temporary file, which is then renamed to the destination.
    CopyAndRename,
    /// The temporary file is renamed to the destination.
    RenameTemporary,
    /// The admission is over. What is left of the temporary file and of the source is unlinked as
    /// said, and a bundle that is new is recorded in the index.
    End { ok: bool, record: bool, drop_source: bool, drop_temporary: bool },
}

/// What came of an action.
#[derive(Debug, Clone, Copy, PartialEq, Eq, Structural)]
pub enum AdmitEvent {
    /// Whether the destination was there to be touched.
    Touched(bool),
    RoomMade,
    /// Whether the bundle got to its destination.
    Published(bool),
}

/// What an admission waits for.
#[derive(Debug, Clone, Copy, PartialEq, Eq, Structural)]
pub enum AdmitStage {
    Touching,
    MakingRoom,
    Publishing,
    Copying,
    Over,
}

/// A bundle of `size` bytes on its way into the cache.
#[derive(Debug, Clone, Copy, PartialEq, Eq, Structural)]
pub struct Admission {
    pub origin: Origin,
    pub size: u64,
    pub stage: AdmitStage,
}

pub open spec fn end(ok: bool, record: bool, drop_source: bool, drop_temporary: bool) -> AdmitAction {
    AdmitAction::End { ok, record, drop_source, drop_temporary }
}

impl Admission {
    /// Whether `event` is an answer that the admission waits for.
    pub open spec fn expects(self, event: AdmitEvent) -> bool {
        match self.stage {
            AdmitStage::Touching => event is Touched,
            AdmitStage::MakingRoom => event is RoomMade,
            AdmitStage::Publishing => event is Published,
            AdmitStage::Copying => event is Published,
            AdmitStage::Over => false,
        }
    }

    /// What follows `event`: the next stage and the action to take.
    pub open spec fn after(self, event: AdmitEvent) -> (AdmitStage, AdmitAction) {
        match (self.stage, event) {
            // The same content is there already: nothing but the clean-up is left.
            (AdmitStage::Touching, AdmitEvent::Touched(true)) => (
                AdmitStage::Over,
                end(true, false, self.origin == Origin::Path, self.origin == Origin::Spill),
            ),
            (AdmitStage::Touching, _) => if self.origin == Origin::Spill {
                (AdmitStage::Publishing, AdmitAction::RenameTemporary)
            } else {
                (AdmitStage::MakingRoom, AdmitAction::MakeRoom { incoming: self.size })
            },
            (AdmitStage::MakingRoom, _) => (
                AdmitStage::Publishing,
                if self.origin == Origin::Path {
                    AdmitAction::RenameSource
                } else {
                    AdmitAction::WriteAndRename
                },
            ),
            (AdmitStage::Publishing, AdmitEvent::Published(true)) => (
                AdmitStage::Over,
                end(true, true, false, false),
            ),
            // A file of another file system cannot be renamed: it is copied.
            (AdmitStage::Publishing, _) => if self.origin == Origin::Path {
                (AdmitStage::Copying, AdmitAction::CopyAndRename)
            } else {
                (AdmitStage::Over, end(false, false, false, true))
            },
            (AdmitStage::Copying, AdmitEvent::Published(true)) => (
                AdmitStage::Over,
                end(true, true, true, false),
            ),
            _ => (AdmitStage::Over, end(false, false, false, true)),
        }
    }

    /// Begins an admission.
    pub fn begin(origin: Origin, size: u64) -> (r: (Admission, AdmitAction))
        ensures
            r.0 == (Admission { origin, size, stage: AdmitStage::Touching }),
            r.1 == AdmitAction::Touch,
    {
        (Admission { origin, size, stage: AdmitStage::Touching }, AdmitAction::Touch)
    }

    /// Takes in what came of the last action, and says what to do next.
    pub fn step(&mut self, event: AdmitEvent) -> (r: AdmitAction)
        requires
            old(self).expects(event),
        ensures
            final(self).origin == old(self).origin,
            final(self).size == old(self).size,
            (final(self).stage, r) == old(self).after(event),
    {
        let is_path = self.origin == Origin::Path;
        let is_spill = self.origin == Origin::Spill;
        let (stage, action) = match (self.stage, event) {
            (AdmitStage::Touching, AdmitEvent::Touched(true)) => (
                AdmitStage::Over,
                AdmitAction::End {
                    ok: true,
                    record: false,
                    drop_source: is_path,
                    drop_temporary: is_spill,
                },
            ),
            (AdmitStage::Touching, _) => {
                if is_spill {
                    (AdmitStage::Publishing, AdmitAction::RenameTemporary)
                } else {
                    (AdmitStage::MakingRoom, AdmitAction::MakeRoom { incoming: self.size })
                }
            },
            (AdmitStage::MakingRoom, _) => {
                if is_path {
                    (AdmitStage::Publishing, AdmitAction::RenameSource)
                } else {
                    (AdmitStage::Publishing, AdmitAction::WriteAndRename)
                }
            },
            (AdmitStage::Publishing, AdmitEvent::Published(true)) => (
                AdmitStage::Over,
                AdmitAction::End {
                    ok: true,
                    record: true,
                    drop_source: false,
                    drop_temporary: false,
                },
            ),
            (AdmitStage::Publishing, _) if is_path => (
                AdmitStage::Copying,
                AdmitAction::CopyAndRename,
            ),
            (AdmitStage::Copying, AdmitEvent::Published(true)) => (
                AdmitStage::Over,
                AdmitAction::End {
                    ok: true,
                    record: true,
                    drop_source: true,
                    drop_temporary: false,
                },
            ),
            _ => (
                AdmitStage::Over,
                AdmitAction::End {
                    ok: false,
                    record: false,
                    drop_source: false,
                    drop_temporary: true,
                },
            ),
        };
        self.stage = stage;
        action
    }
}

/// Begins to store a buffer: the path that it is kept at, and the admission.
pub fn store_bytes(dir: &str, bytes: &[u8]) -> (r: (String, Admission, AdmitAction))
    ensures
        r.0@ == joined(dir@, blob_name(xxh3_of(bytes@))),
        r.1 == (Admission {
            origin: Origin::Bytes,
            size: bytes@.len() as u64,
            stage: AdmitStage::Touching,
        }),
        r.2 == AdmitAction::Touch,
{
    let dest = blob_path_of_bytes(dir, bytes);
    let (admission, action) = Admission::begin(Origin::Bytes, bytes.len() as u64);
    (dest, admission, action)
}

/// Begins to move in a file whose content has the given hash and size: the path that it is kept
/// at, and the admission.
pub fn ingest_path(dir: &str, hash: u64, size: u64) -> (r: (String, Admission, AdmitAction))
    ensures
        r.0@ == joined(dir@, blob_name(hash)),
        r.1 == (Admission { origin: Origin::Path, size, stage: AdmitStage::Touching }),
        r.2 == AdmitAction::Touch,
{
    let dest = blob_path(dir, hash);
    let (admission, action) = Admission::begin(Origin::Path, size);
    (dest, admission, action)
}

/// Records a bundle that has landed, and says whether another sweep is due: a spill whose size was
/// not known before may have grown the account past the cap.
pub fn record_landed(
    index: &mut CacheIndex,
    admission: &Admission,
    dest: &str,
    now: Moment,
    cap: Option<u64>,
) -> (r: bool)
    requires
        old(index).wf(),
        old(index).built ==> old(index).total_bytes - old(index).size_of(dest@) + admission.size
            <= u64::MAX,
    ensures
        final(index).wf(),
        admitted(*old(index), *final(index), dest@, admission.size, now),
        r == (admission.origin == Origin::Spill && (cap matches Some(c) && final(index).total_bytes
            > c)),
{
    index_admit(index, dest, admission.size, now);
    admission.origin == Origin::Spill && needs_reconcile(index.total_bytes, cap)
}

// ---------------------------------------------------------------------------
// Laws
// ---------------------------------------------------------------------------

/// Which of the files that an admission works on exist.
#[derive(Debug, Clone, Copy, PartialEq, Eq, Structural)]
pub struct Presence {
    pub dest: bool,
    pub temporary: bool,
    pub source: bool,
}

/// Whether taking `action`, with `event` for its answer, can turn the files `a` into the files
/// `b`. A failed write or copy leaves a temporary file or none; every rename happens whole or not
/// at all.
pub open spec fn acts(action: AdmitAction, event: AdmitEvent, a: Presence, b: Presence) -> bool {
    match (action, event) {
        (AdmitAction::Touch, AdmitEvent::Touched(there)) => a == b && there == a.dest,
        // Making room never removes what is not there, and the destination is not.
        (AdmitAction::MakeRoom { .. }, AdmitEvent::RoomMade) => a == b,
        (AdmitAction::WriteAndRename, AdmitEvent::Published(ok)) => {
            &&& b.source == a.source
            &&& ok ==> b.dest && !b.temporary
            &&& !ok ==> b.dest == a.dest
        },
        (AdmitAction::RenameSource, AdmitEvent::Published(ok)) => if ok {
            b == Presence { dest: true, source: false, ..a }
        } else {
            b == a
        },
        (AdmitAction::CopyAndRename, AdmitEvent::Published(ok)) => {
            &&& b.source == a.source
            &&& ok ==> b.dest && !b.temporary
            &&& !ok ==> b.dest == a.dest
        },
        (AdmitAction::RenameTemporary, AdmitEvent::Published(ok)) => if ok {
            b == Presence { dest: true, temporary: false, ..a }
        } else {
            b == a
        },
        _ => false,
    }
}

/// The files once the clean-up of an admission that is over has been done.
pub open spec fn cleaned(action: AdmitAction, a: Presence) -> Presence {
    match action {
        AdmitAction::End { ok, record, drop_source, drop_temporary } => Presence {
            dest: a.dest,
            temporary: a.temporary && !drop_temporary,
            source: a.source && !drop_source,
        },
        _ => a,
    }
}

/// A run of an admission: the actions taken, their answers, and the files before each of them.
pub struct AdmitRun {
    pub states: Seq<Admission>,
    pub actions: Seq<AdmitAction>,
    pub events: Seq<AdmitEvent>,
    pub files: Seq<Presence>,
}

impl AdmitRun {
    /// Whether this is a run that began with the given files.
    pub open spec fn valid(self, origin: Origin, size: u64, files: Presence) -> bool {
        &&& self.states.len() == self.actions.len()
        &&& self.files.len() == self.actions.len()
        &&& self.actions.len() == self.events.len() + 1
        &&& self.states[0] == (Admission { origin, size, stage: AdmitStage::Touching })
        &&& self.actions[0] == AdmitAction::Touch
        &&& self.files[0] == files
        &&& forall|i: int| 0 <= i < self.events.len() ==> #[trigger] self.moves(i)
    }

    /// Whether step `i` follows from the answer to the action before it.
    pub open spec fn moves(self, i: int) -> bool {
        &&& self.states[i].expects(self.events[i])
        &&& acts(self.actions[i], self.events[i], self.files[i], self.files[i + 1])
        &&& self.states[i + 1] == (Admission {
            stage: self.states[i].after(self.events[i]).0,
            ..self.states[i]
        })
        &&& self.actions[i + 1] == self.states[i].after(self.events[i]).1
    }
}

/// What holds of the files between two steps.
spec fn holds(a: Admission, action: AdmitAction, began: Presence, now: Presence) -> bool {
    let kept = now.dest == began.dest && now.source == began.source;
    match a.stage {
        AdmitStage::Touching => action == AdmitAction::Touch && now == began,
        AdmitStage::MakingRoom => action is MakeRoom && now == began && !began.dest && a.origin
            != Origin::Spill,
        AdmitStage::Publishing => now == began && !began.dest && action == match a.origin {
            Origin::Bytes => AdmitAction::WriteAndRename,
            Origin::Path => AdmitAction::RenameSource,
            Origin::Spill => AdmitAction::RenameTemporary,
        },
        AdmitStage::Copying => now == began && !began.dest && a.origin == Origin::Path && action
            == AdmitAction::CopyAndRename,
        AdmitStage::Over => {
            &&& action is End
            &&& action->ok ==> now.dest && !cleaned(action, now).temporary && (a.origin
                == Origin::Path ==> !cleaned(action, now).source)
            &&& !action->ok ==> kept && !cleaned(action, now).temporary && cleaned(
                action,
                now,
            ).source == began.source && !began.dest
            &&& action->record ==> action->ok && !began.dest
            &&& action->ok && !action->record ==> began.dest
        },
    }
}

proof fn lemma_run_holds(run: AdmitRun, origin: Origin, size: u64, files: Presence, i: int)
    requires
        run.valid(origin, size, files),
        files.temporary == (origin == Origin::Spill),
        0 <= i < run.actions.len(),
    ensures
        run.states[i].origin == origin,
        run.states[i].size == size,
        holds(run.states[i], run.actions[i], files, run.files[i]),
    decreases i,
{
    if i > 0 {
        lemma_run_holds(run, origin, size, files, i - 1);
        assert(run.moves(i - 1));
    }
}

/// An admission that succeeds leaves the bundle at its address, no temporary file, and no source
/// (a file that is moved in is consumed). One that fails leaves no temporary file either, and the
/// source and the address as they were. A bundle is recorded exactly if it is new.
pub proof fn law_admission_settles(run: AdmitRun, origin: Origin, size: u64, files: Presence)
    requires
        run.valid(origin, size, files),
        files.temporary == (origin == Origin::Spill),
        run.actions.last() is End,
    ensures
        !cleaned(run.actions.last(), run.files.last()).temporary,
        run.actions.last()->ok ==> run.files.last().dest && (origin == Origin::Path ==> !cleaned(
            run.actions.last(),
            run.files.last(),
        ).source),
        !run.actions.last()->ok ==> run.files.last().dest == files.dest && cleaned(
            run.actions.last(),
            run.files.last(),
        ).source == files.source,
        run.actions.last()->record <==> run.actions.last()->ok && !files.dest,
{
    lemma_run_holds(run, origin, size, files, run.actions.len() - 1);
}

/// An admission asks for room exactly once, before anything is written, unless the bundle is there
/// already; a spill has made its room when it was opened.
pub proof fn law_room_is_made_first(run: AdmitRun, origin: Origin, size: u64, files: Presence, i: int)
    requires
        run.valid(origin, size, files),
        files.temporary == (origin == Origin::Spill),
        origin != Origin::Spill,
        0 <= i < run.actions.len(),
        run.actions[i] == AdmitAction::WriteAndRename || run.actions[i] == AdmitAction::RenameSource,
    ensures
        i == 2,
        run.actions[1] == (AdmitAction::MakeRoom { incoming: size }),
{
    assert(i > 0);
    lemma_run_holds(run, origin, size, files, i);
    lemma_run_holds(run, origin, size, files, i - 1);
    assert(run.moves(i - 1));
    assert(i > 1);
    lemma_run_holds(run, origin, size, files, i - 2);
    assert(run.moves(i - 2));
    if i > 2 {
        lemma_run_holds(run, origin, size, files, i - 3);
        assert(run.moves(i - 3));
    }
}


/// Each stage of an admission waits for the outcome of the one action that it asked for. A blob
/// that is there already ends it, with what was brought cleared away and nothing recorded. One that
/// is not has room made for its size first, unless it has been written beside the cache already.
/// Bytes are written, a file is moved, or copied where it cannot be, and then given up only once
/// the copy stands.
pub proof fn law_admission_takes_its_way(a: Admission, there: bool, done: bool)
    ensures
        ({
            let touched = Admission { stage: AdmitStage::Touching, ..a };
            let (stage, action) = touched.after(AdmitEvent::Touched(there));
            &&& touched.expects(AdmitEvent::Touched(there))
            &&& !touched.expects(AdmitEvent::RoomMade)
            &&& !touched.expects(AdmitEvent::Published(done))
            &&& there ==> stage == AdmitStage::Over && action is End && action->ok
                && !action->record && (action->drop_source <==> a.origin == Origin::Path) && (
            action->drop_temporary <==> a.origin == Origin::Spill)
            &&& !there && a.origin != Origin::Spill ==> stage == AdmitStage::MakingRoom && action
                == (AdmitAction::MakeRoom { incoming: a.size })
            &&& !there && a.origin == Origin::Spill ==> stage == AdmitStage::Publishing && action
                == AdmitAction::RenameTemporary
        }),
        ({
            let room = Admission { stage: AdmitStage::MakingRoom, ..a };
            let (stage, action) = room.after(AdmitEvent::RoomMade);
            &&& room.expects(AdmitEvent::RoomMade)
            &&& !room.expects(AdmitEvent::Touched(there))
            &&& !room.expects(AdmitEvent::Published(done))
            &&& stage == AdmitStage::Publishing
            &&& a.origin == Origin::Path ==> action == AdmitAction::RenameSource
            &&& a.origin == Origin::Bytes ==> action == AdmitAction::WriteAndRename
        }),
        ({
            let publishing = Admission { stage: AdmitStage::Publishing, ..a };
            let (stage, action) = publishing.after(AdmitEvent::Published(done));
            &&& publishing.expects(AdmitEvent::Published(done))
            &&& !publishing.expects(AdmitEvent::Touched(there))
            &&& !publishing.expects(AdmitEvent::RoomMade)
            &&& done ==> stage == AdmitStage::Over && action is End && action->ok && action->record
                && !action->drop_source && !action->drop_temporary
            &&& !done && a.origin == Origin::Path ==> stage == AdmitStage::Copying && action
                == AdmitAction::CopyAndRename
            &&& !done && a.origin != Origin::Path ==> stage == AdmitStage::Over && action is End
                && !action->ok && !action->record && !action->drop_source && action->drop_temporary
        }),
        ({
            let copying = Admission { stage: AdmitStage::Copying, ..a };
            let (stage, action) = copying.after(AdmitEvent::Published(done));
            &&& copying.expects(AdmitEvent::Published(done))
            &&& !copying.expects(AdmitEvent::Touched(there))
            &&& !copying.expects(AdmitEvent::RoomMade)
            &&& stage == AdmitStage::Over
            &&& action is End
            &&& action->ok == done
            &&& action->record == done
            &&& action->drop_source == done
            &&& action->drop_temporary == !done
        }),
        forall|e: AdmitEvent| !(#[trigger] (Admission { stage: AdmitStage::Over, ..a }).expects(e)),
{
}

} // verus!
