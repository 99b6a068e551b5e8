//! How several threads enter one isolate while another drops it: the single steps of each, which
//! may be taken in any order, and why nobody is inside when the isolate is gone.

use vstd::prelude::*;

use crate::lifecycle::{lifecycle_step, IsolateState, Lifecycle, LifecycleStep};

verus! {

/// What the threads share.
#[derive(Debug, Clone, Copy, PartialEq, Eq, Structural)]
pub struct Words {
    pub state: IsolateState,
    pub active_operations: u32,
}

impl Words {
    /// An isolate that runs, with nobody inside.
    pub fn new() -> (r: Words)
        ensures
            r == (Words { state: IsolateState::Running, active_operations: 0 }),
    {
        Words { state: IsolateState::Running, active_operations: 0 }
    }
}

/// Where a thread stands that enters, and later leaves.
#[derive(Debug, Clone, Copy, PartialEq, Eq, Structural)]
pub enum Entrant {
    /// It is about to read the number of operations.
    Reading,
    /// It has read the number, and is about to look at the state.
    Looking { seen: u32 },
    /// The isolate ran, and it is about to add itself to the number, if that is still the same.
    Adding { seen: u32 },
    /// It has added itself, and is about to look at the state once more.
    LookingAgain,
    /// The isolate is being dropped, and it is about to take itself off again.
    BackingOut,
    /// It is inside, and leaves with its next step.
    Inside,
    /// It was refused, or has left.
    Outside,
}

/// Where the thread stands that drops the isolate.
#[derive(Debug, Clone, Copy, PartialEq, Eq, Structural)]
pub enum Dropper {
    /// It is about to announce the drop.
    Announcing,
    /// It waits until the number of operations is zero.
    Waiting,
    /// It has seen zero, and is about to say that the isolate is gone.
    Finishing,
    Done,
}

/// Whether a thread is among the operations that are counted.
pub open spec fn is_counted(e: Entrant) -> bool {
    e is LookingAgain || e is BackingOut || e is Inside
}

/// The next step of a thread that enters or leaves: where it then stands, and what is then shared.
pub open spec fn entered(e: Entrant, w: Words) -> (Entrant, Words) {
    match e {
        Entrant::Reading => (Entrant::Looking { seen: w.active_operations }, w),
        Entrant::Looking { seen } => if w.state is Running {
            (Entrant::Adding { seen }, w)
        } else {
            (Entrant::Outside, w)
        },
        Entrant::Adding { seen } => if w.active_operations == seen {
            (
                Entrant::LookingAgain,
                Words { active_operations: (w.active_operations + 1) as u32, ..w },
            )
        } else {
            (Entrant::Reading, w)
        },
        Entrant::LookingAgain => if w.state is Running {
            (Entrant::Inside, w)
        } else {
            (Entrant::BackingOut, w)
        },
        Entrant::BackingOut => (
            Entrant::Outside,
            Words { active_operations: (w.active_operations - 1) as u32, ..w },
        ),
        Entrant::Inside => (
            Entrant::Outside,
            Words { active_operations: (w.active_operations - 1) as u32, ..w },
        ),
        Entrant::Outside => (e, w),
    }
}

/// The next step of the thread that drops the isolate.
pub open spec fn dropped(d: Dropper, w: Words) -> (Dropper, Words) {
    match d {
        Dropper::Announcing => (Dropper::Waiting, Words { state: IsolateState::Dropping, ..w }),
        Dropper::Waiting => if w.active_operations == 0 {
            (Dropper::Finishing, w)
        } else {
            (d, w)
        },
        Dropper::Finishing => (Dropper::Done, Words { state: IsolateState::Dropped, ..w }),
        Dropper::Done => (d, w),
    }
}

impl Entrant {
    /// Takes the next step. Each step reads or changes what is shared once.
    pub fn step(&mut self, words: &mut Words)
        requires
            *old(self) is Adding ==> old(words).active_operations < u32::MAX,
            is_counted(*old(self)) ==> old(words).active_operations > 0,
        ensures
            (*final(self), *final(words)) == entered(*old(self), *old(words)),
    {
        match *self {
            Entrant::Reading => {
                *self = Entrant::Looking { seen: words.active_operations };
            },
            Entrant::Looking { seen } => {
                *self = match words.state {
                    IsolateState::Running => Entrant::Adding { seen },
                    _ => Entrant::Outside,
                };
            },
            Entrant::Adding { seen } => {
                if words.active_operations == seen {
                    words.active_operations = words.active_operations + 1;
                    *self = Entrant::LookingAgain;
                } else {
                    *self = Entrant::Reading;
                }
            },
            Entrant::LookingAgain => {
                *self = match words.state {
                    IsolateState::Running => Entrant::Inside,
                    _ => Entrant::BackingOut,
                };
            },
            Entrant::BackingOut | Entrant::Inside => {
                words.active_operations = words.active_operations - 1;
                *self = Entrant::Outside;
            },
            Entrant::Outside => {},
        }
    }
}

impl Dropper {
    /// Takes the next step.
    pub fn step(&mut self, words: &mut Words)
        ensures
            (*final(self), *final(words)) == dropped(*old(self), *old(words)),
    {
        match *self {
            Dropper::Announcing => {
                words.state = IsolateState::Dropping;
                *self = Dropper::Waiting;
            },
            Dropper::Waiting => {
                if words.active_operations == 0 {
                    *self = Dropper::Finishing;
                }
            },
            Dropper::Finishing => {
                words.state = IsolateState::Dropped;
                *self = Dropper::Done;
            },
            Dropper::Done => {},
        }
    }
}

// ---------------------------------------------------------------------------
// Laws
// ---------------------------------------------------------------------------

/// All threads that have to do with an isolate.
pub struct Threads {
    pub words: Words,
    pub entrants: Seq<Entrant>,
    pub dropper: Dropper,
}

/// How many of the threads are counted.
pub open spec fn counted(entrants: Seq<Entrant>) -> int
    decreases entrants.len(),
{
    if entrants.len() == 0 {
        0
    } else {
        counted(entrants.drop_last()) + if is_counted(entrants.last()) {
            1int
        } else {
            0
        }
    }
}

/// What holds between any two steps: the number is that of the threads that are counted; the state
/// says how far the drop has got; and once zero has been seen, nobody is inside.
pub open spec fn threads_ok(t: Threads) -> bool {
    &&& t.words.active_operations == counted(t.entrants)
    &&& t.words.state == match t.dropper {
        Dropper::Announcing => IsolateState::Running,
        Dropper::Waiting => IsolateState::Dropping,
        Dropper::Finishing => IsolateState::Dropping,
        Dropper::Done => IsolateState::Dropped,
    }
    &&& (t.dropper is Finishing || t.dropper is Done) ==> forall|i: int|
        0 <= i < t.entrants.len() ==> !((#[trigger] t.entrants[i]) is Inside)
}

/// What can happen next.
pub enum Turn {
    /// The entrant at this position takes its next step.
    Entrant(int),
    /// The dropper takes its next step.
    Dropper,
    /// Another thread begins to enter.
    Arrival,
}

/// The threads after one turn.
pub open spec fn after_turn(t: Threads, turn: Turn) -> Threads {
    match turn {
        Turn::Entrant(i) => if 0 <= i < t.entrants.len() {
            let (e, words) = entered(t.entrants[i], t.words);
            Threads { words, entrants: t.entrants.update(i, e), ..t }
        } else {
            t
        },
        Turn::Dropper => {
            let (dropper, words) = dropped(t.dropper, t.words);
            Threads { words, dropper, ..t }
        },
        Turn::Arrival => Threads { entrants: t.entrants.push(Entrant::Reading), ..t },
    }
}

proof fn lemma_counted_bounds(entrants: Seq<Entrant>)
    ensures
        0 <= counted(entrants) <= entrants.len(),
        forall|i: int|
            0 <= i < entrants.len() && is_counted(#[trigger] entrants[i]) ==> counted(entrants) > 0,
    decreases entrants.len(),
{
    if entrants.len() > 0 {
        lemma_counted_bounds(entrants.drop_last());
        assert forall|i: int| 0 <= i < entrants.len() && is_counted(#[trigger] entrants[i]) implies counted(
            entrants,
        ) > 0 by {
            if i < entrants.len() - 1 {
                assert(entrants.drop_last()[i] == entrants[i]);
            }
        }
    }
}

proof fn lemma_counted_update(entrants: Seq<Entrant>, i: int, e: Entrant)
    requires
        0 <= i < entrants.len(),
    ensures
        counted(entrants.update(i, e)) == counted(entrants) - (if is_counted(entrants[i]) {
            1int
        } else {
            0
        }) + (if is_counted(e) {
            1int
        } else {
            0
        }),
    decreases entrants.len(),
{
    let after = entrants.update(i, e);
    if i == entrants.len() - 1 {
        assert(after.drop_last() =~= entrants.drop_last());
    } else {
        assert(after.drop_last() =~= entrants.drop_last().update(i, e));
        assert(entrants.drop_last()[i] == entrants[i]);
        lemma_counted_update(entrants.drop_last(), i, e);
    }
}

/// Whatever the order in which the threads take their steps, the number of operations stays that of
/// the threads that are counted, and nobody is inside once the isolate is gone. (There are fewer
/// threads than the number can count.)
pub proof fn law_nobody_is_inside_when_gone(t: Threads, turn: Turn)
    requires
        threads_ok(t),
        t.entrants.len() < u32::MAX,
    ensures
        threads_ok(after_turn(t, turn)),
        after_turn(t, turn).words.state is Dropped ==> forall|i: int|
            0 <= i < after_turn(t, turn).entrants.len() ==> !((
            #[trigger] after_turn(t, turn).entrants[i]) is Inside),
{
    let u = after_turn(t, turn);
    lemma_counted_bounds(t.entrants);
    match turn {
        Turn::Entrant(i) => {
            if 0 <= i < t.entrants.len() {
                let (e, words) = entered(t.entrants[i], t.words);
                lemma_counted_update(t.entrants, i, e);
                assert(is_counted(t.entrants[i]) ==> counted(t.entrants) > 0);
                assert(u.words.active_operations == counted(u.entrants));
                if u.dropper is Finishing || u.dropper is Done {
                    assert forall|k: int| 0 <= k < u.entrants.len() implies !((
                    #[trigger] u.entrants[k]) is Inside) by {
                        assert(!(t.entrants[k] is Inside));
                    }
                }
            }
        },
        Turn::Dropper => {
            if u.dropper is Finishing && t.dropper is Waiting {
                assert forall|k: int| 0 <= k < u.entrants.len() implies !((
                #[trigger] u.entrants[k]) is Inside) by {
                    assert(is_counted(t.entrants[k]) ==> counted(t.entrants) > 0);
                }
            }
        },
        Turn::Arrival => {
            assert(u.entrants.drop_last() =~= t.entrants);
            if u.dropper is Finishing || u.dropper is Done {
                assert forall|k: int| 0 <= k < u.entrants.len() implies !((
                #[trigger] u.entrants[k]) is Inside) by {
                    if k < t.entrants.len() {
                        assert(!(t.entrants[k] is Inside));
                    }
                }
            }
        },
    }
}

/// While somebody is inside, the dropper keeps waiting.
pub proof fn law_drop_waits_for_those_inside(t: Threads, i: int)
    requires
        threads_ok(t),
        0 <= i < t.entrants.len(),
        t.entrants[i] is Inside,
    ensures
        t.dropper is Announcing || t.dropper is Waiting,
        t.dropper is Waiting ==> after_turn(t, Turn::Dropper).dropper is Waiting,
{
    lemma_counted_bounds(t.entrants);
    assert(is_counted(t.entrants[i]));
}

/// Once the drop has been announced, nobody gets inside any more.
pub proof fn law_nobody_enters_a_dropping_isolate(t: Threads, i: int)
    requires
        threads_ok(t),
        !(t.dropper is Announcing),
        0 <= i < t.entrants.len(),
        !(t.entrants[i] is Inside),
    ensures
        !(after_turn(t, Turn::Entrant(i)).entrants[i] is Inside),
{
}

/// What the threads share, as the lifecycle of one isolate.
pub open spec fn lifecycle_of(w: Words) -> Lifecycle {
    Lifecycle {
        state: w.state,
        active: w.active_operations as int,
        announced: !(w.state is Running),
    }
}

/// `n` steps of a thread that enters while no other thread takes one.
pub open spec fn entered_alone(w: Words, n: nat) -> (Entrant, Words)
    decreases n,
{
    if n == 0 {
        (Entrant::Reading, w)
    } else {
        let (e, before) = entered_alone(w, (n - 1) as nat);
        entered(e, before)
    }
}

/// `n` steps of the thread that drops the isolate while no other thread takes one.
pub open spec fn dropped_alone(w: Words, n: nat) -> (Dropper, Words)
    decreases n,
{
    if n == 0 {
        (Dropper::Announcing, w)
    } else {
        let (d, before) = dropped_alone(w, (n - 1) as nat);
        dropped(d, before)
    }
}

/// A thread that nobody disturbs enters in four steps, as the lifecycle says: it is inside exactly
/// where the isolate runs, and is counted then.
pub proof fn law_entering_alone_is_entering(w: Words)
    requires
        w.active_operations < u32::MAX,
    ensures
        entered_alone(w, 4).0 is Inside <==> w.state is Running,
        entered_alone(w, 4).0 is Outside <==> !(w.state is Running),
        lifecycle_of(entered_alone(w, 4).1) == lifecycle_step(
            lifecycle_of(w),
            LifecycleStep::Enter,
        ),
{
    reveal_with_fuel(entered_alone, 5);
}

/// A drop that nobody is in the way of ends in three steps, as the lifecycle says: the isolate is
/// gone.
pub proof fn law_dropping_alone_is_dropping(w: Words)
    requires
        w.active_operations == 0,
    ensures
        dropped_alone(w, 3).0 is Done,
        lifecycle_of(dropped_alone(w, 3).1) == lifecycle_step(
            lifecycle_of(w),
            LifecycleStep::Announce,
        ),
{
    reveal_with_fuel(dropped_alone, 4);
}


/// Who enters reads the count, looks at the state, adds itself if the count has not moved in the
/// meantime and begins again if it has, and looks at the state once more; who finds the isolate
/// being dropped stays out, and takes itself off the count if it was on it. The state is never
/// changed by any of this.
pub proof fn law_entering_step_by_step(w: Words, seen: u32)
    requires
        0 < w.active_operations < u32::MAX,
    ensures
        ({
            let running = w.state == IsolateState::Running;
            let reading = entered(Entrant::Reading, w);
            let looking = entered(Entrant::Looking { seen }, w);
            let adding = entered(Entrant::Adding { seen }, w);
            let again = entered(Entrant::LookingAgain, w);
            let backing = entered(Entrant::BackingOut, w);
            let inside = entered(Entrant::Inside, w);
            &&& reading == (Entrant::Looking { seen: w.active_operations }, w)
            &&& looking.1 == w
            &&& looking.0 == (Entrant::Adding { seen }) <==> running
            &&& looking.0 == Entrant::Outside <==> !running
            &&& adding.1.state == w.state
            &&& adding.0 == Entrant::LookingAgain <==> w.active_operations == seen
            &&& adding.0 == Entrant::Reading <==> w.active_operations != seen
            &&& w.active_operations == seen ==> adding.1.active_operations == seen + 1
            &&& w.active_operations != seen ==> adding.1 == w
            &&& again.1 == w
            &&& again.0 == Entrant::Inside <==> running
            &&& again.0 == Entrant::BackingOut <==> !running
            &&& backing.0 == Entrant::Outside
            &&& inside.0 == Entrant::Outside
            &&& backing.1.state == w.state
            &&& inside.1.state == w.state
            &&& backing.1.active_operations + 1 == w.active_operations
            &&& inside.1.active_operations + 1 == w.active_operations
            &&& entered(Entrant::Outside, w) == (Entrant::Outside, w)
        }),
{
}

/// Who drops an isolate says so first, waits until nobody is counted, and only then is it gone;
/// the count is never changed by any of this.
pub proof fn law_dropping_step_by_step(w: Words)
    ensures
        ({
            let announcing = dropped(Dropper::Announcing, w);
            let waiting = dropped(Dropper::Waiting, w);
            let finishing = dropped(Dropper::Finishing, w);
            &&& announcing.0 == Dropper::Waiting
            &&& announcing.1.state == IsolateState::Dropping
            &&& announcing.1.active_operations == w.active_operations
            &&& waiting.1 == w
            &&& waiting.0 == Dropper::Finishing <==> w.active_operations == 0
            &&& waiting.0 == Dropper::Waiting <==> w.active_operations > 0
            &&& finishing.0 == Dropper::Done
            &&& finishing.1.state == IsolateState::Dropped
            &&& finishing.1.active_operations == w.active_operations
            &&& dropped(Dropper::Done, w) == (Dropper::Done, w)
        }),
{
}

} // verus!
