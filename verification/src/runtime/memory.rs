//! Watching the memory and the processor time of a worker.

use vstd::prelude::*;

use crate::lifecycle::IsolateLifecycle;

verus! {

/// A reading of an isolate's memory, in bytes.
#[derive(Debug, Clone, Copy, PartialEq, Eq, Structural)]
pub struct HeapReading {
    pub malloced: usize,
    pub used_heap: usize,
    pub external: usize,
    /// Linear memory of WebAssembly modules, which is accounted for apart.
    pub wasm: usize,
}

/// The sum of two sizes, saturated.
pub open spec fn sat(a: int, b: int) -> int {
    if a + b > usize::MAX {
        usize::MAX as int
    } else {
        a + b
    }
}

/// The memory that counts against the limit.
pub open spec fn counted(r: HeapReading, include_malloced: bool) -> int {
    sat(
        sat(
            sat(
                if include_malloced {
                    r.malloced as int
                } else {
                    0
                },
                r.used_heap as int,
            ),
            r.external as int,
        ),
        r.wasm as int,
    )
}

/// What a memory check has seen: its last reading, and whether the limit has been reached.
#[derive(Debug, Clone, Copy, PartialEq, Eq, Structural)]
pub struct MemCheckState {
    pub current: HeapReading,
    pub exceeded: bool,
}

impl MemCheckState {
    /// That of a check that has seen nothing.
    pub open spec fn nothing() -> MemCheckState {
        MemCheckState {
            current: HeapReading { malloced: 0, used_heap: 0, external: 0, wasm: 0 },
            exceeded: false,
        }
    }

    /// That of a check that has seen nothing.
    pub fn new() -> (r: MemCheckState)
        ensures
            r == MemCheckState::nothing(),
    {
        MemCheckState {
            current: HeapReading { malloced: 0, used_heap: 0, external: 0, wasm: 0 },
            exceeded: false,
        }
    }
}

/// Checks an isolate's memory against its limit. Once the limit has been reached that stays known,
/// and the reading that reached it stays the last.
#[derive(Debug, Clone, Copy, PartialEq, Eq, Structural)]
pub struct MemCheck {
    pub limit: Option<usize>,
    pub exceeded: bool,
    pub current: HeapReading,
}

impl MemCheck {
    /// A check that has seen nothing.
    pub fn new(limit: Option<usize>) -> (r: MemCheck)
        ensures
            r.limit == limit,
            !r.exceeded,
            r.current == (HeapReading { malloced: 0, used_heap: 0, external: 0, wasm: 0 }),
    {
        MemCheck {
            limit,
            exceeded: false,
            current: HeapReading { malloced: 0, used_heap: 0, external: 0, wasm: 0 },
        }
    }

    /// The check once it has taken in a reading.
    pub open spec fn after(self, reading: HeapReading, include_malloced: bool) -> MemCheck {
        match self.limit {
            None => self,
            Some(limit) => if self.exceeded {
                self
            } else {
                MemCheck {
                    exceeded: counted(reading, include_malloced) >= limit,
                    current: reading,
                    ..self
                }
            },
        }
    }

    /// The check once it has taken in several readings.
    pub open spec fn after_all(self, readings: Seq<HeapReading>, include_malloced: bool) -> MemCheck
        decreases readings.len(),
    {
        if readings.len() == 0 {
            self
        } else {
            self.after_all(readings.drop_last(), include_malloced).after(
                readings.last(),
                include_malloced,
            )
        }
    }

    /// Takes in a reading and gives the memory that counts. Without a limit nothing is counted.
    pub fn check(&mut self, reading: HeapReading, include_malloced: bool) -> (r: usize)
        ensures
            *final(self) == old(self).after(reading, include_malloced),
            r == match old(self).limit {
                None => 0,
                Some(_) => counted(reading, include_malloced),
            },
    {
        match self.limit {
            None => 0,
            Some(limit) => {
                let malloced: usize = if include_malloced {
                    reading.malloced
                } else {
                    0
                };
                let total: usize = malloced.saturating_add(reading.used_heap).saturating_add(
                    reading.external,
                ).saturating_add(reading.wasm);
                if !self.exceeded {
                    self.current = reading;
                    if total >= limit {
                        self.exceeded = true;
                    }
                }
                total
            },
        }
    }

    /// What the check has seen.
    pub fn state(&self) -> (r: MemCheckState)
        ensures
            r == (MemCheckState { current: self.current, exceeded: self.exceeded }),
    {
        MemCheckState { current: self.current, exceeded: self.exceeded }
    }

    /// Whether the limit has been reached.
    pub fn is_exceeded(&self) -> (r: bool)
        ensures
            r == self.exceeded,
    {
        self.exceeded
    }
}

/// Checks the memory of an isolate before it collects garbage, if it may still be entered: `alive`
/// says whether there is an isolate at all. The result says whether it was checked.
pub fn check_before_collection(
    lifecycle: &mut IsolateLifecycle,
    check: &mut MemCheck,
    alive: bool,
    reading: HeapReading,
    include_malloced: bool,
) -> (r: bool)
    requires
        old(lifecycle).wf(),
        old(lifecycle).active_operations < u32::MAX,
    ensures
        *final(lifecycle) == *old(lifecycle),
        r == (alive && old(lifecycle).state is Running),
        *final(check) == if r {
            old(check).after(reading, include_malloced)
        } else {
            *old(check)
        },
{
    if !alive {
        return false;
    }
    match lifecycle.try_enter() {
        Some(guard) => {
            let _ = check.check(reading, include_malloced);
            lifecycle.leave(guard);
            true
        },
        None => false,
    }
}

/// Whether a reading comes up to a limit.
pub open spec fn reaches(limit: Option<usize>, r: HeapReading, include_malloced: bool) -> bool {
    limit matches Some(l) && counted(r, include_malloced) >= l
}

/// A limit that has once been reached stays reached, and it is reached exactly by a reading that
/// comes up to it.
pub proof fn law_exceeding_is_final(c: MemCheck, include_malloced: bool, readings: Seq<HeapReading>)
    ensures
        c.after_all(readings, include_malloced).limit == c.limit,
        c.after_all(readings, include_malloced).exceeded <==> c.exceeded || exists|i: int|
            0 <= i < readings.len() && reaches(c.limit, #[trigger] readings[i], include_malloced),
    decreases readings.len(),
{
    if readings.len() > 0 {
        let prev = readings.drop_last();
        law_exceeding_is_final(c, include_malloced, prev);
        if exists|i: int|
            0 <= i < prev.len() && reaches(c.limit, #[trigger] prev[i], include_malloced) {
            let i = choose|i: int|
                0 <= i < prev.len() && reaches(c.limit, #[trigger] prev[i], include_malloced);
            assert(readings[i] == prev[i]);
        }
        if exists|i: int|
            0 <= i < readings.len() && reaches(c.limit, #[trigger] readings[i], include_malloced) {
            let i = choose|i: int|
                0 <= i < readings.len() && reaches(
                    c.limit,
                    #[trigger] readings[i],
                    include_malloced,
                );
            if i < prev.len() {
                assert(prev[i] == readings[i]);
            }
        }
        if reaches(c.limit, readings.last(), include_malloced) {
            assert(readings[readings.len() - 1] == readings.last());
        }
    }
}

/// Processor time that a worker used.
#[derive(Debug, Clone, Copy, PartialEq, Eq, Structural)]
pub struct CPUUsage {
    pub accumulated: i64,
    pub diff: i64,
}

/// Adds up the processor time of a worker, in nanoseconds.
#[derive(Debug, Clone, Copy, PartialEq, Eq, Structural)]
pub struct CpuAccount {
    pub accumulated_ns: i64,
}

impl CpuAccount {
    pub fn new() -> (r: CpuAccount)
        ensures
            r.accumulated_ns == 0,
    {
        CpuAccount { accumulated_ns: 0 }
    }

    /// Ends a stretch of work: what its clock advanced counts, and what was used off the thread in
    /// the meantime. A clock that cannot be read any more has not advanced.
    pub fn leave(&mut self, entered_ns: i64, left_ns: Option<i64>, blocking_ns: i64) -> (r: CPUUsage)
        requires
            ({
                let diff = match left_ns {
                    Some(t) => t - entered_ns,
                    None => 0,
                };
                &&& i64::MIN <= diff <= i64::MAX
                &&& i64::MIN <= old(self).accumulated_ns + diff <= i64::MAX
                &&& i64::MIN <= old(self).accumulated_ns + diff + blocking_ns <= i64::MAX
            }),
        ensures
            r.diff == match left_ns {
                Some(t) => t - entered_ns,
                None => 0,
            },
            final(self).accumulated_ns == old(self).accumulated_ns + r.diff + blocking_ns,
            r.accumulated == final(self).accumulated_ns,
    {
        let diff: i64 = match left_ns {
            Some(t) => t - entered_ns,
            None => 0,
        };
        self.accumulated_ns = self.accumulated_ns + diff;
        self.accumulated_ns = self.accumulated_ns + blocking_ns;
        CPUUsage { accumulated: self.accumulated_ns, diff }
    }

    /// The time in whole milliseconds, rounded towards zero.
    pub fn millis(&self) -> (r: i64)
        ensures
            r == if self.accumulated_ns >= 0 {
                self.accumulated_ns as int / 1_000_000
            } else {
                -(-self.accumulated_ns as int / 1_000_000)
            },
    {
        if self.accumulated_ns >= 0 {
            (self.accumulated_ns as u64 / 1_000_000) as i64
        } else {
            let n: u64 = (-(self.accumulated_ns + 1)) as u64 + 1;
            -((n / 1_000_000) as i64)
        }
    }
}

/// Whether the timer of a worker can be used on this thread: it was made on it.
pub fn reuses_timer(made_on: Option<u64>, thread: u64) -> (r: bool)
    ensures
        r == (made_on == Some(thread)),
{
    match made_on {
        Some(t) => t == thread,
        None => false,
    }
}


/// What is counted is the sum of the parts read, as far as the counter goes; what was allocated
/// outside the heap is part of it only where asked for.
pub proof fn law_parts_are_added_up(r: HeapReading, include_malloced: bool)
    ensures
        ({
            let sum = r.used_heap + r.external + r.wasm + if include_malloced {
                r.malloced as int
            } else {
                0
            };
            &&& sum <= usize::MAX ==> counted(r, include_malloced) == sum
            &&& sum > usize::MAX ==> counted(r, include_malloced) == usize::MAX
        }),
{
}

/// A limit is exceeded once the sum of the parts comes up to it. What was read is kept until then
/// and no longer; without a limit nothing is kept at all.
pub proof fn law_limits_are_reached(c: MemCheck, r: HeapReading, include_malloced: bool, limit: usize)
    ensures
        ({
            let sum = r.used_heap + r.external + r.wasm + if include_malloced {
                r.malloced as int
            } else {
                0
            };
            let fresh = MemCheck { limit: Some(limit), exceeded: false, ..c };
            let over = MemCheck { limit: Some(limit), exceeded: true, ..c };
            let free = MemCheck { limit: None, ..c };
            &&& fresh.after(r, include_malloced).limit == Some(limit)
            &&& fresh.after(r, include_malloced).current == r
            &&& fresh.after(r, include_malloced).exceeded <==> sum >= limit
            &&& over.after(r, include_malloced) == over
            &&& free.after(r, include_malloced) == free
        }),
{
    law_parts_are_added_up(r, include_malloced);
}

} // verus!
