//! The in-memory account of the blobs in the cache directory.

use vstd::prelude::*;

use crate::paths::{components, same_path};

verus! {

/// A point in time, counted from the Unix epoch.
#[derive(Debug, Clone, Copy, PartialEq, Eq, Structural)]
pub struct Moment {
    pub secs: i64,
    pub nanos: u32,
}

impl Moment {
    /// Nanoseconds since the epoch.
    pub open spec fn ns(self) -> int {
        self.secs * 1_000_000_000 + self.nanos
    }

    /// Nanoseconds since the epoch.
    pub fn nanoseconds(&self) -> (r: i128)
        ensures
            r == self.ns(),
    {
        self.secs as i128 * 1_000_000_000 + self.nanos as i128
    }

    /// Whether more than `secs` seconds lie between `self` and a later `now`. A time that is not
    /// before `now` has no age.
    pub fn is_older_than(&self, now: &Moment, secs: u64) -> (r: bool)
        ensures
            r == is_older(*self, *now, secs as int),
    {
        self.nanoseconds() < now.nanoseconds() && now.nanoseconds() - self.nanoseconds()
            > secs as i128 * 1_000_000_000
    }
}

/// Whether `at` lies more than `secs` seconds before `now`.
pub open spec fn is_older(at: Moment, now: Moment, secs: int) -> bool {
    at.ns() < now.ns() && now.ns() - at.ns() > secs * 1_000_000_000
}

/// What the index knows of one blob.
#[derive(Debug, Clone, Copy, PartialEq, Eq, Structural)]
pub struct BlobInfo {
    pub size: u64,
    pub last_used: Moment,
}

/// What a path is known by: paths with the same components are the same path.
pub open spec fn key_of(path: Seq<char>) -> Seq<Seq<char>> {
    components(path)
}

/// A blob with its path.
#[derive(Debug)]
pub struct Blob {
    pub path: String,
    pub info: BlobInfo,
}

impl Blob {
    /// What the blob is known by.
    pub open spec fn key(self) -> Seq<Seq<char>> {
        key_of(self.path@)
    }
}

/// The position of the blob at `path`.
pub open spec fn position(entries: Seq<Blob>, key: Seq<Seq<char>>) -> Option<int>
    decreases entries.len(),
{
    if entries.len() == 0 {
        None
    } else if entries.last().key() == key {
        Some(entries.len() - 1)
    } else {
        position(entries.drop_last(), key)
    }
}

/// The bytes that the blobs take up together.
pub open spec fn total_size(entries: Seq<Blob>) -> int
    decreases entries.len(),
{
    if entries.len() == 0 {
        0
    } else {
        total_size(entries.drop_last()) + entries.last().info.size
    }
}

/// No two blobs share a path.
pub open spec fn distinct_paths(entries: Seq<Blob>) -> bool {
    forall|i: int, j: int|
        0 <= i < j < entries.len() ==> (#[trigger] entries[i]).key() != (
        #[trigger] entries[j]).key()
}

/// The blobs by path.
pub open spec fn by_path(entries: Seq<Blob>) -> Map<Seq<Seq<char>>, BlobInfo> {
    Map::new(
        |p: Seq<Seq<char>>| position(entries, p) is Some,
        |p: Seq<Seq<char>>| entries[position(entries, p)->0].info,
    )
}

pub proof fn lemma_position(entries: Seq<Blob>, key: Seq<Seq<char>>)
    ensures
        match position(entries, key) {
            Some(i) => 0 <= i < entries.len() && entries[i].key() == key,
            None => forall|i: int| 0 <= i < entries.len() ==> (#[trigger] entries[i]).key() != key,
        },
    decreases entries.len(),
{
    if entries.len() > 0 && entries.last().key() != key {
        lemma_position(entries.drop_last(), key);
        if position(entries.drop_last(), key) is None {
            assert forall|i: int| 0 <= i < entries.len() implies (#[trigger] entries[i]).key()
                != key by {
                if i < entries.len() - 1 {
                    assert(entries.drop_last()[i] == entries[i]);
                }
            }
        }
    }
}

/// With distinct paths, a blob is found where it stands.
pub proof fn lemma_position_at(entries: Seq<Blob>, i: int)
    requires
        distinct_paths(entries),
        0 <= i < entries.len(),
    ensures
        position(entries, entries[i].key()) == Some(i),
        by_path(entries).contains_key(entries[i].key()),
        by_path(entries)[entries[i].key()] == entries[i].info,
{
    lemma_position(entries, entries[i].key());
    let k = position(entries, entries[i].key())->0;
    if k < i {
        assert(entries[k].key() != entries[i].key());
    } else if i < k {
        assert(entries[i].key() != entries[k].key());
    }
}

pub proof fn lemma_total_size_nonnegative(entries: Seq<Blob>)
    ensures
        total_size(entries) >= 0,
    decreases entries.len(),
{
    if entries.len() > 0 {
        lemma_total_size_nonnegative(entries.drop_last());
    }
}

/// No single blob is larger than all together.
pub proof fn lemma_total_size_part(entries: Seq<Blob>, i: int)
    requires
        0 <= i < entries.len(),
    ensures
        entries[i].info.size <= total_size(entries),
        total_size(entries.remove(i)) == total_size(entries) - entries[i].info.size,
    decreases entries.len(),
{
    lemma_total_size_nonnegative(entries.drop_last());
    if i < entries.len() - 1 {
        lemma_total_size_part(entries.drop_last(), i);
        assert(entries.remove(i).drop_last() =~= entries.drop_last().remove(i));
        assert(entries.remove(i).last() == entries.last());
    } else {
        assert(entries.remove(i) =~= entries.drop_last());
    }
}

/// Changing one entry changes the total by the difference in size.
pub proof fn lemma_total_size_update(entries: Seq<Blob>, i: int, b: Blob)
    requires
        0 <= i < entries.len(),
    ensures
        total_size(entries.update(i, b)) == total_size(entries) - entries[i].info.size
            + b.info.size,
    decreases entries.len(),
{
    if i < entries.len() - 1 {
        lemma_total_size_update(entries.drop_last(), i, b);
        assert(entries.update(i, b).drop_last() =~= entries.drop_last().update(i, b));
    } else {
        assert(entries.update(i, b).drop_last() =~= entries.drop_last());
    }
}

pub proof fn lemma_by_path_push(entries: Seq<Blob>, b: Blob)
    requires
        distinct_paths(entries),
        !by_path(entries).contains_key(b.key()),
    ensures
        distinct_paths(entries.push(b)),
        by_path(entries.push(b)) == by_path(entries).insert(b.key(), b.info),
        total_size(entries.push(b)) == total_size(entries) + b.info.size,
{
    let e = entries.push(b);
    assert(e.drop_last() =~= entries);
    lemma_position(entries, b.key());
    assert forall|i: int, j: int| 0 <= i < j < e.len() implies (#[trigger] e[i]).key() != (
    #[trigger] e[j]).key() by {
        if j == entries.len() {
            assert(entries[i].key() != b.key());
        }
    }
    assert forall|p: Seq<Seq<char>>| #[trigger]
        by_path(e).contains_key(p) <==> by_path(entries).insert(b.key(), b.info).contains_key(p) by {
        lemma_position(entries, p);
    }
    assert forall|p: Seq<Seq<char>>| #[trigger] by_path(e).contains_key(p) implies by_path(e)[p]
        == by_path(entries).insert(b.key(), b.info)[p] by {
        lemma_position(entries, p);
        lemma_position(e, p);
    }
    assert(by_path(e) =~= by_path(entries).insert(b.key(), b.info));
}

pub proof fn lemma_by_path_insert(entries: Seq<Blob>, at: int, b: Blob)
    requires
        distinct_paths(entries),
        0 <= at <= entries.len(),
        !by_path(entries).contains_key(b.key()),
    ensures
        distinct_paths(entries.insert(at, b)),
        by_path(entries.insert(at, b)) == by_path(entries).insert(b.key(), b.info),
{
    let e = entries.insert(at, b);
    lemma_position(entries, b.key());
    assert forall|i: int, j: int| 0 <= i < j < e.len() implies (#[trigger] e[i]).key() != (
    #[trigger] e[j]).key() by {
        let i2 = if i < at { i } else { i - 1 };
        let j2 = if j < at { j } else { j - 1 };
        if i == at {
            assert(entries[j2].key() != b.key());
        } else if j == at {
            assert(entries[i2].key() != b.key());
        } else {
            assert(entries[i2].key() != entries[j2].key());
        }
    }
    let m = by_path(entries).insert(b.key(), b.info);
    assert forall|p: Seq<Seq<char>>|
        #![trigger by_path(e).contains_key(p)]
        (by_path(e).contains_key(p) <==> m.contains_key(p)) && (by_path(e).contains_key(p)
            ==> by_path(e)[p] == m[p]) by {
        lemma_position(entries, p);
        lemma_position(e, p);
        lemma_position_at(e, at);
        if position(e, p) is Some {
            let k = position(e, p)->0;
            if k != at {
                let k2 = if k < at { k } else { k - 1 };
                assert(entries[k2] == e[k]);
                lemma_position_at(entries, k2);
            }
        } else if position(entries, p) is Some {
            let k = position(entries, p)->0;
            let k2 = if k < at { k } else { k + 1 };
            assert(e[k2] == entries[k]);
        }
    }
    assert(by_path(e) =~= m);
}

pub proof fn lemma_by_path_remove(entries: Seq<Blob>, i: int)
    requires
        distinct_paths(entries),
        0 <= i < entries.len(),
    ensures
        distinct_paths(entries.remove(i)),
        by_path(entries.remove(i)) == by_path(entries).remove(entries[i].key()),
        total_size(entries.remove(i)) == total_size(entries) - entries[i].info.size,
{
    lemma_total_size_part(entries, i);
    let e = entries.remove(i);
    assert forall|a: int, b: int| 0 <= a < b < e.len() implies (#[trigger] e[a]).key() != (
    #[trigger] e[b]).key() by {
        let a2 = if a < i { a } else { a + 1 };
        let b2 = if b < i { b } else { b + 1 };
        assert(entries[a2].key() != entries[b2].key());
    }
    assert forall|p: Seq<Seq<char>>|
        #![trigger by_path(e).contains_key(p)]
        (by_path(e).contains_key(p) <==> by_path(entries).remove(entries[i].key()).contains_key(p))
            && (by_path(e).contains_key(p) ==> by_path(e)[p] == by_path(entries)[p]) by {
        lemma_position(entries, p);
        lemma_position(e, p);
        if position(e, p) is Some {
            let k = position(e, p)->0;
            let k2 = if k < i { k } else { k + 1 };
            assert(e[k] == entries[k2]);
            lemma_position_at(entries, k2);
            if k2 < i {
                assert(entries[k2].key() != entries[i].key());
            } else {
                assert(entries[i].key() != entries[k2].key());
            }
        } else if position(entries, p) is Some {
            let k = position(entries, p)->0;
            if k != i {
                let k2 = if k < i { k } else { k - 1 };
                assert(e[k2] == entries[k]);
            }
        }
    }
    assert(e.len() == entries.len() - 1);
    assert(by_path(e) =~= by_path(entries).remove(entries[i].key()));
}

pub proof fn lemma_by_path_update(entries: Seq<Blob>, i: int, b: Blob)
    requires
        distinct_paths(entries),
        0 <= i < entries.len(),
        b.key() == entries[i].key(),
    ensures
        distinct_paths(entries.update(i, b)),
        by_path(entries.update(i, b)) == by_path(entries).insert(b.key(), b.info),
        total_size(entries.update(i, b)) == total_size(entries) - entries[i].info.size
            + b.info.size,
{
    lemma_total_size_update(entries, i, b);
    let e = entries.update(i, b);
    assert forall|a: int, c: int| 0 <= a < c < e.len() implies (#[trigger] e[a]).key() != (
    #[trigger] e[c]).key() by {
        assert(entries[a].key() != entries[c].key());
    }
    assert forall|p: Seq<Seq<char>>|
        #![trigger by_path(e).contains_key(p)]
        (by_path(e).contains_key(p) <==> by_path(entries).insert(b.key(), b.info).contains_key(p))
            && (by_path(e).contains_key(p) ==> by_path(e)[p] == by_path(entries).insert(
            b.key(),
            b.info,
        )[p]) by {
        lemma_position(entries, p);
        lemma_position(e, p);
        if position(e, p) is Some {
            let k = position(e, p)->0;
            assert(entries[k].key() == p);
            lemma_position_at(entries, k);
            lemma_position_at(e, k);
        } else if position(entries, p) is Some {
            let k = position(entries, p)->0;
            assert(e[k].key() == p);
        }
        lemma_position_at(e, i);
    }
    assert(by_path(e) =~= by_path(entries).insert(b.key(), b.info));
}

/// The account of the blobs in the cache directory: which there are, and how many bytes they take
/// up together. It is empty until it has been built.
pub struct CacheIndex {
    pub built: bool,
    pub entries: Vec<Blob>,
    pub total_bytes: u64,
}

impl CacheIndex {
    /// The blobs by path.
    pub open spec fn blobs(self) -> Map<Seq<Seq<char>>, BlobInfo> {
        by_path(self.entries@)
    }

    /// Paths are distinct, and the total is the sum of the sizes.
    pub open spec fn wf(self) -> bool {
        &&& distinct_paths(self.entries@)
        &&& self.total_bytes == total_size(self.entries@)
    }

    /// The size recorded for `path`, or zero.
    pub open spec fn size_of(self, path: Seq<char>) -> int {
        if self.blobs().contains_key(key_of(path)) {
            self.blobs()[key_of(path)].size as int
        } else {
            0
        }
    }

    /// An index that has not been built.
    pub fn new() -> (r: CacheIndex)
        ensures
            r.wf(),
            !r.built,
            r.entries@.len() == 0,
            r.total_bytes == 0,
            r.blobs() == Map::<Seq<Seq<char>>, BlobInfo>::empty(),
    {
        let r = CacheIndex { built: false, entries: Vec::new(), total_bytes: 0 };
        assert(r.blobs() =~= Map::<Seq<Seq<char>>, BlobInfo>::empty());
        r
    }

    /// The position of the blob at `path`.
    pub fn find(&self, path: &str) -> (r: Option<usize>)
        requires
            self.wf(),
        ensures
            match r {
                Some(i) => i < self.entries@.len() && self.entries@[i as int].key() == key_of(path@)
                    && self.blobs().contains_key(key_of(path@)) && self.blobs()[key_of(path@)]
                    == self.entries@[i as int].info,
                None => !self.blobs().contains_key(key_of(path@)),
            },
    {
        let mut i: usize = 0;
        while i < self.entries.len()
            invariant
                i <= self.entries@.len(),
                self.wf(),
                forall|j: int| 0 <= j < i ==> (#[trigger] self.entries@[j]).key() != key_of(path@),
            decreases self.entries@.len() - i,
        {
            if same_path(self.entries[i].path.as_str(), path) {
                proof {
                    lemma_position_at(self.entries@, i as int);
                }
                return Some(i);
            }
            i = i + 1;
        }
        proof {
            lemma_position(self.entries@, key_of(path@));
        }
        None
    }

    /// Puts the blob `path` into the account, replacing what was recorded for that path.
    pub fn put(&mut self, path: &str, info: BlobInfo)
        requires
            old(self).wf(),
            old(self).total_bytes - old(self).size_of(path@) + info.size <= u64::MAX,
        ensures
            final(self).wf(),
            final(self).built == old(self).built,
            final(self).blobs() == old(self).blobs().insert(key_of(path@), info),
            final(self).total_bytes == old(self).total_bytes - old(self).size_of(path@)
                + info.size,
    {
        match self.find(path) {
            Some(i) => {
                proof {
                    lemma_total_size_part(self.entries@, i as int);
                }
                let b = Blob { path: self.entries[i].path.clone(), info };
                proof {
                    lemma_by_path_update(self.entries@, i as int, b);
                }
                let previous: u64 = self.entries[i].info.size;
                self.entries.set(i, b);
                self.total_bytes = self.total_bytes - previous + info.size;
            },
            None => {
                let b = Blob { path: path.to_owned(), info };
                proof {
                    lemma_by_path_push(self.entries@, b);
                }
                self.entries.push(b);
                self.total_bytes = self.total_bytes + info.size;
            },
        }
    }

    /// Takes the blob `path` out of the account; a path that is not in it changes nothing.
    pub fn take(&mut self, path: &str)
        requires
            old(self).wf(),
        ensures
            final(self).wf(),
            final(self).built == old(self).built,
            final(self).blobs() == old(self).blobs().remove(key_of(path@)),
            final(self).total_bytes == old(self).total_bytes - old(self).size_of(path@),
    {
        match self.find(path) {
            Some(i) => {
                proof {
                    lemma_total_size_part(self.entries@, i as int);
                    lemma_by_path_remove(self.entries@, i as int);
                }
                let size: u64 = self.entries[i].info.size;
                let _ = self.entries.remove(i);
                self.total_bytes = self.total_bytes - size;
            },
            None => {
                assert(self.blobs().remove(key_of(path@)) =~= self.blobs());
            },
        }
    }

    /// Marks the blob `path` as used at `now`, where the index knows it.
    pub fn touch(&mut self, path: &str, now: Moment)
        requires
            old(self).wf(),
        ensures
            final(self).wf(),
            final(self).built == old(self).built,
            final(self).total_bytes == old(self).total_bytes,
            final(self).blobs() == if old(self).blobs().contains_key(key_of(path@)) {
                old(self).blobs().insert(
                    key_of(path@),
                    (BlobInfo { size: old(self).blobs()[key_of(path@)].size, last_used: now }),
                )
            } else {
                old(self).blobs()
            },
    {
        match self.find(path) {
            Some(i) => {
                let info = BlobInfo { size: self.entries[i].info.size, last_used: now };
                proof {
                    lemma_total_size_part(self.entries@, i as int);
                }
                self.put(path, info);
            },
            None => {},
        }
    }
}

/// What recording a blob of `size` bytes at `path` makes of an index: nothing until it has been
/// built.
pub open spec fn admitted(
    before: CacheIndex,
    after: CacheIndex,
    path: Seq<char>,
    size: u64,
    now: Moment,
) -> bool {
    &&& after.built == before.built
    &&& !before.built ==> after == before
    &&& before.built ==> after.blobs() == before.blobs().insert(
        key_of(path),
        (BlobInfo { size, last_used: now }),
    ) && after.total_bytes == before.total_bytes - before.size_of(path) + size
}

/// Records a blob that has just landed. Nothing happens until the index has been built.
pub fn index_admit(index: &mut CacheIndex, path: &str, size: u64, now: Moment)
    requires
        old(index).wf(),
        old(index).built ==> old(index).total_bytes - old(index).size_of(path@) + size
            <= u64::MAX,
    ensures
        final(index).wf(),
        admitted(*old(index), *final(index), path@, size, now),
{
    if index.built {
        index.put(path, BlobInfo { size, last_used: now });
    }
}

/// What forgetting the blob at `path` makes of an index.
pub open spec fn removed(before: CacheIndex, after: CacheIndex, path: Seq<char>) -> bool {
    &&& after.built == before.built
    &&& after.blobs() == before.blobs().remove(key_of(path))
    &&& after.total_bytes == before.total_bytes - before.size_of(path)
}

/// Forgets an unlinked blob.
pub fn index_remove(index: &mut CacheIndex, path: &str)
    requires
        old(index).wf(),
    ensures
        final(index).wf(),
        removed(*old(index), *final(index), path@),
{
    index.take(path)
}

/// Removing undoes admitting: where a built index did not know a path, it is the same again once a
/// blob at that path has been admitted and removed. Removing it once more changes nothing.
pub proof fn law_removing_undoes_admitting(
    start: CacheIndex,
    with_blob: CacheIndex,
    end: CacheIndex,
    again: CacheIndex,
    path: Seq<char>,
    size: u64,
    now: Moment,
)
    requires
        start.built,
        !start.blobs().contains_key(key_of(path)),
        admitted(start, with_blob, path, size, now),
        removed(with_blob, end, path),
        removed(end, again, path),
    ensures
        end.built,
        end.blobs() == start.blobs(),
        end.total_bytes == start.total_bytes,
        again.built,
        again.blobs() == end.blobs(),
        again.total_bytes == end.total_bytes,
{
    assert(end.blobs() =~= start.blobs());
    assert(again.blobs() =~= end.blobs());
}


/// Ages are counted to the nanosecond: a file is older than so many seconds once that many have
/// gone by on the clock and at least a nanosecond more. What lies in the future has no age.
pub proof fn law_ages_are_exact(at: Moment, now: Moment, secs: int)
    requires
        at.nanos < 1_000_000_000,
        now.nanos < 1_000_000_000,
        secs >= 0,
    ensures
        is_older(at, now, secs) <==> now.secs - at.secs > secs || (now.secs - at.secs == secs
            && now.nanos > at.nanos),
{
}

/// The index names exactly the blobs it lists, each under the components of its path and with what
/// is listed of it.
pub proof fn law_index_names_what_it_lists(entries: Seq<Blob>, i: int, key: Seq<Seq<char>>)
    requires
        forall|a: int, b: int|
            0 <= a < b < entries.len() ==> components((#[trigger] entries[a]).path@)
                != components((#[trigger] entries[b]).path@),
        0 <= i < entries.len(),
    ensures
        by_path(entries).contains_pair(components(entries[i].path@), entries[i].info),
        by_path(entries).contains_key(key) ==> exists|j: int|
            0 <= j < entries.len() && components((#[trigger] entries[j]).path@) == key,
{
    assert(distinct_paths(entries));
    lemma_position_at(entries, i);
    lemma_position(entries, key);
    if by_path(entries).contains_key(key) {
        let j = position(entries, key)->0;
        assert(entries[j].key() == key);
    }
}

/// The total is the sum of the sizes listed.
pub proof fn law_total_is_the_sum_of_sizes(entries: Seq<Blob>)
    ensures
        total_size(entries) == entries.map_values(|b: Blob| b.info.size as int).fold_left(
            0int,
            |a: int, b: int| a + b,
        ),
    decreases entries.len(),
{
    let sizes = entries.map_values(|b: Blob| b.info.size as int);
    if entries.len() > 0 {
        law_total_is_the_sum_of_sizes(entries.drop_last());
        assert(sizes.drop_last() =~= entries.drop_last().map_values(
            |b: Blob| b.info.size as int,
        ));
    }
}

/// Admitting a blob to an index that has been built enters it with its size and the time of the
/// day, in place of what was known of its path, and moves the total by the difference; what is
/// known of other paths stays. An index that has not been built takes nothing in.
pub proof fn law_admitting_enters_one_blob(
    before: CacheIndex,
    after: CacheIndex,
    path: Seq<char>,
    size: u64,
    now: Moment,
    other: Seq<Seq<char>>,
)
    requires
        admitted(before, after, path, size, now),
        other != components(path),
    ensures
        after.built == before.built,
        !before.built ==> after == before,
        before.built ==> {
            &&& after.blobs().contains_key(components(path))
            &&& after.blobs()[components(path)].size == size
            &&& after.blobs()[components(path)].last_used == now
            &&& after.blobs().contains_key(other) == before.blobs().contains_key(other)
            &&& before.blobs().contains_key(other) ==> after.blobs()[other] == before.blobs()[other]
            &&& before.blobs().contains_key(components(path)) ==> after.total_bytes
                + before.blobs()[components(path)].size == before.total_bytes + size
            &&& !before.blobs().contains_key(components(path)) ==> after.total_bytes
                == before.total_bytes + size
        },
{
}

/// Removing a blob takes it out with its size; what is known of other paths stays.
pub proof fn law_removing_takes_one_blob_out(
    before: CacheIndex,
    after: CacheIndex,
    path: Seq<char>,
    other: Seq<Seq<char>>,
)
    requires
        removed(before, after, path),
        other != components(path),
    ensures
        after.built == before.built,
        !after.blobs().contains_key(components(path)),
        after.blobs().contains_key(other) == before.blobs().contains_key(other),
        before.blobs().contains_key(other) ==> after.blobs()[other] == before.blobs()[other],
        before.blobs().contains_key(components(path)) ==> after.total_bytes
            + before.blobs()[components(path)].size == before.total_bytes,
        !before.blobs().contains_key(components(path)) ==> after.total_bytes == before.total_bytes,
{
}

} // verus!
