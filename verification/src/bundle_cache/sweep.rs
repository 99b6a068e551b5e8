//! Admission-time maintenance: what a sweep over the cache directory expires, and which blobs go
//! so that an incoming bundle fits under the size cap.

use vstd::prelude::*;

use crate::bundle_cache::index::{
    by_path, distinct_paths, is_older, key_of, lemma_by_path_insert, lemma_by_path_push,
    lemma_position, lemma_position_at, position, Blob, BlobInfo, CacheIndex, Moment,
};
use crate::paths::{components, extension, joined, law_extension_follows_the_last_dot, path_extension, same_path};
use crate::text::same;

verus! {

/// How long a bundle stays without being used, where nothing else is configured: seven days.
pub const DEFAULT_BUNDLE_TTL_SECS: u64 = 604800;

/// How long a temporary file is left alone: one hour.
pub const TMP_TTL_SECS: u64 = 3600;

/// A text that may be missing, taken by view.
pub open spec fn opt_view(o: Option<String>) -> Option<Seq<char>> {
    match o {
        Some(s) => Some(s@),
        None => None,
    }
}

/// What a [`CacheEvent`] reports.
#[derive(Debug, Clone, Copy, PartialEq, Eq, Structural)]
pub enum CacheEventAction {
    /// A blob was unlinked (size pressure or an explicit evict).
    Evicted,
    /// An admission could not get under the cap and proceeded over it.
    OverCap,
    /// An age sweep removed expired entries.
    Sweep,
}

/// A notice of cache activity.
#[derive(Debug, Clone)]
pub struct CacheEvent {
    pub action: CacheEventAction,
    /// The manifest key, when the action targeted one.
    pub cache_key: Option<String>,
    /// The blob involved, when the action targeted one.
    pub path: Option<String>,
    /// Bytes the action acted on.
    pub bytes: u64,
    /// Cache total after the action.
    pub total_bytes: u64,
    /// The configured cap, when one is set.
    pub max_bytes: Option<u64>,
}

/// A [`CacheEvent`] with its texts taken by view.
pub struct CacheEventView {
    pub action: CacheEventAction,
    pub cache_key: Option<Seq<char>>,
    pub path: Option<Seq<char>>,
    pub bytes: u64,
    pub total_bytes: u64,
    pub max_bytes: Option<u64>,
}

impl View for CacheEvent {
    type V = CacheEventView;

    open spec fn view(&self) -> CacheEventView {
        CacheEventView {
            action: self.action,
            cache_key: opt_view(self.cache_key),
            path: opt_view(self.path),
            bytes: self.bytes,
            total_bytes: self.total_bytes,
            max_bytes: self.max_bytes,
        }
    }
}

/// A list of notices, taken by view.
pub open spec fn event_views(v: Seq<CacheEvent>) -> Seq<CacheEventView> {
    v.map_values(|e: CacheEvent| e@)
}

// ---------------------------------------------------------------------------
// The directory listing
// ---------------------------------------------------------------------------

/// One file of the cache directory.
#[derive(Debug)]
pub struct DirEntry {
    pub path: String,
    pub size: u64,
    pub modified: Moment,
}

impl DirEntry {
    /// What the file is known by.
    pub open spec fn key(self) -> Seq<Seq<char>> {
        key_of(self.path@)
    }
}

/// What a file in the cache directory is, by its extension.
#[derive(Debug, Clone, Copy, PartialEq, Eq, Structural)]
pub enum FileKind {
    /// A bundle, `*.eszip`.
    Bundle,
    /// A download manifest, `*.json`.
    Manifest,
    /// A temporary file, `*.tmp`.
    Temporary,
    Other,
}

pub open spec fn kind_of(path: Seq<char>) -> FileKind {
    if extension(path) == Some("eszip"@) {
        FileKind::Bundle
    } else if extension(path) == Some("json"@) {
        FileKind::Manifest
    } else if extension(path) == Some("tmp"@) {
        FileKind::Temporary
    } else {
        FileKind::Other
    }
}

/// What the file at `path` is.
pub fn file_kind(path: &str) -> (r: FileKind)
    ensures
        r == kind_of(path@),
{
    match path_extension(path) {
        Some(e) => {
            if same(e.as_str(), "eszip") {
                FileKind::Bundle
            } else if same(e.as_str(), "json") {
                FileKind::Manifest
            } else if same(e.as_str(), "tmp") {
                FileKind::Temporary
            } else {
                FileKind::Other
            }
        },
        None => FileKind::Other,
    }
}

/// What a sweep does with one file of the directory.
#[derive(Debug, Clone, Copy, PartialEq, Eq, Structural)]
pub enum Fate {
    /// A bundle that stays and is accounted for.
    Index,
    /// An expired bundle: it is unlinked, and accounted for only where that fails.
    Expire,
    /// A manifest that is too old.
    DropManifest,
    /// A manifest that stays if it is readable and its blob is there.
    CheckManifest,
    /// A temporary file left over from long ago.
    Discard,
    /// Nothing happens to it.
    Leave,
}

/// Whether a path is the one that is being admitted.
pub open spec fn is_protected(path: Seq<char>, protect: Option<Seq<char>>) -> bool {
    protect matches Some(p) && key_of(p) == key_of(path)
}

pub open spec fn fate_of(
    path: Seq<char>,
    modified: Moment,
    now: Moment,
    ttl_secs: int,
    protect: Option<Seq<char>>,
) -> Fate {
    match kind_of(path) {
        FileKind::Bundle => if is_older(modified, now, ttl_secs) && !is_protected(path, protect) {
            Fate::Expire
        } else {
            Fate::Index
        },
        FileKind::Manifest => if is_older(modified, now, ttl_secs) {
            Fate::DropManifest
        } else {
            Fate::CheckManifest
        },
        FileKind::Temporary => if is_older(modified, now, TMP_TTL_SECS as int) {
            Fate::Discard
        } else {
            Fate::Leave
        },
        FileKind::Other => Fate::Leave,
    }
}

/// Whether `a` is the text that `b` may hold.
pub fn is_text(a: &str, b: &Option<String>) -> (r: bool)
    ensures
        r == (opt_view(*b) == Some(a@)),
{
    match b {
        Some(s) => same(a, s.as_str()),
        None => false,
    }
}

/// Whether `a` is the path that `b` may hold.
pub fn is_path(a: &str, b: &Option<String>) -> (r: bool)
    ensures
        r == (opt_view(*b) matches Some(p) && key_of(p) == key_of(a@)),
{
    match b {
        Some(s) => same_path(s.as_str(), a),
        None => false,
    }
}

/// What a sweep at `now` does with `entry`, given the age limit and the blob that is being
/// admitted.
pub fn entry_fate(entry: &DirEntry, now: &Moment, ttl_secs: u64, protect: &Option<String>) -> (r:
    Fate)
    ensures
        r == fate_of(entry.path@, entry.modified, *now, ttl_secs as int, opt_view(*protect)),
{
    match file_kind(entry.path.as_str()) {
        FileKind::Bundle => {
            if entry.modified.is_older_than(now, ttl_secs) && !is_path(
                entry.path.as_str(),
                protect,
            ) {
                Fate::Expire
            } else {
                Fate::Index
            }
        },
        FileKind::Manifest => {
            if entry.modified.is_older_than(now, ttl_secs) {
                Fate::DropManifest
            } else {
                Fate::CheckManifest
            }
        },
        FileKind::Temporary => {
            if entry.modified.is_older_than(now, TMP_TTL_SECS) {
                Fate::Discard
            } else {
                Fate::Leave
            }
        },
        FileKind::Other => Fate::Leave,
    }
}

/// What reading a manifest file gave.
#[derive(Debug, Clone, Copy, PartialEq, Eq, Structural)]
pub enum ManifestState {
    /// It could not be read, or does not parse.
    Unreadable,
    /// It parses, and the blob it points at is gone.
    Orphaned,
    /// It parses, and its blob exists.
    Live,
}

/// Whether a manifest goes: it expired, no longer parses, or points at a blob that is gone.
pub fn manifest_is_dead(fate: Fate, state: ManifestState) -> (r: bool)
    ensures
        r == (fate == Fate::DropManifest || (fate == Fate::CheckManifest && state
            != ManifestState::Live)),
{
    match fate {
        Fate::DropManifest => true,
        Fate::CheckManifest => match state {
            ManifestState::Live => false,
            _ => true,
        },
        _ => false,
    }
}

/// The files of a listing with how the attempt to unlink each of them ended. Only the answers for
/// expired bundles count.
pub open spec fn swept(
    listing: Seq<DirEntry>,
    unlinked: Seq<bool>,
    now: Moment,
    ttl_secs: int,
    protect: Option<Seq<char>>,
    i: int,
) -> bool {
    fate_of(listing[i].path@, listing[i].modified, now, ttl_secs, protect) == Fate::Expire
        && unlinked[i]
}

/// What the first `n` files of a listing leave behind: the blobs that are accounted for, their
/// total, and the number and the bytes of the bundles that were swept.
pub struct SweepTally {
    pub blobs: Map<Seq<Seq<char>>, BlobInfo>,
    pub total: int,
    pub swept_count: int,
    pub swept_bytes: int,
}

pub open spec fn tally(
    listing: Seq<DirEntry>,
    unlinked: Seq<bool>,
    now: Moment,
    ttl_secs: int,
    protect: Option<Seq<char>>,
    n: int,
) -> SweepTally
    decreases n,
{
    if n <= 0 {
        SweepTally { blobs: Map::empty(), total: 0, swept_count: 0, swept_bytes: 0 }
    } else {
        let t = tally(listing, unlinked, now, ttl_secs, protect, n - 1);
        let e = listing[n - 1];
        if kind_of(e.path@) != FileKind::Bundle {
            t
        } else if swept(listing, unlinked, now, ttl_secs, protect, n - 1) {
            SweepTally {
                swept_count: t.swept_count + 1,
                swept_bytes: t.swept_bytes + e.size,
                ..t
            }
        } else {
            SweepTally {
                blobs: t.blobs.insert(
                    e.key(),
                    BlobInfo { size: e.size, last_used: e.modified },
                ),
                total: t.total + e.size,
                ..t
            }
        }
    }
}

/// The bytes of all files of a listing together.
pub open spec fn listing_bytes(listing: Seq<DirEntry>, n: int) -> int
    decreases n,
{
    if n <= 0 {
        0
    } else {
        listing_bytes(listing, n - 1) + listing[n - 1].size
    }
}

pub open spec fn distinct_files(listing: Seq<DirEntry>) -> bool {
    forall|i: int, j: int|
        0 <= i < j < listing.len() ==> (#[trigger] listing[i]).key() != (
        #[trigger] listing[j]).key()
}

proof fn lemma_listing_bytes_grow(listing: Seq<DirEntry>, a: int, b: int)
    requires
        0 <= a <= b <= listing.len(),
    ensures
        0 <= listing_bytes(listing, a) <= listing_bytes(listing, b),
    decreases b,
{
    if a < b {
        lemma_listing_bytes_grow(listing, a, b - 1);
    } else if a > 0 {
        lemma_listing_bytes_grow(listing, a - 1, a - 1);
    }
}

/// A tally never counts more bytes than the listing holds, and accounts only for listed paths.
proof fn lemma_tally_bounds(
    listing: Seq<DirEntry>,
    unlinked: Seq<bool>,
    now: Moment,
    ttl_secs: int,
    protect: Option<Seq<char>>,
    n: int,
)
    requires
        0 <= n <= listing.len(),
    ensures
        ({
            let t = tally(listing, unlinked, now, ttl_secs, protect, n);
            &&& 0 <= t.total
            &&& 0 <= t.swept_bytes
            &&& 0 <= t.swept_count <= n
            &&& t.total + t.swept_bytes <= listing_bytes(listing, n)
            &&& forall|p: Seq<Seq<char>>| #[trigger]
                t.blobs.contains_key(p) ==> exists|i: int|
                    0 <= i < n && (#[trigger] listing[i]).key() == p
        }),
    decreases n,
{
    if n > 0 {
        lemma_tally_bounds(listing, unlinked, now, ttl_secs, protect, n - 1);
        let t = tally(listing, unlinked, now, ttl_secs, protect, n);
        let u = tally(listing, unlinked, now, ttl_secs, protect, n - 1);
        assert forall|p: Seq<Seq<char>>| #[trigger] t.blobs.contains_key(p) implies exists|i: int|
            0 <= i < n && (#[trigger] listing[i]).key() == p by {
            if u.blobs.contains_key(p) {
                let i = choose|i: int| 0 <= i < n - 1 && (#[trigger] listing[i]).key() == p;
                assert(listing[i].key() == p);
            } else {
                assert(listing[n - 1].key() == p);
            }
        }
    }
}

/// Whether the sizes of a listing can be added up.
pub fn listing_fits(listing: &Vec<DirEntry>) -> (r: bool)
    ensures
        r == (listing_bytes(listing@, listing@.len() as int) <= u64::MAX),
{
    let mut sum: u64 = 0;
    let mut i: usize = 0;
    while i < listing.len()
        invariant
            i <= listing@.len(),
            sum == listing_bytes(listing@, i as int),
        decreases listing@.len() - i,
    {
        proof {
            lemma_listing_bytes_grow(listing@, i + 1, listing@.len() as int);
        }
        match sum.checked_add(listing[i].size) {
            Some(s) => {
                sum = s;
            },
            None => {
                return false;
            },
        }
        i = i + 1;
    }
    true
}

/// What a sweep over a listing found: the rebuilt index, and what was expired.
pub struct Swept {
    pub index: CacheIndex,
    pub swept_bytes: u64,
    pub swept_count: u64,
}

/// Rebuilds the index from a listing of the directory. `unlinked[i]` says whether the attempt to
/// unlink file `i` succeeded, which was made for the files whose fate is [`Fate::Expire`].
pub fn rebuild_index(
    listing: &Vec<DirEntry>,
    unlinked: &Vec<bool>,
    now: &Moment,
    ttl_secs: u64,
    protect: &Option<String>,
) -> (r: Swept)
    requires
        unlinked@.len() == listing@.len(),
        distinct_files(listing@),
        listing_bytes(listing@, listing@.len() as int) <= u64::MAX,
    ensures
        r.index.wf(),
        r.index.built,
        ({
            let t = tally(
                listing@,
                unlinked@,
                *now,
                ttl_secs as int,
                opt_view(*protect),
                listing@.len() as int,
            );
            &&& r.index.blobs() == t.blobs
            &&& r.index.total_bytes == t.total
            &&& r.swept_bytes == t.swept_bytes
            &&& r.swept_count == t.swept_count
        }),
{
    let mut index = CacheIndex::new();
    index.built = true;
    let mut swept_bytes: u64 = 0;
    let mut swept_count: u64 = 0;
    let mut i: usize = 0;
    let ghost ttl = ttl_secs as int;
    let ghost prot = opt_view(*protect);
    while i < listing.len()
        invariant
            i <= listing@.len(),
            unlinked@.len() == listing@.len(),
            distinct_files(listing@),
            listing_bytes(listing@, listing@.len() as int) <= u64::MAX,
            ttl == ttl_secs as int,
            prot == opt_view(*protect),
            index.wf(),
            index.built,
            ({
                let t = tally(listing@, unlinked@, *now, ttl, prot, i as int);
                &&& index.blobs() == t.blobs
                &&& index.total_bytes == t.total
                &&& swept_bytes == t.swept_bytes
                &&& swept_count == t.swept_count
            }),
        decreases listing@.len() - i,
    {
        let e = &listing[i];
        proof {
            lemma_tally_bounds(listing@, unlinked@, *now, ttl, prot, i as int);
            lemma_listing_bytes_grow(listing@, i + 1, listing@.len() as int);
            if index.blobs().contains_key(e.key()) {
                let j = choose|j: int| 0 <= j < i && (#[trigger] listing@[j]).key() == e.key();
                assert(listing@[j].key() != listing@[i as int].key());
            }
        }
        match entry_fate(e, now, ttl_secs, protect) {
            Fate::Index => {
                index.put(
                    e.path.as_str(),
                    BlobInfo { size: e.size, last_used: e.modified },
                );
            },
            Fate::Expire => {
                if unlinked[i] {
                    swept_bytes = swept_bytes + e.size;
                    swept_count = swept_count + 1;
                } else {
                    index.put(
                        e.path.as_str(),
                        BlobInfo { size: e.size, last_used: e.modified },
                    );
                }
            },
            _ => {},
        }
        i = i + 1;
    }
    Swept { index, swept_bytes, swept_count }
}

/// The notice of a sweep that expired something.
pub fn sweep_event(swept: &Swept, cap: Option<u64>) -> (r: Option<CacheEvent>)
    ensures
        r is Some <==> swept.swept_count > 0,
        r matches Some(e) ==> e@ == (CacheEventView {
            action: CacheEventAction::Sweep,
            cache_key: None,
            path: None,
            bytes: swept.swept_bytes,
            total_bytes: swept.index.total_bytes,
            max_bytes: cap,
        }),
{
    if swept.swept_count > 0 {
        Some(
            CacheEvent {
                action: CacheEventAction::Sweep,
                cache_key: None,
                path: None,
                bytes: swept.swept_bytes,
                total_bytes: swept.index.total_bytes,
                max_bytes: cap,
            },
        )
    } else {
        None
    }
}

// ---------------------------------------------------------------------------
// Making room
// ---------------------------------------------------------------------------

/// Whether `incoming` more bytes beside `total` stay under the cap, the sum being saturated.
pub open spec fn has_room(total: int, incoming: int, cap: Option<u64>) -> bool {
    match cap {
        Some(c) => total + incoming <= c || c == u64::MAX,
        None => true,
    }
}

/// Blobs in the order of their last use, oldest first.
pub open spec fn oldest_first(blobs: Seq<Blob>) -> bool {
    forall|i: int, j: int|
        0 <= i < j < blobs.len() ==> (#[trigger] blobs[i]).info.last_used.ns() <= (
        #[trigger] blobs[j]).info.last_used.ns()
}

/// A blob taken by view.
pub open spec fn blob_view(b: Blob) -> (Seq<char>, BlobInfo) {
    (b.path@, b.info)
}

/// How the attempt to evict a candidate ended.
#[derive(Debug, Clone, Copy, PartialEq, Eq, Structural)]
pub enum Outcome {
    /// The blob backs a live worker and is left alone.
    Pinned,
    /// The blob was unlinked.
    Removed,
    /// The file system refused to unlink it.
    Refused,
}

/// The state of an eviction, in mathematical terms.
pub struct EvictionModel {
    pub blobs: Map<Seq<Seq<char>>, BlobInfo>,
    pub total: int,
    /// Whether the index has been built.
    pub built: bool,
    pub candidates: Seq<(Seq<char>, BlobInfo)>,
    /// How many candidates have been tried.
    pub tried: int,
    pub incoming: int,
    pub cap: Option<u64>,
    pub events: Seq<CacheEventView>,
}

impl EvictionModel {
    pub open spec fn has_room(self) -> bool {
        has_room(self.total, self.incoming, self.cap)
    }

    /// There is room, or nothing is left to try.
    pub open spec fn done(self) -> bool {
        self.has_room() || self.tried >= self.candidates.len()
    }

    /// The notice that the next candidate was unlinked.
    pub open spec fn eviction_event(self) -> CacheEventView {
        CacheEventView {
            action: CacheEventAction::Evicted,
            cache_key: None,
            path: Some(self.candidates[self.tried].0),
            bytes: self.candidates[self.tried].1.size,
            total_bytes: (self.total - self.candidates[self.tried].1.size) as u64,
            max_bytes: self.cap,
        }
    }

    /// The state once the next candidate has been tried with the given outcome.
    pub open spec fn step(self, outcome: Outcome) -> EvictionModel {
        let (path, info) = self.candidates[self.tried];
        match outcome {
            Outcome::Removed => EvictionModel {
                blobs: self.blobs.remove(key_of(path)),
                total: self.total - info.size,
                tried: self.tried + 1,
                events: self.events.push(self.eviction_event()),
                ..self
            },
            _ => EvictionModel { tried: self.tried + 1, ..self },
        }
    }

    /// The state after a run of outcomes.
    pub open spec fn run(self, outcomes: Seq<Outcome>) -> EvictionModel
        decreases outcomes.len(),
    {
        if outcomes.len() == 0 {
            self
        } else {
            self.run(outcomes.drop_last()).step(outcomes.last())
        }
    }

    /// Whether every outcome of the run belongs to an attempt that was due.
    pub open spec fn runs(self, outcomes: Seq<Outcome>) -> bool
        decreases outcomes.len(),
    {
        outcomes.len() > 0 ==> {
            &&& self.runs(outcomes.drop_last())
            &&& !self.run(outcomes.drop_last()).done()
        }
    }

    /// The bytes that the removals of a run set free.
    pub open spec fn freed(self, outcomes: Seq<Outcome>) -> int
        decreases outcomes.len(),
    {
        if outcomes.len() == 0 {
            0
        } else {
            let n = outcomes.len() - 1;
            self.freed(outcomes.drop_last()) + if outcomes.last() == Outcome::Removed {
                self.candidates[self.tried + n].1.size as int
            } else {
                0
            }
        }
    }

    /// What holds of an eviction at every moment: the candidates have distinct paths, stand in the
    /// order of their last use, and those not tried yet are all still there.
    pub open spec fn valid(self) -> bool {
        &&& 0 <= self.tried <= self.candidates.len()
        &&& forall|i: int, j: int|
            0 <= i < j < self.candidates.len() ==> key_of((#[trigger] self.candidates[i]).0)
                != key_of((#[trigger] self.candidates[j]).0)
        &&& forall|i: int, j: int|
            0 <= i < j < self.candidates.len() ==> (#[trigger] self.candidates[i]).1.last_used.ns()
                <= (#[trigger] self.candidates[j]).1.last_used.ns()
        &&& forall|i: int|
            self.tried <= i < self.candidates.len() ==> self.blobs.contains_pair(
                key_of((#[trigger] self.candidates[i]).0),
                self.candidates[i].1,
            )
    }
}

/// Evicting blobs, least recently used first, until an incoming bundle fits under the cap.
pub struct Eviction {
    pub index: CacheIndex,
    pub candidates: Vec<Blob>,
    pub tried: usize,
    pub incoming: u64,
    pub cap: Option<u64>,
    pub events: Vec<CacheEvent>,
}

/// The candidates among `entries`: all but the protected blob, oldest first.
fn candidates_of(entries: &Vec<Blob>, protect: &Option<String>) -> (r: Vec<Blob>)
    requires
        distinct_paths(entries@),
    ensures
        distinct_paths(r@),
        oldest_first(r@),
        by_path(r@) == match opt_view(*protect) {
            Some(p) => by_path(entries@).remove(key_of(p)),
            None => by_path(entries@),
        },
{
    let mut out: Vec<Blob> = Vec::new();
    let mut i: usize = 0;
    let ghost prot = opt_view(*protect);
    assert(by_path(out@) =~= Map::<Seq<Seq<char>>, BlobInfo>::empty());
    assert(by_path(entries@.take(0)) =~= Map::<Seq<Seq<char>>, BlobInfo>::empty());
    assert(without(by_path(entries@.take(0)), prot) =~= by_path(out@));
    while i < entries.len()
        invariant
            i <= entries@.len(),
            prot == opt_view(*protect),
            distinct_paths(entries@),
            distinct_paths(out@),
            oldest_first(out@),
            by_path(out@) == without(by_path(entries@.take(i as int)), prot),
        decreases entries@.len() - i,
    {
        let e = &entries[i];
        let ghost seen = entries@.take(i as int);
        proof {
            assert(entries@.take(i + 1) =~= seen.push(*e));
            assert(distinct_paths(seen));
            lemma_position(seen, e.key());
            if by_path(seen).contains_key(e.key()) {
                let k = position(seen, e.key())->0;
                assert(entries@[k].key() != entries@[i as int].key());
            }
            lemma_by_path_push(seen, *e);
        }
        if is_path(e.path.as_str(), protect) {
            assert(without(by_path(entries@.take(i + 1)), prot) =~= without(by_path(seen), prot));
        } else {
            let mut at: usize = out.len();
            while at > 0 && out[at - 1].info.last_used.nanoseconds()
                > e.info.last_used.nanoseconds()
                invariant
                    at <= out@.len(),
                    oldest_first(out@),
                    forall|j: int|
                        at <= j < out@.len() ==> e.info.last_used.ns() < (
                        #[trigger] out@[j]).info.last_used.ns(),
                decreases at,
            {
                at = at - 1;
            }
            let b = Blob { path: e.path.clone(), info: e.info };
            let ghost before = out@;
            proof {
                lemma_by_path_insert(before, at as int, b);
                assert forall|x: int, y: int|
                    0 <= x < y < before.insert(at as int, b).len() implies (
                #[trigger] before.insert(at as int, b)[x]).info.last_used.ns() <= (
                #[trigger] before.insert(at as int, b)[y]).info.last_used.ns() by {
                    let x2 = if x < at { x } else { x - 1 };
                    let y2 = if y < at { y } else { y - 1 };
                    if x == at {
                        assert(before[y2] == before.insert(at as int, b)[y]);
                    } else if y == at {
                        assert(before[x2] == before.insert(at as int, b)[x]);
                        if at > 0 {
                            assert(before[at - 1].info.last_used.ns() <= b.info.last_used.ns());
                            if x2 < at - 1 {
                                assert(before[x2].info.last_used.ns() <= before[at
                                    - 1].info.last_used.ns());
                            }
                        }
                    } else {
                        assert(before[x2].info.last_used.ns() <= before[y2].info.last_used.ns());
                    }
                }
            }
            out.insert(at, b);
            assert(by_path(out@) =~= without(by_path(entries@.take(i + 1)), prot));
        }
        i = i + 1;
    }
    assert(entries@.take(i as int) =~= entries@);
    out
}

/// A map without the path `p`, where there is one.
pub open spec fn without(
    m: Map<Seq<Seq<char>>, BlobInfo>,
    p: Option<Seq<char>>,
) -> Map<Seq<Seq<char>>, BlobInfo> {
    match p {
        Some(path) => m.remove(key_of(path)),
        None => m,
    }
}

impl Eviction {
    /// The state in mathematical terms.
    pub open spec fn model(self) -> EvictionModel {
        EvictionModel {
            blobs: self.index.blobs(),
            total: self.index.total_bytes as int,
            built: self.index.built,
            candidates: self.candidates@.map_values(|b: Blob| blob_view(b)),
            tried: self.tried as int,
            incoming: self.incoming as int,
            cap: self.cap,
            events: event_views(self.events@),
        }
    }

    pub open spec fn wf(self) -> bool {
        &&& self.index.wf()
        &&& self.model().valid()
    }

    /// Begins to make room for `incoming` bytes. Every blob is a candidate but the protected one.
    pub fn begin(
        index: CacheIndex,
        incoming: u64,
        cap: Option<u64>,
        protect: &Option<String>,
    ) -> (r: Eviction)
        requires
            index.wf(),
        ensures
            r.wf(),
            r.index == index,
            r.incoming == incoming,
            r.cap == cap,
            r.tried == 0,
            r.events@.len() == 0,
            oldest_first(r.candidates@),
            distinct_paths(r.candidates@),
            by_path(r.candidates@) == without(index.blobs(), opt_view(*protect)),
            forall|i: int|
                0 <= i < r.candidates@.len() ==> !is_protected(
                    (#[trigger] r.candidates@[i]).path@,
                    opt_view(*protect),
                ),
    {
        let candidates = candidates_of(&index.entries, protect);
        let r = Eviction { index, candidates, tried: 0, incoming, cap, events: Vec::new() };
        proof {
            assert forall|i: int| 0 <= i < r.candidates@.len() implies r.model().blobs.contains_pair(
                key_of((#[trigger] r.model().candidates[i]).0),
                r.model().candidates[i].1,
            ) && !is_protected(r.candidates@[i].path@, opt_view(*protect)) by {
                lemma_position_at(r.candidates@, i);
                assert(r.model().candidates[i] == blob_view(r.candidates@[i]));
            }
            assert forall|i: int|
                0 <= i < r.candidates@.len() implies !is_protected(
                (#[trigger] r.candidates@[i]).path@,
                opt_view(*protect),
            ) by {
                assert(r.model().candidates[i] == blob_view(r.candidates@[i]));
            }
        }
        r
    }

    /// Whether the incoming bytes fit.
    pub fn has_room(&self) -> (r: bool)
        ensures
            r == self.model().has_room(),
    {
        match self.cap {
            Some(cap) => self.index.total_bytes.saturating_add(self.incoming) <= cap,
            None => true,
        }
    }

    /// The path of the blob to evict next, or `None` where there is room or nothing is left.
    pub fn next(&self) -> (r: Option<String>)
        requires
            self.wf(),
        ensures
            r is None <==> self.model().done(),
            r matches Some(p) ==> p@ == self.model().candidates[self.model().tried].0,
    {
        if self.has_room() || self.tried >= self.candidates.len() {
            None
        } else {
            Some(self.candidates[self.tried].path.clone())
        }
    }

    /// Takes in how the attempt on the blob that `next` gave ended.
    pub fn report(&mut self, outcome: Outcome)
        requires
            old(self).wf(),
            !old(self).model().done(),
        ensures
            final(self).wf(),
            final(self).model() == old(self).model().step(outcome),
    {
        let ghost before = self.model();
        let ghost at = self.tried as int;
        let n: usize = self.candidates.len();
        assert(at < n);
        assert(before.candidates[at] == blob_view(self.candidates@[at]));
        match outcome {
            Outcome::Removed => {
                let path = self.candidates[self.tried].path.clone();
                let size: u64 = self.candidates[self.tried].info.size;
                self.index.take(path.as_str());
                let event = CacheEvent {
                    action: CacheEventAction::Evicted,
                    cache_key: None,
                    path: Some(path),
                    bytes: size,
                    total_bytes: self.index.total_bytes,
                    max_bytes: self.cap,
                };
                let ghost events = self.events@;
                self.events.push(event);
                assert(event_views(self.events@) =~= event_views(events).push(event@));
                assert(event@ == before.eviction_event());
            },
            _ => {},
        }
        self.tried = self.tried + 1;
        assert(self.model().candidates =~= before.candidates);
        assert(self.model() == before.step(outcome));
    }

    /// Ends the eviction: the index as it now stands, and the notices of what happened. Where the
    /// incoming bytes still do not fit, the last notice says so.
    pub fn finish(self) -> (r: (CacheIndex, Vec<CacheEvent>))
        requires
            self.wf(),
        ensures
            r.0 == self.index,
            event_views(r.1@) == finish_events(self.model()),
    {
        let over = !self.has_room();
        let mut events = self.events;
        if over {
            let event = CacheEvent {
                action: CacheEventAction::OverCap,
                cache_key: None,
                path: None,
                bytes: self.incoming,
                total_bytes: self.index.total_bytes,
                max_bytes: self.cap,
            };
            let ghost before = events@;
            events.push(event);
            assert(event_views(events@) =~= event_views(before).push(event@));
        }
        (self.index, events)
    }
}

/// The notices of an eviction that has ended.
pub open spec fn finish_events(m: EvictionModel) -> Seq<CacheEventView> {
    if m.has_room() {
        m.events
    } else {
        m.events.push(
            CacheEventView {
                action: CacheEventAction::OverCap,
                cache_key: None,
                path: None,
                bytes: m.incoming as u64,
                total_bytes: m.total as u64,
                max_bytes: m.cap,
            },
        )
    }
}

/// The notices that a sweep opens with.
pub open spec fn opening_events(t: SweepTally, cap: Option<u64>) -> Seq<CacheEventView> {
    if t.swept_count > 0 {
        seq![
            CacheEventView {
                action: CacheEventAction::Sweep,
                cache_key: None,
                path: None,
                bytes: t.swept_bytes as u64,
                total_bytes: t.total as u64,
                max_bytes: cap,
            },
        ]
    } else {
        Seq::empty()
    }
}

/// Admission-time maintenance: rebuilds the index from a listing of the directory whose expired
/// bundles have been unlinked as `unlinked` says, and begins to make room for `incoming` bytes
/// under the cap. The blob `protect` is never a victim.
pub fn sweep_and_make_room(
    listing: &Vec<DirEntry>,
    unlinked: &Vec<bool>,
    now: &Moment,
    ttl_secs: u64,
    incoming: u64,
    cap: Option<u64>,
    protect: &Option<String>,
) -> (r: Eviction)
    requires
        unlinked@.len() == listing@.len(),
        distinct_files(listing@),
        listing_bytes(listing@, listing@.len() as int) <= u64::MAX,
    ensures
        r.wf(),
        r.index.built,
        ({
            let t = tally(
                listing@,
                unlinked@,
                *now,
                ttl_secs as int,
                opt_view(*protect),
                listing@.len() as int,
            );
            let m = r.model();
            &&& m.blobs == t.blobs
            &&& m.total == t.total
            &&& m.tried == 0
            &&& m.incoming == incoming
            &&& m.cap == cap
            &&& m.events == opening_events(t, cap)
            &&& by_path(r.candidates@) == without(t.blobs, opt_view(*protect))
            &&& forall|i: int|
                0 <= i < m.candidates.len() ==> !is_protected(
                    (#[trigger] m.candidates[i]).0,
                    opt_view(*protect),
                )
        }),
{
    let swept = rebuild_index(listing, unlinked, now, ttl_secs, protect);
    let notice = sweep_event(&swept, cap);
    let mut r = Eviction::begin(swept.index, incoming, cap, protect);
    let ghost begun = r.model();
    proof {
        assert forall|i: int| 0 <= i < begun.candidates.len() implies !is_protected(
            (#[trigger] begun.candidates[i]).0,
            opt_view(*protect),
        ) by {
            assert(begun.candidates[i] == blob_view(r.candidates@[i]));
        }
    }
    match notice {
        Some(event) => {
            r.events.push(event);
            assert(event_views(r.events@) =~= seq![event@]);
        },
        None => {
            assert(event_views(r.events@) =~= Seq::<CacheEventView>::empty());
        },
    }
    assert(r.model().candidates =~= begun.candidates);
    r
}

// ---------------------------------------------------------------------------
// Laws
// ---------------------------------------------------------------------------

/// What any run of an eviction does: a blob leaves exactly if it is one of the candidates tried so
/// far and was unlinked; the others stay as they were, and the total falls by the bytes set free.
pub proof fn law_eviction_run(m: EvictionModel, outcomes: Seq<Outcome>)
    requires
        m.valid(),
        m.runs(outcomes),
    ensures
        m.run(outcomes).valid(),
        m.run(outcomes).candidates == m.candidates,
        m.run(outcomes).incoming == m.incoming,
        m.run(outcomes).cap == m.cap,
        m.run(outcomes).tried == m.tried + outcomes.len(),
        m.run(outcomes).total == m.total - m.freed(outcomes),
        forall|p: Seq<Seq<char>>| #[trigger]
            m.run(outcomes).blobs.contains_key(p) <==> m.blobs.contains_key(p) && !exists|i: int|
                0 <= i < outcomes.len() && #[trigger] outcomes[i] == Outcome::Removed
                    && key_of(m.candidates[m.tried + i].0) == p,
        forall|p: Seq<Seq<char>>| #[trigger]
            m.run(outcomes).blobs.contains_key(p) ==> m.run(outcomes).blobs[p] == m.blobs[p],
    decreases outcomes.len(),
{
    if outcomes.len() > 0 {
        let prev = outcomes.drop_last();
        law_eviction_run(m, prev);
        let a = m.run(prev);
        let b = m.run(outcomes);
        assert(!a.done());
        assert(b == a.step(outcomes.last()));
        let at = a.tried;
        assert forall|i: int| b.tried <= i < b.candidates.len() implies b.blobs.contains_pair(
            key_of((#[trigger] b.candidates[i]).0),
            b.candidates[i].1,
        ) by {
            assert(key_of(a.candidates[at].0) != key_of(a.candidates[i].0));
        }
        assert forall|p: Seq<Seq<char>>| #[trigger]
            b.blobs.contains_key(p) <==> m.blobs.contains_key(p) && !exists|i: int|
                0 <= i < outcomes.len() && #[trigger] outcomes[i] == Outcome::Removed
                    && key_of(m.candidates[m.tried + i].0) == p by {
            let gone_before = exists|i: int|
                0 <= i < prev.len() && #[trigger] prev[i] == Outcome::Removed
                    && key_of(m.candidates[m.tried + i].0) == p;
            let gone = exists|i: int|
                0 <= i < outcomes.len() && #[trigger] outcomes[i] == Outcome::Removed
                    && key_of(m.candidates[m.tried + i].0) == p;
            assert(a.blobs.contains_key(p) <==> m.blobs.contains_key(p) && !gone_before);
            if gone_before {
                let i = choose|i: int|
                    0 <= i < prev.len() && #[trigger] prev[i] == Outcome::Removed
                        && key_of(m.candidates[m.tried + i].0) == p;
                assert(outcomes[i] == prev[i]);
                assert(gone);
            }
            if gone {
                let i = choose|i: int|
                    0 <= i < outcomes.len() && #[trigger] outcomes[i] == Outcome::Removed
                        && key_of(m.candidates[m.tried + i].0) == p;
                if i < prev.len() {
                    assert(prev[i] == outcomes[i]);
                    assert(gone_before);
                }
            }
            if outcomes.last() == Outcome::Removed && key_of(m.candidates[at].0) == p {
                assert(outcomes[outcomes.len() - 1] == Outcome::Removed);
                assert(gone);
            }
        }
    }
}

/// A blob that is not among the candidates (the protected one), and a candidate whose outcome was
/// not `Removed` (a pinned one), survive every run.
pub proof fn law_protected_and_pinned_survive(m: EvictionModel, outcomes: Seq<Outcome>, p: Seq<Seq<char>>)
    requires
        m.valid(),
        m.runs(outcomes),
        m.blobs.contains_key(p),
        forall|i: int|
            0 <= i < outcomes.len() && key_of((#[trigger] m.candidates[m.tried + i]).0) == p ==> outcomes[i]
                != Outcome::Removed,
    ensures
        m.run(outcomes).blobs.contains_key(p),
        m.run(outcomes).blobs[p] == m.blobs[p],
{
    law_eviction_run(m, outcomes);
    if exists|i: int|
        0 <= i < outcomes.len() && #[trigger] outcomes[i] == Outcome::Removed && key_of(
        m.candidates[m.tried + i].0,
    ) == p {
        let i = choose|i: int|
            0 <= i < outcomes.len() && #[trigger] outcomes[i] == Outcome::Removed && key_of(
                m.candidates[m.tried + i].0,
            ) == p;
        assert(key_of(m.candidates[m.tried + i].0) == p);
    }
    assert(m.run(outcomes).blobs.contains_key(p));
}

/// Eviction goes by age and stops as soon as there is room: when a blob is removed, everything
/// used earlier has been tried before it, and the incoming bytes did not fit at that moment.
pub proof fn law_eviction_is_lru_and_minimal(m: EvictionModel, outcomes: Seq<Outcome>, i: int, j: int)
    requires
        m.valid(),
        m.runs(outcomes),
        m.tried == 0,
        0 <= j < outcomes.len(),
        outcomes[j] == Outcome::Removed,
        0 <= i < m.candidates.len(),
        m.candidates[i].1.last_used.ns() < m.candidates[j].1.last_used.ns(),
    ensures
        i < j,
        !m.run(outcomes.take(j)).has_room(),
{
    if i > j {
        assert(m.candidates[j].1.last_used.ns() <= m.candidates[i].1.last_used.ns());
    }
    lemma_runs_prefix(m, outcomes, j + 1);
    assert(outcomes.take(j + 1).drop_last() =~= outcomes.take(j));
}

proof fn lemma_runs_prefix(m: EvictionModel, outcomes: Seq<Outcome>, n: int)
    requires
        m.runs(outcomes),
        0 <= n <= outcomes.len(),
    ensures
        m.runs(outcomes.take(n)),
    decreases outcomes.len(),
{
    if n < outcomes.len() {
        lemma_runs_prefix(m, outcomes.drop_last(), n);
        assert(outcomes.drop_last().take(n) =~= outcomes.take(n));
    } else {
        assert(outcomes.take(n) =~= outcomes);
    }
}

/// A run that has ended either made room or tried every candidate.
pub proof fn law_eviction_ends(m: EvictionModel, outcomes: Seq<Outcome>)
    requires
        m.valid(),
        m.tried == 0,
        m.runs(outcomes),
        m.run(outcomes).done(),
    ensures
        m.run(outcomes).has_room() || outcomes.len() == m.candidates.len(),
{
    law_eviction_run(m, outcomes);
}


/// Whether a sweep at `now` takes the file for a bundle to expire: it has the extension of a
/// bundle, more than `ttl_secs` seconds have gone by since it was written, and it is not the one
/// protected.
pub open spec fn past_its_time(
    path: Seq<char>,
    modified: Moment,
    now: Moment,
    ttl_secs: int,
    protect: Option<Seq<char>>,
) -> bool {
    &&& extension(path) == Some("eszip"@)
    &&& now.secs * 1_000_000_000 + now.nanos - (modified.secs * 1_000_000_000 + modified.nanos)
        > ttl_secs * 1_000_000_000
    &&& protect is Some ==> components(protect->0) != components(path)
}

/// What a file is taken for hangs on the last part of its name alone.
pub proof fn law_files_are_told_apart_by_their_ending(dir: Seq<char>, stem: Seq<char>)
    requires
        !stem.contains('/'),
        stem.len() > 0,
    ensures
        kind_of(joined(dir, stem + seq!['.'] + "eszip"@)) == FileKind::Bundle,
        kind_of(joined(dir, stem + seq!['.'] + "json"@)) == FileKind::Manifest,
        kind_of(joined(dir, stem + seq!['.'] + "tmp"@)) == FileKind::Temporary,
{
    reveal_strlit("eszip");
    reveal_strlit("json");
    reveal_strlit("tmp");
    law_extension_follows_the_last_dot(dir, stem, "eszip"@);
    law_extension_follows_the_last_dot(dir, stem, "json"@);
    law_extension_follows_the_last_dot(dir, stem, "tmp"@);
    assert("eszip"@[0] != "json"@[0]);
    assert("eszip"@[0] != "tmp"@[0]);
    assert("json"@[0] != "tmp"@[0]);
}

/// A sweep expires the bundles past their time, and keeps an account of every other bundle; it
/// drops the manifests past theirs, and has the rest looked into; it discards temporary files an
/// hour after they were written, and touches nothing else.
pub proof fn law_sweep_fates(
    path: Seq<char>,
    modified: Moment,
    now: Moment,
    ttl_secs: int,
    protect: Option<Seq<char>>,
)
    requires
        ttl_secs >= 0,
    ensures
        ({
            let age = now.secs * 1_000_000_000 + now.nanos - (modified.secs * 1_000_000_000
                + modified.nanos);
            let fate = fate_of(path, modified, now, ttl_secs, protect);
            &&& fate == Fate::Expire <==> past_its_time(path, modified, now, ttl_secs, protect)
            &&& fate == Fate::Index <==> extension(path) == Some("eszip"@) && !past_its_time(
                path,
                modified,
                now,
                ttl_secs,
                protect,
            )
            &&& fate == Fate::DropManifest <==> extension(path) == Some("json"@) && age > ttl_secs
                * 1_000_000_000
            &&& fate == Fate::CheckManifest <==> extension(path) == Some("json"@) && age
                <= ttl_secs * 1_000_000_000
            &&& fate == Fate::Discard <==> extension(path) == Some("tmp"@) && age > 3600
                * 1_000_000_000
        }),
{
    reveal_strlit("eszip");
    reveal_strlit("json");
    reveal_strlit("tmp");
    assert("eszip"@[0] != "json"@[0]);
    assert("eszip"@[0] != "tmp"@[0]);
    assert("json"@[0] != "tmp"@[0]);
}

/// After a sweep the account holds each bundle listed that did not both expire and go, with its
/// size and the time it was written, and nothing else.
pub proof fn law_sweep_keeps_account_of_the_rest(
    listing: Seq<DirEntry>,
    unlinked: Seq<bool>,
    now: Moment,
    ttl_secs: int,
    protect: Option<Seq<char>>,
    n: int,
    i: int,
    key: Seq<Seq<char>>,
)
    requires
        ttl_secs >= 0,
        distinct_files(listing),
        0 <= i < n <= listing.len(),
    ensures
        ({
            let e = listing[i];
            let t = tally(listing, unlinked, now, ttl_secs, protect, n);
            let gone = past_its_time(e.path@, e.modified, now, ttl_secs, protect) && unlinked[i];
            &&& t.blobs.contains_key(components(e.path@)) <==> extension(e.path@) == Some(
                "eszip"@,
            ) && !gone
            &&& t.blobs.contains_key(components(e.path@)) ==> t.blobs[components(e.path@)].size
                == e.size && t.blobs[components(e.path@)].last_used == e.modified
            &&& t.blobs.contains_key(key) ==> exists|j: int|
                0 <= j < n && components((#[trigger] listing[j]).path@) == key
        }),
    decreases n,
{
    let e = listing[i];
    lemma_tally_bounds(listing, unlinked, now, ttl_secs, protect, n);
    lemma_tally_bounds(listing, unlinked, now, ttl_secs, protect, n - 1);
    law_sweep_fates(e.path@, e.modified, now, ttl_secs, protect);
    assert(e.key() == components(e.path@));
    let t = tally(listing, unlinked, now, ttl_secs, protect, n);
    if t.blobs.contains_key(key) {
        let j = choose|j: int| 0 <= j < n && (#[trigger] listing[j]).key() == key;
        assert(components(listing[j].path@) == key);
    }
    if i == n - 1 {
        assert(!tally(listing, unlinked, now, ttl_secs, protect, n - 1).blobs.contains_key(
            e.key(),
        ));
    } else {
        law_sweep_keeps_account_of_the_rest(
            listing,
            unlinked,
            now,
            ttl_secs,
            protect,
            n - 1,
            i,
            key,
        );
        assert(listing[n - 1].key() != listing[i].key());
    }
}

/// The sizes of the files at `places`, together.
pub open spec fn bytes_at(listing: Seq<DirEntry>, places: Seq<int>) -> int {
    places.map_values(|i: int| listing[i].size as int).fold_left(0int, |a: int, b: int| a + b)
}

/// One place more adds the size of the file there.
pub proof fn lemma_bytes_at_push(listing: Seq<DirEntry>, places: Seq<int>, i: int)
    ensures
        bytes_at(listing, places.push(i)) == bytes_at(listing, places) + listing[i].size,
{
    let f = |i: int| listing[i].size as int;
    assert(places.push(i).map_values(f).drop_last() =~= places.map_values(f));
    assert(places.push(i).map_values(f).last() == listing[i].size);
}

/// The totals of a sweep are those of the files themselves: what is swept is what expired and
/// went, and what is left is every other bundle.
pub proof fn law_sweep_adds_up(
    listing: Seq<DirEntry>,
    unlinked: Seq<bool>,
    now: Moment,
    ttl_secs: int,
    protect: Option<Seq<char>>,
    n: nat,
)
    requires
        ttl_secs >= 0,
        n <= listing.len(),
    ensures
        ({
            let t = tally(listing, unlinked, now, ttl_secs, protect, n as int);
            let places = Seq::new(n, |i: int| i);
            let gone = |i: int|
                past_its_time(listing[i].path@, listing[i].modified, now, ttl_secs, protect)
                    && unlinked[i];
            let kept = |i: int| extension(listing[i].path@) == Some("eszip"@) && !gone(i);
            &&& t.swept_count == places.filter(gone).len()
            &&& t.swept_bytes == bytes_at(listing, places.filter(gone))
            &&& t.total == bytes_at(listing, places.filter(kept))
        }),
    decreases n,
{
    let places = Seq::new(n, |i: int| i);
    let gone = |i: int|
        past_its_time(listing[i].path@, listing[i].modified, now, ttl_secs, protect)
            && unlinked[i];
    let kept = |i: int| extension(listing[i].path@) == Some("eszip"@) && !gone(i);
    if n == 0 {
        assert(places =~= Seq::<int>::empty());
        reveal(Seq::filter);
        assert(places.filter(gone) =~= Seq::<int>::empty());
        assert(places.filter(kept) =~= Seq::<int>::empty());
        assert(Seq::<int>::empty().map_values(|i: int| listing[i].size as int).len() == 0);
    } else {
        let m = (n - 1) as nat;
        let shorter = Seq::new(m, |i: int| i);
        law_sweep_adds_up(listing, unlinked, now, ttl_secs, protect, m);
        assert(places =~= shorter.push(m as int));
        shorter.lemma_filter_push(m as int, gone);
        shorter.lemma_filter_push(m as int, kept);
        let e = listing[m as int];
        law_sweep_fates(e.path@, e.modified, now, ttl_secs, protect);
        lemma_bytes_at_push(listing, shorter.filter(gone), m as int);
        lemma_bytes_at_push(listing, shorter.filter(kept), m as int);
        assert(kind_of(e.path@) == FileKind::Bundle <==> extension(e.path@) == Some("eszip"@));
    }
}

/// Sizes are added up as far as the counter goes, and there is room as long as that sum is within
/// the cap; without a cap there always is.
pub proof fn law_room_is_up_to_the_cap(total: int, incoming: int, cap: Option<u64>)
    requires
        0 <= total <= u64::MAX,
        0 <= incoming <= u64::MAX,
    ensures
        cap is None ==> has_room(total, incoming, cap),
        cap matches Some(c) ==> (has_room(total, incoming, cap) <==> (if total + incoming
            > u64::MAX {
            u64::MAX as int
        } else {
            total + incoming
        }) <= c),
{
}

/// What is protected is left out of what may go, and nothing else is.
pub proof fn law_only_the_protected_is_left_out(
    m: Map<Seq<Seq<char>>, BlobInfo>,
    protect: Option<Seq<char>>,
    key: Seq<Seq<char>>,
)
    ensures
        without(m, protect).contains_key(key) <==> m.contains_key(key) && !(protect is Some
            && components(protect->0) == key),
        without(m, protect).contains_key(key) ==> without(m, protect)[key] == m[key],
{
}

/// Each removal is reported with the path and size of the blob that went and what then remains;
/// a blob that stays is passed over in silence. Either way the next candidate comes up, and the
/// room asked for and the cap stand.
pub proof fn law_removals_are_reported(m: EvictionModel, outcome: Outcome)
    requires
        0 <= m.tried < m.candidates.len(),
        m.candidates[m.tried].1.size <= m.total <= u64::MAX,
    ensures
        ({
            let after = m.step(outcome);
            let (path, info) = m.candidates[m.tried];
            &&& after.tried == m.tried + 1
            &&& after.candidates == m.candidates
            &&& after.incoming == m.incoming
            &&& after.cap == m.cap
            &&& after.built == m.built
            &&& outcome != Outcome::Removed ==> after.events == m.events && after.total == m.total
                && after.blobs == m.blobs
            &&& outcome == Outcome::Removed ==> {
                let e = after.events.last();
                &&& after.events.len() == m.events.len() + 1
                &&& after.events.drop_last() == m.events
                &&& e.action == CacheEventAction::Evicted
                &&& e.path == Some(path)
                &&& e.cache_key is None
                &&& e.bytes == info.size
                &&& e.total_bytes + e.bytes == m.total
                &&& e.total_bytes == after.total
                &&& e.max_bytes == m.cap
            }
        }),
{
    assert(m.events.push(m.eviction_event()).drop_last() =~= m.events);
}

/// Candidates are tried until there is room or none is left.
pub proof fn law_eviction_goes_on_while_it_must(m: EvictionModel)
    ensures
        m.done() <==> has_room(m.total, m.incoming, m.cap) || m.tried >= m.candidates.len(),
{
}

/// An eviction that could not make room ends by saying so: with what was to come in, what is there
/// and the cap. One that could adds nothing to what it has reported.
pub proof fn law_lack_of_room_is_reported(m: EvictionModel)
    requires
        0 <= m.total <= u64::MAX,
        0 <= m.incoming <= u64::MAX,
    ensures
        has_room(m.total, m.incoming, m.cap) ==> finish_events(m) == m.events,
        !has_room(m.total, m.incoming, m.cap) ==> {
            let e = finish_events(m).last();
            &&& finish_events(m).drop_last() == m.events
            &&& finish_events(m).len() == m.events.len() + 1
            &&& e.action == CacheEventAction::OverCap
            &&& e.bytes == m.incoming
            &&& e.total_bytes == m.total
            &&& e.max_bytes == m.cap
            &&& e.cache_key is None
            &&& e.path is None
        },
{
    if !m.has_room() {
        assert(finish_events(m).drop_last() =~= m.events);
    }
}

/// A sweep that removed something is reported once, with what went, what is left and the cap; one
/// that removed nothing is not.
pub proof fn law_sweeps_are_reported(t: SweepTally, cap: Option<u64>)
    requires
        0 <= t.swept_bytes <= u64::MAX,
        0 <= t.total <= u64::MAX,
    ensures
        t.swept_count <= 0 ==> opening_events(t, cap).len() == 0,
        t.swept_count > 0 ==> opening_events(t, cap).len() == 1 && ({
            let e = opening_events(t, cap)[0];
            &&& e.action == CacheEventAction::Sweep
            &&& e.bytes == t.swept_bytes
            &&& e.total_bytes == t.total
            &&& e.max_bytes == cap
            &&& e.cache_key is None
            &&& e.path is None
        }),
{
}


/// The bytes of a listing are the sizes of all its files, of whatever kind, added up.
pub proof fn law_listing_bytes_are_all_sizes(listing: Seq<DirEntry>, n: nat)
    requires
        n <= listing.len(),
    ensures
        listing_bytes(listing, n as int) == bytes_at(listing, Seq::new(n, |i: int| i)),
    decreases n,
{
    if n > 0 {
        let m = (n - 1) as nat;
        law_listing_bytes_are_all_sizes(listing, m);
        assert(Seq::new(n, |i: int| i) =~= Seq::new(m, |i: int| i).push(m as int));
        lemma_bytes_at_push(listing, Seq::new(m, |i: int| i), m as int);
    }
}

} // verus!
