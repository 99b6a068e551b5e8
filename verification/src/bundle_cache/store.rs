//! Settings of the cache, its statistics, the registry of open bundles and the observer of cache
//! activity.

use vstd::prelude::*;

use crate::bundle_cache::index::{total_size, Blob, BlobInfo, CacheIndex, Moment};
use crate::bundle_cache::sweep::{
    bytes_at, distinct_files, file_kind, kind_of, lemma_bytes_at_push, listing_bytes, CacheEvent,
    DirEntry, FileKind,
    DEFAULT_BUNDLE_TTL_SECS,
};
use crate::embed::Slot;
use crate::paths::{components, extension, join_path, joined};
use crate::text::{parse_unsigned, unsigned_number};

verus! {

/// Where bundles are kept: the configured directory, or `flow-bundles` in the temporary one.
pub fn cache_dir(configured: Option<&str>, temp_dir: &str) -> (r: String)
    ensures
        r@ == match configured {
            Some(d) => d@,
            None => joined(temp_dir@, "flow-bundles"@),
        },
{
    match configured {
        Some(d) => d.to_owned(),
        None => join_path(temp_dir, "flow-bundles"),
    }
}

/// How many seconds a bundle stays without being used: the configured number, or seven days where
/// there is none that parses.
pub fn bundle_ttl(configured: Option<&str>) -> (r: u64)
    ensures
        r == match configured {
            Some(s) => match unsigned_number(s@, u64::MAX as int) {
                Some(n) => n,
                None => DEFAULT_BUNDLE_TTL_SECS as int,
            },
            None => DEFAULT_BUNDLE_TTL_SECS as int,
        },
{
    match configured {
        Some(s) => match parse_unsigned(s, u64::MAX) {
            Some(n) => n,
            None => DEFAULT_BUNDLE_TTL_SECS,
        },
        None => DEFAULT_BUNDLE_TTL_SECS,
    }
}

/// The soft size cap in bytes. Unset or unparseable means uncapped.
pub fn max_cache_size(configured: Option<&str>) -> (r: Option<u64>)
    ensures
        match r {
            Some(n) => configured is Some && unsigned_number((configured->0)@, u64::MAX as int)
                == Some(n as int),
            None => configured is None || unsigned_number((configured->0)@, u64::MAX as int)
                is None,
        },
{
    match configured {
        Some(s) => parse_unsigned(s, u64::MAX),
        None => None,
    }
}

// ---------------------------------------------------------------------------
// Observing activity
// ---------------------------------------------------------------------------

/// Registers the observer of cache activity. The first caller wins.
pub fn set_event_sink<F>(slot: &mut Slot<F>, sink: F)
    ensures
        final(slot)@ == if old(slot)@ is Some {
            old(slot)@
        } else {
            Some(sink)
        },
{
    let _ = slot.set(sink);
}

/// The observer that was registered, if any.
pub fn event_sink<F>(slot: &Slot<F>) -> (r: Option<&F>)
    ensures
        match r {
            Some(f) => slot@ == Some(*f),
            None => slot@ is None,
        },
{
    slot.get()
}

/// Hands `event` to the observer, if there is one.
pub fn emit<F: Fn(CacheEvent)>(slot: &Slot<F>, event: CacheEvent)
    requires
        slot@ matches Some(f) ==> f.requires((event,)),
    ensures
        slot@ matches Some(f) ==> f.ensures((event,), ()),
{
    match event_sink(slot) {
        Some(f) => f(event),
        None => {},
    }
}

// ---------------------------------------------------------------------------
// Statistics
// ---------------------------------------------------------------------------

/// A point-in-time view of the blob store.
#[derive(Debug, Clone, Copy, PartialEq, Eq, Structural)]
pub struct BundleCacheStats {
    pub total_bytes: u64,
    pub entry_count: u64,
    pub max_bytes: Option<u64>,
    pub pinned_bytes: u64,
}

/// The blobs that a listing accounts for where nothing is swept: every bundle.
pub open spec fn listed_blobs(listing: Seq<DirEntry>, n: int) -> Map<Seq<Seq<char>>, BlobInfo>
    decreases n,
{
    if n <= 0 {
        Map::empty()
    } else {
        let e = listing[n - 1];
        let m = listed_blobs(listing, n - 1);
        if kind_of(e.path@) == FileKind::Bundle {
            m.insert(e.key(), BlobInfo { size: e.size, last_used: e.modified })
        } else {
            m
        }
    }
}

/// The bytes of the bundles of a listing.
pub open spec fn listed_bytes(listing: Seq<DirEntry>, n: int) -> int
    decreases n,
{
    if n <= 0 {
        0
    } else {
        listed_bytes(listing, n - 1) + if kind_of(listing[n - 1].path@) == FileKind::Bundle {
            listing[n - 1].size as int
        } else {
            0
        }
    }
}

proof fn lemma_listed(listing: Seq<DirEntry>, n: int)
    requires
        0 <= n <= listing.len(),
    ensures
        0 <= listed_bytes(listing, n) <= listing_bytes(listing, n) <= listing_bytes(
            listing,
            listing.len() as int,
        ),
        forall|p: Seq<Seq<char>>| #[trigger]
            listed_blobs(listing, n).contains_key(p) ==> exists|i: int|
                0 <= i < n && (#[trigger] listing[i]).key() == p,
    decreases n,
{
    lemma_listing_tail(listing, n);
    if n > 0 {
        lemma_listed(listing, n - 1);
        let m = listed_blobs(listing, n - 1);
        assert forall|p: Seq<Seq<char>>| #[trigger] listed_blobs(listing, n).contains_key(p) implies exists|
            i: int,
        | 0 <= i < n && (#[trigger] listing[i]).key() == p by {
            if m.contains_key(p) {
                let i = choose|i: int| 0 <= i < n - 1 && (#[trigger] listing[i]).key() == p;
                assert(listing[i].key() == p);
            } else {
                assert(listing[n - 1].key() == p);
            }
        }
    }
}

proof fn lemma_listing_tail(listing: Seq<DirEntry>, n: int)
    requires
        0 <= n <= listing.len(),
    ensures
        listing_bytes(listing, n) <= listing_bytes(listing, listing.len() as int),
    decreases listing.len() - n,
{
    if n < listing.len() {
        lemma_listing_tail(listing, n + 1);
    }
}

/// Builds an index that has not been built yet from a plain listing, without sweeping. An index
/// that was built stays as it is.
pub fn build_index(index: &mut CacheIndex, listing: &Vec<DirEntry>)
    requires
        old(index).wf(),
        !old(index).built ==> old(index).entries@.len() == 0,
        distinct_files(listing@),
        listing_bytes(listing@, listing@.len() as int) <= u64::MAX,
    ensures
        final(index).wf(),
        final(index).built,
        old(index).built ==> *final(index) == *old(index),
        !old(index).built ==> final(index).blobs() == listed_blobs(
            listing@,
            listing@.len() as int,
        ) && final(index).total_bytes == listed_bytes(listing@, listing@.len() as int),
{
    if index.built {
        return;
    }
    index.built = true;
    assert(index.blobs() =~= Map::<Seq<Seq<char>>, BlobInfo>::empty());
    let mut i: usize = 0;
    while i < listing.len()
        invariant
            i <= listing@.len(),
            distinct_files(listing@),
            listing_bytes(listing@, listing@.len() as int) <= u64::MAX,
            index.wf(),
            index.built,
            index.blobs() == listed_blobs(listing@, i as int),
            index.total_bytes == listed_bytes(listing@, i as int),
        decreases listing@.len() - i,
    {
        let e = &listing[i];
        proof {
            lemma_listed(listing@, i as int);
            lemma_listed(listing@, i + 1);
            if index.blobs().contains_key(e.key()) {
                let j = choose|j: int| 0 <= j < i && (#[trigger] listing@[j]).key() == e.key();
                assert(listing@[j].key() != listing@[i as int].key());
            }
        }
        if file_kind(e.path.as_str()) == FileKind::Bundle {
            index.put(e.path.as_str(), BlobInfo { size: e.size, last_used: e.modified });
        }
        i = i + 1;
    }
}

/// The bytes of the first `n` blobs that are pinned.
pub open spec fn pinned_size(entries: Seq<Blob>, pinned: Seq<bool>, n: int) -> int
    decreases n,
{
    if n <= 0 {
        0
    } else {
        pinned_size(entries, pinned, n - 1) + if pinned[n - 1] {
            entries[n - 1].info.size as int
        } else {
            0
        }
    }
}

proof fn lemma_pinned_size(entries: Seq<Blob>, pinned: Seq<bool>, n: int)
    requires
        0 <= n <= entries.len(),
    ensures
        0 <= pinned_size(entries, pinned, n) <= total_size(entries.take(n)) <= total_size(entries),
    decreases entries.len() + n,
{
    if n > 0 {
        lemma_pinned_size(entries.take(n), pinned, n - 1);
        assert(entries.take(n).take(n - 1) =~= entries.take(n).drop_last());
        assert(entries.take(n).drop_last() =~= entries.take(n - 1));
        lemma_pinned_same(entries, entries.take(n), pinned, n - 1);
        assert(entries.take(n).last() == entries[n - 1]);
    }
    lemma_take_size(entries, n);
}

proof fn lemma_pinned_same(a: Seq<Blob>, b: Seq<Blob>, pinned: Seq<bool>, n: int)
    requires
        forall|i: int| 0 <= i < n ==> a[i] == b[i],
    ensures
        pinned_size(a, pinned, n) == pinned_size(b, pinned, n),
    decreases n,
{
    if n > 0 {
        lemma_pinned_same(a, b, pinned, n - 1);
    }
}

proof fn lemma_take_size(entries: Seq<Blob>, n: int)
    requires
        0 <= n <= entries.len(),
    ensures
        total_size(entries.take(n)) <= total_size(entries),
    decreases entries.len() - n,
{
    if n < entries.len() {
        lemma_take_size(entries, n + 1);
        assert(entries.take(n + 1).drop_last() =~= entries.take(n));
    } else {
        assert(entries.take(n) =~= entries);
    }
}

/// Statistics of the store. `pinned[i]` says whether entry `i` of the index backs a live worker.
pub fn stats(index: &CacheIndex, pinned: &Vec<bool>, cap: Option<u64>) -> (r: BundleCacheStats)
    requires
        index.wf(),
        pinned@.len() == index.entries@.len(),
    ensures
        r.total_bytes == total_size(index.entries@),
        r.entry_count == index.entries@.len(),
        r.max_bytes == cap,
        r.pinned_bytes == pinned_size(index.entries@, pinned@, index.entries@.len() as int),
{
    let mut pinned_bytes: u64 = 0;
    let mut i: usize = 0;
    while i < index.entries.len()
        invariant
            i <= index.entries@.len(),
            index.wf(),
            pinned@.len() == index.entries@.len(),
            pinned_bytes == pinned_size(index.entries@, pinned@, i as int),
        decreases index.entries@.len() - i,
    {
        proof {
            lemma_pinned_size(index.entries@, pinned@, i + 1);
        }
        if pinned[i] {
            pinned_bytes = pinned_bytes + index.entries[i].info.size;
        }
        i = i + 1;
    }
    BundleCacheStats {
        total_bytes: index.total_bytes,
        entry_count: index.entries.len() as u64,
        max_bytes: cap,
        pinned_bytes,
    }
}

// ---------------------------------------------------------------------------
// The registry of open bundles
// ---------------------------------------------------------------------------

/// Identity of the file contents a shared bundle was parsed from.
#[derive(Debug, Clone, Copy, PartialEq, Eq, Structural)]
pub struct FileStamp {
    pub len: u64,
    pub mtime: Option<Moment>,
    pub dev: u64,
    pub ino: u64,
}

/// What can be seen of a registry cell from outside.
#[derive(Debug, Clone, Copy, PartialEq, Eq, Structural)]
pub enum CellView {
    /// Its lock is held: an open is in flight.
    Locked,
    /// It has never held a bundle.
    Empty,
    /// It holds a bundle that is, or is no longer, in use.
    Holds { stamp: FileStamp, alive: bool },
}

/// A registry cell is in use while somebody else holds it (`handles` counts the registry's own
/// handle too), while it is locked, or while its bundle is alive.
pub open spec fn cell_in_use(handles: nat, cell: CellView) -> bool {
    handles > 1 || match cell {
        CellView::Locked => true,
        CellView::Empty => false,
        CellView::Holds { stamp, alive } => alive,
    }
}

/// Whether the blob behind a registry cell backs, or is about to back, a live worker. A path that
/// has no cell is not pinned.
pub fn is_pinned(cell: Option<(usize, CellView)>) -> (r: bool)
    ensures
        r == match cell {
            Some((handles, c)) => cell_in_use(handles as nat, c),
            None => false,
        },
{
    match cell {
        Some((handles, c)) => handles > 1 || match c {
            CellView::Locked => true,
            CellView::Empty => false,
            CellView::Holds { stamp: _, alive } => alive,
        },
        None => false,
    }
}

/// Whether an idle registry cell is kept when the registry is tidied: somebody else holds it, or
/// its bundle is alive. A cell whose lock is held is always held by somebody else too.
pub open spec fn retained(handles: nat, cell: CellView) -> bool {
    handles > 1 || (cell matches CellView::Holds { stamp: _, alive } && alive)
}

/// Whether an idle registry cell is kept when the registry is tidied.
pub fn retain_cell(handles: usize, cell: CellView) -> (r: bool)
    ensures
        r == retained(handles as nat, cell),
{
    handles > 1 || match cell {
        CellView::Holds { stamp: _, alive } => alive,
        _ => false,
    }
}

/// Whether an open shares the bundle that a cell holds: it is alive, and the file has not changed
/// since it was parsed.
pub fn can_share(cell: CellView, stamp: FileStamp) -> (r: bool)
    ensures
        r == (cell == CellView::Holds { stamp, alive: true }),
{
    match cell {
        CellView::Holds { stamp: s, alive } => alive && s == stamp,
        _ => false,
    }
}

/// A cell of the registry: the handle of the bundle that was last parsed from the cell's file,
/// with the contents that it was parsed from. The handle does not keep the bundle alive.
#[derive(Debug)]
pub struct BundleCell<H> {
    pub cached: Option<(FileStamp, H)>,
}

/// What an open does with the cell of its file.
#[derive(Debug)]
pub enum OpenStep<H> {
    /// It hands out the bundle behind the handle.
    Share(H),
    /// It parses the file anew.
    Parse,
}

impl<H> BundleCell<H> {
    /// What can be seen of the cell while its lock is free and `alive` says whether the bundle of
    /// a handle is alive.
    pub open spec fn seen(self, alive: spec_fn(H) -> bool) -> CellView {
        match self.cached {
            Some((stamp, handle)) => CellView::Holds { stamp, alive: alive(handle) },
            None => CellView::Empty,
        }
    }

    /// A cell that has never held a bundle.
    pub fn new() -> (r: BundleCell<H>)
        ensures
            r.cached is None,
    {
        BundleCell { cached: None }
    }

    /// What an open of a file with the contents `stamp` does: it shares the bundle that the cell
    /// holds where the contents are the same and the bundle is `alive`.
    pub fn open(&self, stamp: FileStamp, alive: bool) -> (r: OpenStep<&H>)
        ensures
            match r {
                OpenStep::Share(h) => alive && self.cached == Some((stamp, *h)),
                OpenStep::Parse => self.cached is None || !alive || (self.cached->0).0 != stamp,
            },
    {
        match &self.cached {
            Some((s, h)) => {
                if can_share(CellView::Holds { stamp: *s, alive }, stamp) {
                    OpenStep::Share(h)
                } else {
                    OpenStep::Parse
                }
            },
            None => OpenStep::Parse,
        }
    }

    /// Keeps the bundle that was parsed from the contents `stamp`, in place of an earlier one.
    pub fn parsed(&mut self, stamp: FileStamp, handle: H)
        ensures
            final(self).cached == Some((stamp, handle)),
    {
        self.cached = Some((stamp, handle));
    }
}

/// One open of a bundle, as it finds the world: the file and its contents, the handle of the
/// bundle that it parses if it has to, or `None` where the file does not parse, the cells that
/// others hold, and the bundles that are alive.
#[verifier::reject_recursive_types(H)]
pub ghost struct BundleOpen<H> {
    pub path: Seq<char>,
    pub stamp: FileStamp,
    pub parses_to: Option<H>,
    pub held: Set<Seq<char>>,
    pub alive: spec_fn(H) -> bool,
}

/// The cells of the registry.
pub ghost struct OpenBundles<H> {
    pub cells: Map<Seq<char>, BundleCell<H>>,
}

impl<H> OpenBundles<H> {
    /// The registry with the idle cells gone, and with a cell for the file that is opened.
    pub open spec fn tidied(self, o: BundleOpen<H>) -> OpenBundles<H> {
        let kept = self.cells.restrict(
            Set::new(
                |p: Seq<char>|
                    retained(
                        if o.held.contains(p) {
                            2
                        } else {
                            1
                        },
                        self.cells[p].seen(o.alive),
                    ),
            ),
        );
        OpenBundles {
            cells: if kept.contains_key(o.path) {
                kept
            } else {
                kept.insert(o.path, BundleCell { cached: None })
            },
        }
    }

    /// The handle that an open gives out, where it gives out one.
    pub open spec fn given(self, o: BundleOpen<H>) -> Option<H> {
        let cell = self.tidied(o).cells[o.path];
        if cell.seen(o.alive) == (CellView::Holds { stamp: o.stamp, alive: true }) {
            Some((cell.cached->0).1)
        } else {
            o.parses_to
        }
    }

    /// The registry once a bundle has been opened.
    pub open spec fn after(self, o: BundleOpen<H>) -> OpenBundles<H> {
        let tidied = self.tidied(o);
        match self.given(o) {
            Some(h) => OpenBundles {
                cells: tidied.cells.insert(o.path, BundleCell { cached: Some((o.stamp, h)) }),
            },
            None => tidied,
        }
    }

    /// The registry once bundles have been opened one after the other.
    pub open spec fn after_all(self, opens: Seq<BundleOpen<H>>) -> OpenBundles<H>
        decreases opens.len(),
    {
        if opens.len() == 0 {
            self
        } else {
            self.after_all(opens.drop_last()).after(opens.last())
        }
    }
}

/// Opens of one unchanged file share one parsed bundle: what an open gave out, every later open of
/// the file gives out again, whatever else is opened in between, as long as the file keeps its
/// contents and the bundle is alive.
pub proof fn law_opens_share_one_bundle<H>(
    start: OpenBundles<H>,
    opens: Seq<BundleOpen<H>>,
    first: int,
    last: int,
)
    requires
        0 <= first < last < opens.len(),
        opens[last].path == opens[first].path,
        start.after_all(opens.take(first)).given(opens[first]) is Some,
        forall|k: int|
            #![trigger opens[k]]
            first < k <= last ==> {
                &&& (opens[k].alive)(start.after_all(opens.take(first)).given(opens[first])->0)
                &&& opens[k].path == opens[first].path ==> opens[k].stamp == opens[first].stamp
            },
    ensures
        start.after_all(opens.take(last)).given(opens[last]) == start.after_all(
            opens.take(first),
        ).given(opens[first]),
{
    lemma_bundle_stays(start, opens, first, last);
}

/// After an open the cell of its file holds the bundle that it gave out, until the file changes or
/// the bundle dies.
proof fn lemma_bundle_stays<H>(
    start: OpenBundles<H>,
    opens: Seq<BundleOpen<H>>,
    first: int,
    n: int,
)
    requires
        0 <= first < n <= opens.len(),
        start.after_all(opens.take(first)).given(opens[first]) is Some,
        forall|k: int|
            #![trigger opens[k]]
            first < k < n ==> {
                &&& (opens[k].alive)(start.after_all(opens.take(first)).given(opens[first])->0)
                &&& opens[k].path == opens[first].path ==> opens[k].stamp == opens[first].stamp
            },
    ensures
        ({
            let cells = start.after_all(opens.take(n)).cells;
            let path = opens[first].path;
            let h = start.after_all(opens.take(first)).given(opens[first])->0;
            cells.contains_key(path) && cells[path].cached == Some((opens[first].stamp, h))
        }),
    decreases n,
{
    assert(opens.take(n).drop_last() =~= opens.take(n - 1));
    assert(opens.take(n).last() == opens[n - 1]);
    if n - 1 > first {
        lemma_bundle_stays(start, opens, first, n - 1);
        assert((opens[n - 1].alive)(start.after_all(opens.take(first)).given(opens[first])->0));
    }
}


/// An index built from the directory holds every bundle listed, with its size and the time it was
/// written, and nothing else; its total is that of those bundles.
pub proof fn law_every_bundle_is_listed(
    listing: Seq<DirEntry>,
    n: nat,
    i: int,
    key: Seq<Seq<char>>,
)
    requires
        distinct_files(listing),
        0 <= i < n <= listing.len(),
    ensures
        ({
            let e = listing[i];
            let m = listed_blobs(listing, n as int);
            &&& m.contains_key(components(e.path@)) <==> extension(e.path@) == Some("eszip"@)
            &&& m.contains_key(components(e.path@)) ==> m[components(e.path@)].size == e.size
                && m[components(e.path@)].last_used == e.modified
            &&& m.contains_key(key) ==> exists|j: int|
                0 <= j < n && components((#[trigger] listing[j]).path@) == key
        }),
    decreases n,
{
    let e = listing[i];
    assert(e.key() == components(e.path@));
    lemma_listed(listing, n as int);
    lemma_listed(listing, n - 1);
    let m = listed_blobs(listing, n as int);
    if m.contains_key(key) {
        let j = choose|j: int| 0 <= j < n && (#[trigger] listing[j]).key() == key;
        assert(components(listing[j].path@) == key);
    }
    if i == n - 1 {
        assert(!listed_blobs(listing, n - 1).contains_key(e.key()));
    } else {
        law_every_bundle_is_listed(listing, (n - 1) as nat, i, key);
        assert(listing[n - 1].key() != listing[i].key());
    }
}

/// The total of a listing is the sum of the sizes of its bundles.
pub proof fn law_listing_adds_up(listing: Seq<DirEntry>, n: nat)
    requires
        n <= listing.len(),
    ensures
        listed_bytes(listing, n as int) == bytes_at(
            listing,
            Seq::new(n, |i: int| i).filter(
                |i: int| extension(listing[i].path@) == Some("eszip"@),
            ),
        ),
    decreases n,
{
    let places = Seq::new(n, |i: int| i);
    let kept = |i: int| extension(listing[i].path@) == Some("eszip"@);
    if n == 0 {
        reveal(Seq::filter);
        assert(places.filter(kept) =~= Seq::<int>::empty());
    } else {
        let m = (n - 1) as nat;
        let shorter = Seq::new(m, |i: int| i);
        law_listing_adds_up(listing, m);
        assert(places =~= shorter.push(m as int));
        shorter.lemma_filter_push(m as int, kept);
        lemma_bytes_at_push(listing, shorter.filter(kept), m as int);
    }
}

/// The pinned bytes are the sizes of the pinned blobs, added up: pinning one more adds its size,
/// with nothing pinned there are none, and with everything pinned they are the total.
pub proof fn law_pinned_bytes_add_up(entries: Seq<Blob>, pinned: Seq<bool>, n: int, k: int)
    requires
        0 <= k < n <= entries.len(),
        n <= pinned.len(),
        !pinned[k],
    ensures
        pinned_size(entries, pinned.update(k, true), n) == pinned_size(entries, pinned, n)
            + entries[k].info.size,
        pinned_size(entries, Seq::new(entries.len(), |i: int| false), n) == 0,
        pinned_size(entries, Seq::new(entries.len(), |i: int| true), n) == total_size(
            entries.take(n),
        ),
{
    lemma_pinned_extremes(entries, n);
    lemma_pinned_more(entries, pinned, n, k);
}

proof fn lemma_pinned_extremes(entries: Seq<Blob>, n: int)
    requires
        0 <= n <= entries.len(),
    ensures
        pinned_size(entries, Seq::new(entries.len(), |i: int| false), n) == 0,
        pinned_size(entries, Seq::new(entries.len(), |i: int| true), n) == total_size(
            entries.take(n),
        ),
    decreases n,
{
    if n > 0 {
        lemma_pinned_extremes(entries, n - 1);
        assert(entries.take(n).drop_last() =~= entries.take(n - 1));
    }
}

proof fn lemma_pinned_more(entries: Seq<Blob>, pinned: Seq<bool>, n: int, k: int)
    requires
        0 <= n <= pinned.len(),
        n <= entries.len(),
        0 <= k < pinned.len(),
        !pinned[k],
    ensures
        pinned_size(entries, pinned.update(k, true), n) == pinned_size(entries, pinned, n)
            + if k < n {
            entries[k].info.size as int
        } else {
            0
        },
    decreases n,
{
    if n > 0 {
        lemma_pinned_more(entries, pinned, n - 1, k);
    }
}

/// A bundle is pinned while anyone holds on to its cell, while its cell is being worked on and
/// while what was opened from it is alive; its cell is kept for the first and the last of these
/// alone.
pub proof fn law_cells_in_use(handles: nat, stamp: FileStamp)
    ensures
        forall|c: CellView| handles > 1 ==> #[trigger] cell_in_use(handles, c) && retained(
            handles,
            c,
        ),
        handles <= 1 ==> {
            &&& cell_in_use(handles, CellView::Locked)
            &&& !retained(handles, CellView::Locked)
            &&& !cell_in_use(handles, CellView::Empty)
            &&& !retained(handles, CellView::Empty)
            &&& cell_in_use(handles, CellView::Holds { stamp, alive: true })
            &&& retained(handles, CellView::Holds { stamp, alive: true })
            &&& !cell_in_use(handles, CellView::Holds { stamp, alive: false })
            &&& !retained(handles, CellView::Holds { stamp, alive: false })
        },
{
}

} // verus!
