use std::sync::{Arc, Weak};

use flow_edge::bundle_cache::address::{
    blob_path, blob_path_of_bytes, needs_reconcile, tmp_path, SpillFile,
};
use flow_edge::bundle_cache::index::{
    index_admit, index_remove, BlobInfo, CacheIndex, Moment,
};
use flow_edge::bundle_cache::manifest::{
    blob_has_other_references, entry_answers, lookup_after_touch, lookup_key, settle_evicted_blob,
    url_cache_evict, url_cache_lookup, url_meta_path, EvictStep, LookupEnd, LookupStep,
    ManifestRead, Reference, Unlink, UrlCacheEntry,
};
use flow_edge::bundle_cache::store::{
    build_index, bundle_ttl, cache_dir, can_share, emit, event_sink, is_pinned, max_cache_size,
    retain_cell, set_event_sink, stats, BundleCell, CellView, FileStamp, OpenStep,
};
use flow_edge::bundle_cache::sweep::{
    entry_fate, file_kind, listing_fits, manifest_is_dead, sweep_and_make_room, CacheEvent,
    CacheEventAction, DirEntry, Eviction, Fate, FileKind, ManifestState, Outcome,
};
use flow_edge::embed::Slot;
use std::cell::RefCell;

const DAY: i64 = 24 * 3600;

fn at(secs: i64) -> Moment {
    Moment { secs, nanos: 0 }
}

fn file(path: &str, size: u64, secs: i64) -> DirEntry {
    DirEntry {
        path: path.to_string(),
        size,
        modified: at(secs),
    }
}

fn paths(index: &CacheIndex) -> Vec<String> {
    index.entries.iter().map(|b| b.path.clone()).collect()
}

/// Runs an eviction in which every attempt ends as `outcome` says.
fn drive(mut e: Eviction, outcome: impl Fn(&str) -> Outcome) -> (CacheIndex, Vec<CacheEvent>) {
    while let Some(path) = e.next() {
        e.report(outcome(&path));
    }
    e.finish()
}

#[test]
fn url_manifest_roundtrip_and_invalidation() {
    let url = "https://example.com/app.eszip";
    let entry = UrlCacheEntry {
        url: Some(url.into()),
        cache_key: None,
        version: None,
        etag: Some("\"abc\"".into()),
        last_modified: None,
        bundle_path: "/cache/cafebabe.eszip".into(),
    };

    // Miss before anything is recorded.
    assert!(matches!(
        url_cache_lookup(url, None, None, ManifestRead::Missing),
        LookupStep::Miss
    ));

    // Record, then hit, with the validators intact.
    let hit = match url_cache_lookup(url, None, None, ManifestRead::Entry(entry.clone())) {
        LookupStep::TouchBlob(e) => match lookup_after_touch(e, true) {
            LookupEnd::Hit(e) => e,
            LookupEnd::Vanished => panic!("the blob is there"),
        },
        _ => panic!("a recorded download is found"),
    };
    assert_eq!(hit.bundle_path, "/cache/cafebabe.eszip");
    assert_eq!(hit.etag.as_deref(), Some("\"abc\""));

    // A versioned entry for the same url is a distinct key.
    assert_ne!(
        url_meta_path("/cache", url, false, None),
        url_meta_path("/cache", url, false, Some("1.0.0"))
    );
    assert!(!entry_answers(&entry, url, None, Some("1.0.0")));
    let versioned = UrlCacheEntry {
        version: Some("1.0.0".into()),
        ..entry.clone()
    };
    assert!(entry_answers(&versioned, url, None, Some("1.0.0")));
    assert!(!entry_answers(&versioned, url, None, None));

    // Entries under a cache key live in their own namespace.
    assert_ne!(
        url_meta_path("/cache", url, false, None),
        url_meta_path("/cache", url, true, None)
    );
    assert!(!entry_answers(&entry, url, Some(url), None));
    let keyed = UrlCacheEntry {
        cache_key: Some(url.into()),
        ..entry.clone()
    };
    assert!(entry_answers(
        &keyed,
        "https://other.example/presigned?sig=1",
        Some(url),
        None
    ));
    assert!(!entry_answers(&keyed, url, None, None));
    assert_eq!(keyed.key().unwrap(), (url, true));
    assert_eq!(entry.key().unwrap(), (url, false));
    assert_eq!(lookup_key(url, None), (url, false));
    assert_eq!(lookup_key(url, Some("k")), ("k", true));

    // A swept-away bundle turns the entry into a miss and drops the manifest.
    assert!(matches!(lookup_after_touch(entry.clone(), false), LookupEnd::Vanished));
    // A corrupt manifest reads as a miss and is cleaned up.
    assert!(matches!(
        url_cache_lookup(url, None, Some("2.0.0"), ManifestRead::Corrupt),
        LookupStep::DropManifest
    ));
    assert!(matches!(
        url_cache_lookup(url, None, None, ManifestRead::Failed),
        LookupStep::Fail
    ));

    // Two manifests share the blob: evicting one keeps it, evicting the last drops it.
    let blob = "/cache/a.eszip";
    let files = vec![
        Reference {
            path: "/cache/k1.url.json".into(),
            blob: Some(blob.into()),
        },
        Reference {
            path: "/cache/k2.url.json".into(),
            blob: Some(blob.into()),
        },
    ];
    assert!(blob_has_other_references(blob, "/cache/k1.url.json", &files));
    assert!(!blob_has_other_references(
        blob,
        "/cache/k2.url.json",
        &files[1..].iter().map(|r| Reference {
            path: r.path.clone(),
            blob: r.blob.clone()
        }).collect()
    ));

    // Oldest-by-mtime unpinned blobs go first, until the cap fits.
    let now = at(100 * DAY);
    let listing = vec![
        file("/cache/cccccccccccccccc.eszip", 400, 100 * DAY - 1000),
        file("/cache/aaaaaaaaaaaaaaaa.eszip", 400, 100 * DAY - 3000),
        file("/cache/bbbbbbbbbbbbbbbb.eszip", 400, 100 * DAY - 2000),
    ];
    let none = vec![false, false, false];
    let ttl = bundle_ttl(None);
    let e = sweep_and_make_room(&listing, &none, &now, ttl, 0, Some(900), &None);
    let (index, events) = drive(e, |_| Outcome::Removed);
    assert_eq!(
        paths(&index),
        ["/cache/cccccccccccccccc.eszip", "/cache/bbbbbbbbbbbbbbbb.eszip"]
    );
    assert_eq!(events.len(), 1);
    assert_eq!(events[0].path.as_deref(), Some("/cache/aaaaaaaaaaaaaaaa.eszip"));
    assert_eq!(events[0].total_bytes, 800);
    let e = Eviction::begin(index, 400, Some(900), &None);
    let (index, _) = drive(e, |_| Outcome::Removed);
    assert_eq!(paths(&index), ["/cache/cccccccccccccccc.eszip"]);

    // The statistics reflect the index that the sweeps just rebuilt.
    let s = stats(&index, &vec![false], max_cache_size(None));
    assert_eq!(s.entry_count, 1);
    assert_eq!(s.total_bytes, 400);
    assert_eq!(s.max_bytes, None);
    assert_eq!(s.pinned_bytes, 0);
}

#[test]
fn an_entry_without_any_key_is_refused() {
    let e = UrlCacheEntry {
        url: None,
        cache_key: None,
        version: None,
        etag: None,
        last_modified: None,
        bundle_path: "/x".into(),
    };
    assert_eq!(
        e.key().unwrap_err().message(),
        "a url manifest entry needs a cacheKey or a url"
    );
}

#[test]
fn explicit_eviction_decides_by_what_the_manifest_holds() {
    let mine = || UrlCacheEntry {
        url: None,
        cache_key: Some("k1".into()),
        version: Some("1".into()),
        etag: None,
        last_modified: None,
        bundle_path: "/cache/a.eszip".into(),
    };
    assert!(matches!(
        url_cache_evict("k1", Some("1"), ManifestRead::Entry(mine())),
        EvictStep::Remove(_)
    ));
    assert!(matches!(
        url_cache_evict("k1", None, ManifestRead::Entry(mine())),
        EvictStep::NotRecorded
    ));
    assert!(matches!(
        url_cache_evict("k2", Some("1"), ManifestRead::Entry(mine())),
        EvictStep::NotRecorded
    ));
    assert!(matches!(
        url_cache_evict("k1", Some("1"), ManifestRead::Missing),
        EvictStep::NotRecorded
    ));
    assert!(matches!(
        url_cache_evict("k1", Some("1"), ManifestRead::Corrupt),
        EvictStep::DropManifest
    ));
    assert!(matches!(
        url_cache_evict("k1", Some("1"), ManifestRead::Failed),
        EvictStep::Fail
    ));
}

#[test]
fn an_evicted_blob_leaves_the_account() {
    let mut index = CacheIndex::new();
    index.built = true;
    index_admit(&mut index, "/cache/a.eszip", 10, at(1));
    index_admit(&mut index, "/cache/b.eszip", 5, at(2));
    assert!(settle_evicted_blob(&mut index, "k", "/cache/a.eszip", 10, Unlink::Refused, None).is_none());
    assert_eq!(index.total_bytes, 15);
    let e = settle_evicted_blob(&mut index, "k", "/cache/a.eszip", 10, Unlink::Done, Some(100)).unwrap();
    assert_eq!(e.action, CacheEventAction::Evicted);
    assert_eq!(e.cache_key.as_deref(), Some("k"));
    assert_eq!((e.bytes, e.total_bytes, e.max_bytes), (10, 5, Some(100)));
    assert!(settle_evicted_blob(&mut index, "k", "/cache/b.eszip", 5, Unlink::NotFound, None).is_none());
    assert_eq!(index.total_bytes, 0);
}

#[test]
fn the_index_keeps_its_total() {
    let mut index = CacheIndex::new();
    index_admit(&mut index, "/a", 10, at(1));
    assert_eq!(index.total_bytes, 0);
    index.built = true;
    index_admit(&mut index, "/a", 10, at(1));
    index_admit(&mut index, "/b", 7, at(1));
    index_admit(&mut index, "/a", 4, at(2));
    assert_eq!(index.total_bytes, 11);
    index.touch("/b", at(9));
    assert_eq!(index.entries[index.find("/b").unwrap()].info, BlobInfo { size: 7, last_used: at(9) });
    index_remove(&mut index, "/nothing");
    index_remove(&mut index, "/a");
    assert_eq!(index.total_bytes, 7);
    assert!(index.find("/a").is_none());
}

#[test]
fn paths_are_told_apart_by_their_components() {
    let mut index = CacheIndex::new();
    index.built = true;
    index_admit(&mut index, "/c/a.eszip", 10, at(1));
    index_admit(&mut index, "/c//./a.eszip", 4, at(2));
    assert_eq!(paths(&index), ["/c/a.eszip"]);
    assert_eq!(index.total_bytes, 4);
    index.touch("/c/a.eszip/", at(9));
    assert_eq!(index.entries[0].info.last_used, at(9));
    index_remove(&mut index, "//c/a.eszip");
    assert_eq!(index.total_bytes, 0);

    let now = at(10 * DAY);
    let protect = Some("/c//a.eszip".to_string());
    assert_eq!(entry_fate(&file("/c/a.eszip", 1, 0), &now, 1, &protect), Fate::Index);
    assert_eq!(entry_fate(&file("/c/b.eszip", 1, 0), &now, 1, &protect), Fate::Expire);

    let reference = |path: &str, blob: &str| {
        vec![Reference {
            path: path.to_string(),
            blob: Some(blob.to_string()),
        }]
    };
    let others = |files| blob_has_other_references("/c/a.eszip", "/c/x.url.json", &files);
    assert!(others(reference("/c/y.url.json", "/c//a.eszip")));
    assert!(!others(reference("/c/./x.url.json", "/c/a.eszip")));
    assert!(!others(reference("/c/y.url.json", "/c/../a.eszip")));
}

#[test]
fn removing_a_blob_undoes_its_admission() {
    let mut index = CacheIndex::new();
    index.built = true;
    index_admit(&mut index, "/c/a.eszip", 10, at(1));
    index_admit(&mut index, "/c/b.eszip", 5, at(2));
    index_remove(&mut index, "/c/b.eszip");
    assert_eq!(paths(&index), ["/c/a.eszip"]);
    assert_eq!(index.total_bytes, 10);
    index_remove(&mut index, "/c/b.eszip");
    assert_eq!(index.total_bytes, 10);
}

#[test]
fn files_are_told_apart_by_extension() {
    assert_eq!(file_kind("/c/0.eszip"), FileKind::Bundle);
    assert_eq!(file_kind("/c/0.url.json"), FileKind::Manifest);
    assert_eq!(file_kind("/c/.spill.1.2.tmp"), FileKind::Temporary);
    assert_eq!(file_kind("/c/.tmp"), FileKind::Other);
    assert_eq!(file_kind("/c/readme"), FileKind::Other);
}

#[test]
fn age_decides_the_fate_of_files() {
    let now = at(10 * DAY);
    let ttl = 7 * DAY as u64;
    assert_eq!(entry_fate(&file("/c/a.eszip", 1, 3 * DAY), &now, ttl, &None), Fate::Index);
    assert_eq!(entry_fate(&file("/c/a.eszip", 1, 3 * DAY - 1), &now, ttl, &None), Fate::Expire);
    assert_eq!(
        entry_fate(&file("/c/a.eszip", 1, 0), &now, ttl, &Some("/c/a.eszip".to_string())),
        Fate::Index
    );
    assert_eq!(entry_fate(&file("/c/a.json", 1, 0), &now, ttl, &None), Fate::DropManifest);
    assert_eq!(entry_fate(&file("/c/a.json", 1, 10 * DAY), &now, ttl, &None), Fate::CheckManifest);
    assert_eq!(entry_fate(&file("/c/a.tmp", 1, 10 * DAY - 3601), &now, ttl, &None), Fate::Discard);
    assert_eq!(entry_fate(&file("/c/a.tmp", 1, 10 * DAY - 3600), &now, ttl, &None), Fate::Leave);
    // A file from the future has no age.
    assert_eq!(entry_fate(&file("/c/a.eszip", 1, 99 * DAY), &now, ttl, &None), Fate::Index);

    assert!(manifest_is_dead(Fate::DropManifest, ManifestState::Live));
    assert!(manifest_is_dead(Fate::CheckManifest, ManifestState::Unreadable));
    assert!(manifest_is_dead(Fate::CheckManifest, ManifestState::Orphaned));
    assert!(!manifest_is_dead(Fate::CheckManifest, ManifestState::Live));
}

#[test]
fn a_sweep_reports_what_it_expired() {
    let now = at(100 * DAY);
    let listing = vec![
        file("/c/old.eszip", 30, 0),
        file("/c/stuck.eszip", 20, 0),
        file("/c/new.eszip", 10, 100 * DAY),
        file("/c/x.url.json", 5, 0),
    ];
    let unlinked = vec![true, false, false, true];
    let e = sweep_and_make_room(&listing, &unlinked, &now, 7 * DAY as u64, 0, None, &None);
    let (index, events) = drive(e, |_| Outcome::Removed);
    assert_eq!(paths(&index), ["/c/stuck.eszip", "/c/new.eszip"]);
    assert_eq!(index.total_bytes, 30);
    assert_eq!(events.len(), 1);
    assert_eq!(events[0].action, CacheEventAction::Sweep);
    assert_eq!((events[0].bytes, events[0].total_bytes), (30, 30));
}

#[test]
fn pinned_and_protected_blobs_stay_and_the_cap_is_soft() {
    let now = at(1000);
    let listing = vec![
        file("/c/a.eszip", 400, 100),
        file("/c/b.eszip", 400, 200),
        file("/c/c.eszip", 400, 300),
    ];
    let none = vec![false; 3];
    let protect = Some("/c/c.eszip".to_string());
    let e = sweep_and_make_room(&listing, &none, &now, 10_000, 0, Some(100), &protect);
    let (index, events) = drive(e, |p| {
        if p == "/c/a.eszip" {
            Outcome::Pinned
        } else {
            Outcome::Removed
        }
    });
    assert_eq!(paths(&index), ["/c/a.eszip", "/c/c.eszip"]);
    assert_eq!(events.len(), 2);
    assert_eq!(events[0].action, CacheEventAction::Evicted);
    assert_eq!(events[0].path.as_deref(), Some("/c/b.eszip"));
    assert_eq!(events[1].action, CacheEventAction::OverCap);
    assert_eq!((events[1].bytes, events[1].total_bytes, events[1].max_bytes), (0, 800, Some(100)));
}

#[test]
fn eviction_goes_by_age_and_stops_early() {
    let listing = vec![
        file("/c/new.eszip", 10, 300),
        file("/c/old.eszip", 10, 100),
        file("/c/mid.eszip", 10, 200),
    ];
    let e = sweep_and_make_room(&listing, &vec![false; 3], &at(301), 1000, 5, Some(20), &None);
    let (index, events) = drive(e, |_| Outcome::Removed);
    assert_eq!(paths(&index), ["/c/new.eszip"]);
    let gone: Vec<_> = events.iter().map(|e| e.path.clone().unwrap()).collect();
    assert_eq!(gone, ["/c/old.eszip", "/c/mid.eszip"]);
    let e = sweep_and_make_room(&listing, &vec![false; 3], &at(301), 1000, 5, Some(20), &None);
    let (_, events) = drive(e, |_| Outcome::Refused);
    assert_eq!(events.len(), 1);
    assert_eq!(events[0].action, CacheEventAction::OverCap);
}

#[test]
fn listings_too_large_to_add_up_are_told() {
    assert!(listing_fits(&vec![file("/a", u64::MAX, 0)]));
    assert!(!listing_fits(&vec![file("/a", u64::MAX, 0), file("/b", 1, 0)]));
}

#[test]
fn identical_bytes_share_one_address() {
    let hash = xxhash_rust::xxh3::xxh3_64(b"bundle bytes one");
    let expected = format!("/cache/{hash:016x}.eszip");
    assert_eq!(blob_path_of_bytes("/cache", b"bundle bytes one"), expected);
    assert_ne!(blob_path_of_bytes("/cache", b"bundle bytes two"), expected);
    assert_eq!(blob_path("/cache/", 0x1f), "/cache/000000000000001f.eszip");

    let mut spill = SpillFile::create("/cache/.spill.1.0.tmp".to_string());
    assert!(spill.write(b"bundle "));
    assert!(spill.write(b"bytes"));
    assert!(spill.write(b" one"));
    assert_eq!(spill.finish("/cache").unwrap(), expected);
    assert!(!spill.write(b"more"));
    assert!(spill.finish("/cache").is_none());
}

#[test]
fn manifests_are_named_by_a_hash_of_key_and_version() {
    let mut h = xxhash_rust::xxh3::Xxh3::default();
    h.update(b"\0k\0");
    h.update(b"key");
    h.update(b"\0");
    h.update(b"7");
    assert_eq!(
        url_meta_path("/cache", "key", true, Some("7")),
        format!("/cache/{:016x}.url.json", h.digest())
    );
    // No version and an empty one share a file; the echo in the entry tells them apart.
    assert_eq!(
        url_meta_path("/cache", "u", false, None),
        url_meta_path("/cache", "u", false, Some(""))
    );
}

#[test]
fn temporary_names_are_hidden_and_numbered() {
    assert_eq!(tmp_path("/cache", "spill", 123, 7), "/cache/.spill.123.7.tmp");
}

#[test]
fn settings_fall_back_to_their_defaults() {
    assert_eq!(cache_dir(Some("/x"), "/tmp"), "/x");
    assert_eq!(cache_dir(None, "/tmp"), "/tmp/flow-bundles");
    assert_eq!(bundle_ttl(Some("60")), 60);
    assert_eq!(bundle_ttl(Some("soon")), 7 * 24 * 60 * 60);
    assert_eq!(bundle_ttl(None), 7 * 24 * 60 * 60);
    assert_eq!(max_cache_size(Some("900")), Some(900));
    assert_eq!(max_cache_size(Some("900MB")), None);
    assert_eq!(max_cache_size(None), None);
    assert!(needs_reconcile(901, Some(900)));
    assert!(!needs_reconcile(900, Some(900)));
    assert!(!needs_reconcile(u64::MAX, None));
}

#[test]
fn the_first_observer_wins() {
    let seen = RefCell::new(Vec::new());
    let mut slot = Slot::new();
    let event = |bytes| CacheEvent {
        action: CacheEventAction::Sweep,
        cache_key: None,
        path: None,
        bytes,
        total_bytes: 0,
        max_bytes: None,
    };
    let sink: Box<dyn Fn(CacheEvent) + '_> = Box::new(|e| seen.borrow_mut().push(e.bytes));
    let late: Box<dyn Fn(CacheEvent) + '_> = Box::new(|_| panic!("the first observer stays"));
    emit(&slot, event(1));
    assert!(event_sink(&slot).is_none());
    set_event_sink(&mut slot, sink);
    set_event_sink(&mut slot, late);
    emit(&slot, event(2));
    assert!(event_sink(&slot).is_some());
    assert_eq!(*seen.borrow(), [2]);
}

#[test]
fn statistics_count_pinned_bytes() {
    let mut index = CacheIndex::new();
    let listing = vec![
        file("/c/a.eszip", 10, 1),
        file("/c/a.url.json", 99, 1),
        file("/c/b.eszip", 32, 1),
    ];
    build_index(&mut index, &listing);
    let s = stats(&index, &vec![false, true], Some(100));
    assert_eq!(
        (s.total_bytes, s.entry_count, s.max_bytes, s.pinned_bytes),
        (42, 2, Some(100), 32)
    );
    build_index(&mut index, &vec![]);
    assert_eq!(index.total_bytes, 42);
}

#[test]
fn open_bundles_are_shared_while_unchanged_and_alive() {
    let stamp = FileStamp {
        len: 5,
        mtime: Some(at(1)),
        dev: 1,
        ino: 2,
    };
    let other = FileStamp { len: 6, ..stamp };
    let alive = CellView::Holds { stamp, alive: true };
    let dead = CellView::Holds { stamp, alive: false };
    assert!(can_share(alive, stamp));
    assert!(!can_share(alive, other));
    assert!(!can_share(dead, stamp));
    assert!(!can_share(CellView::Empty, stamp));
    assert!(!is_pinned(None));
    assert!(is_pinned(Some((2, CellView::Empty))));
    assert!(is_pinned(Some((1, CellView::Locked))));
    assert!(is_pinned(Some((1, alive))));
    assert!(!is_pinned(Some((1, dead))));
    assert!(retain_cell(1, alive));
    assert!(retain_cell(2, CellView::Locked));
    assert!(!retain_cell(1, CellView::Locked));
    assert!(!retain_cell(1, dead));
}

/// Two opens of one file, as the program makes them.
fn open(cell: &mut BundleCell<Weak<u32>>, stamp: FileStamp, parse: u32) -> Arc<u32> {
    let alive = cell.cached.as_ref().and_then(|(_, weak)| weak.upgrade());
    if let OpenStep::Share(weak) = cell.open(stamp, alive.is_some()) {
        return weak.upgrade().unwrap();
    }
    let bundle = Arc::new(parse);
    cell.parsed(stamp, Arc::downgrade(&bundle));
    bundle
}

#[test]
fn opens_of_an_unchanged_file_share_one_bundle() {
    let stamp = FileStamp {
        len: 5,
        mtime: Some(at(1)),
        dev: 1,
        ino: 2,
    };
    let mut cell = BundleCell::new();
    let first = open(&mut cell, stamp, 1);
    let second = open(&mut cell, stamp, 2);
    assert!(Arc::ptr_eq(&first, &second));
    let changed = open(&mut cell, FileStamp { len: 6, ..stamp }, 3);
    assert_eq!(*changed, 3);
    assert!(!Arc::ptr_eq(&first, &changed));
    drop(changed);
    assert_eq!(*open(&mut cell, FileStamp { len: 6, ..stamp }, 4), 4);
}
