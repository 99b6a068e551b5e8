use flow_edge::bundle_cache::admission::{
    ingest_path, record_landed, store_bytes, Admission, AdmitAction, AdmitEvent, Origin,
};
use flow_edge::bundle_cache::index::{CacheIndex, Moment};
use flow_edge::bundle_cache::manifest::{url_cache_record, url_meta_path, UrlCacheEntry};
use flow_edge::deno_options::CacheSetting;
use flow_edge::flow_eszip::{bundle_eszip, spill_size_hint, BundleFailure, BundleInput};

fn end(ok: bool, record: bool, drop_source: bool, drop_temporary: bool) -> AdmitAction {
    AdmitAction::End {
        ok,
        record,
        drop_source,
        drop_temporary,
    }
}

#[test]
fn stored_bytes_go_to_their_address() {
    // The hash of no bytes at all.
    let (dest, mut a, first) = store_bytes("/c", b"");
    assert_eq!(dest, "/c/2d06800538d394c2.eszip");
    assert_eq!(first, AdmitAction::Touch);
    assert_eq!(a.step(AdmitEvent::Touched(true)), end(true, false, false, false));
    let (again, mut a, _) = store_bytes("/c", b"abc");
    assert_ne!(again, dest);
    assert_eq!(a.step(AdmitEvent::Touched(false)), AdmitAction::MakeRoom { incoming: 3 });
    assert_eq!(a.step(AdmitEvent::RoomMade), AdmitAction::WriteAndRename);
    let mut failing = a;
    assert_eq!(failing.step(AdmitEvent::Published(false)), end(false, false, false, true));
    assert_eq!(a.step(AdmitEvent::Published(true)), end(true, true, false, false));
}

#[test]
fn moved_files_are_consumed() {
    let (dest, mut a, _) = ingest_path("/c", 0x2d06800538d394c2, 9);
    assert_eq!(dest, "/c/2d06800538d394c2.eszip");
    let mut known = a;
    assert_eq!(known.step(AdmitEvent::Touched(true)), end(true, false, true, false));
    assert_eq!(a.step(AdmitEvent::Touched(false)), AdmitAction::MakeRoom { incoming: 9 });
    assert_eq!(a.step(AdmitEvent::RoomMade), AdmitAction::RenameSource);
    let mut across = a;
    assert_eq!(a.step(AdmitEvent::Published(true)), end(true, true, false, false));
    assert_eq!(across.step(AdmitEvent::Published(false)), AdmitAction::CopyAndRename);
    let mut failing = across;
    assert_eq!(across.step(AdmitEvent::Published(true)), end(true, true, true, false));
    assert_eq!(failing.step(AdmitEvent::Published(false)), end(false, false, false, true));
}

#[test]
fn spills_are_renamed_or_dropped() {
    let (a, _) = Admission::begin(Origin::Spill, 5);
    let mut known = a;
    assert_eq!(known.step(AdmitEvent::Touched(true)), end(true, false, false, true));
    let mut new = a;
    assert_eq!(new.step(AdmitEvent::Touched(false)), AdmitAction::RenameTemporary);
    let mut failing = new;
    assert_eq!(new.step(AdmitEvent::Published(true)), end(true, true, false, false));
    assert_eq!(failing.step(AdmitEvent::Published(false)), end(false, false, false, true));
}

#[test]
fn landed_spills_may_call_for_a_sweep() {
    let now = Moment { secs: 1, nanos: 0 };
    let (spill, _) = Admission::begin(Origin::Spill, 5);
    let (bytes, _) = Admission::begin(Origin::Bytes, 5);
    let mut index = CacheIndex::new();
    assert!(!record_landed(&mut index, &spill, "/c/a.eszip", now, Some(4)));
    index.built = true;
    assert!(record_landed(&mut index, &spill, "/c/a.eszip", now, Some(4)));
    assert_eq!(index.total_bytes, 5);
    assert!(!record_landed(&mut index, &spill, "/c/a.eszip", now, Some(5)));
    assert!(!record_landed(&mut index, &bytes, "/c/b.eszip", now, Some(5)));
    assert_eq!(index.total_bytes, 10);
    assert!(!record_landed(&mut index, &spill, "/c/b.eszip", now, None));
}

#[test]
fn entries_are_recorded_under_their_key() {
    let entry = |url: Option<&str>, key: Option<&str>| UrlCacheEntry {
        url: url.map(String::from),
        cache_key: key.map(String::from),
        version: Some("1".to_string()),
        etag: None,
        last_modified: None,
        bundle_path: "/c/x.eszip".to_string(),
    };
    assert_eq!(
        url_cache_record("/c", &entry(Some("u"), Some("k"))).unwrap(),
        url_meta_path("/c", "k", true, Some("1"))
    );
    assert_eq!(
        url_cache_record("/c", &entry(Some("u"), None)).unwrap(),
        url_meta_path("/c", "u", false, Some("1"))
    );
    assert!(url_cache_record("/c", &entry(None, None)).is_err());
}

#[test]
fn bundles_are_made_from_files_or_code() {
    let s = |t: &str| Some(t.to_string());
    let p = bundle_eszip(s("a.ts"), true, s("code"), true).ok().unwrap();
    assert!(matches!(p.input, BundleInput::Entrypoint(e) if e == "a.ts"));
    assert_eq!(p.cache, Some(CacheSetting::ReloadAll));
    let p = bundle_eszip(None, false, s("code"), false).ok().unwrap();
    assert!(matches!(p.input, BundleInput::Code(c) if c == "code"));
    assert_eq!(p.cache, None);
    assert!(matches!(
        bundle_eszip(None, false, None, false).ok().unwrap().input,
        BundleInput::Nothing
    ));
    let e = bundle_eszip(s("gone.ts"), false, None, false).err().unwrap();
    assert_eq!(e.message(), "entrypoint path does not exist (gone.ts)");
    assert_eq!(
        BundleFailure::TimedOut.message(),
        "failed to complete the bundle within the given time"
    );
    assert_eq!(spill_size_hint(0), None);
    assert_eq!(spill_size_hint(7), Some(7));
}
