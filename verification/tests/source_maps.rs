use flow_edge::source_map_store::{
    clear_source_maps, location_of, translate_error_locations, translate_location,
    translate_vfs_paths, MapToken, SourceMapStore,
};
use sourcemap::SourceMap;

fn lookup(sm: &SourceMap, line: u32, column: u32) -> Option<MapToken> {
    sm.lookup_token(line, column).map(|t| MapToken {
        source: t.get_source().map(|s| s.to_string()),
        line: t.get_src_line(),
        column: t.get_src_col(),
    })
}

fn store() -> SourceMapStore {
    let json = br#"{"version":3,"sources":["orig.ts"],"names":[],"mappings":"AAAA;AAIE"}"#;
    let mut s = SourceMapStore::new();
    s.store_source_map("file:///gen.js", json);
    s.store_source_map("file:///bad.js", b"{");
    s
}

#[test]
fn locations_are_translated_through_the_map() {
    let s = store();
    assert_eq!(
        translate_location(&s, "file:///gen.js", 2, 1, &lookup),
        Some(("orig.ts".to_string(), 5, 3))
    );
    assert_eq!(
        translate_location(&s, "file:///gen.js", 0, 0, &lookup),
        Some(("orig.ts".to_string(), 1, 1))
    );
    assert_eq!(translate_location(&s, "file:///bad.js", 1, 1, &lookup), None);
    assert_eq!(translate_location(&s, "file:///other.js", 1, 1, &lookup), None);
}

fn map_of(source: &str) -> Vec<u8> {
    format!(r#"{{"version":3,"sources":["{source}"],"names":[],"mappings":"AAAA"}}"#).into_bytes()
}

fn source_in(s: &SourceMapStore, specifier: &str) -> Option<String> {
    s.find(specifier)
        .map(|m| m.get_source(0).unwrap().to_string())
}

#[test]
fn the_latest_map_of_a_module_is_used() {
    let mut s = SourceMapStore::new();
    s.store_source_map("a", &map_of("one.ts"));
    s.store_source_map("b", &map_of("two.ts"));
    s.store_source_map("a", &map_of("three.ts"));
    s.store_source_map("a", b"no map");
    assert_eq!(source_in(&s, "a").as_deref(), Some("three.ts"));
    assert_eq!(source_in(&s, "b").as_deref(), Some("two.ts"));
    assert_eq!(s.maps.len(), 2);
    clear_source_maps(&mut s);
    assert_eq!(source_in(&s, "a"), None);
    assert_eq!(source_in(&s, "b"), None);
    assert_eq!(s.maps.len(), 0);
}

#[test]
fn only_regular_source_maps_are_kept() {
    let mut s = SourceMapStore::new();
    s.store_source_map("index", br#"{"version":3,"sections":[]}"#);
    s.store_source_map("source", br#"{"version":3,"sources":[],"names":[],"mappings":"ACAA"}"#);
    s.store_source_map("empty", b"");
    assert_eq!(s.maps.len(), 0);
    let mut junk = b")]}'\n".to_vec();
    junk.extend(map_of("x.ts"));
    s.store_source_map("junk", &junk);
    assert_eq!(source_in(&s, "junk").as_deref(), Some("x.ts"));
}

#[test]
fn locations_in_messages_are_rewritten() {
    let s = store();
    assert_eq!(
        translate_error_locations(
            "Error: x\n    at f (file:///gen.js:2:1)\n    at file:///none.js:10:20",
            &s,
            &lookup
        ),
        "Error: x\n    at f (orig.ts:5:3)\n    at file:///none.js:10:20"
    );
    assert_eq!(translate_error_locations("no location", &s, &lookup), "no location");
    // Numbers are written anew, and those that are too large become zero.
    assert_eq!(
        translate_error_locations("file:///n.js:007:99999999999", &s, &lookup),
        "file:///n.js:7:0"
    );
}

#[test]
fn answers_without_a_source_are_no_location() {
    assert_eq!(location_of(None), None);
    assert_eq!(
        location_of(Some(MapToken {
            source: None,
            line: 1,
            column: 1
        })),
        None
    );
    assert_eq!(
        location_of(Some(MapToken {
            source: Some("a".to_string()),
            line: u32::MAX,
            column: 1
        })),
        None
    );
    assert_eq!(
        location_of(Some(MapToken {
            source: Some("a".to_string()),
            line: 0,
            column: 4
        })),
        Some(("a".to_string(), 1, 5))
    );
}

#[test]
fn archive_paths_become_paths_of_the_working_directory() {
    let msg = "at file:///var/tmp/sb-compile-trex/src/a.ts:1:1 and file:///var/tmp/sb-compile-trex/b";
    assert_eq!(
        translate_vfs_paths(msg, Some("/home/me/app/")),
        "at file:///home/me/app/src/a.ts:1:1 and file:///home/me/app/b"
    );
    assert_eq!(translate_vfs_paths(msg, None), msg);
    assert_eq!(translate_vfs_paths("plain", Some("/x")), "plain");
}
