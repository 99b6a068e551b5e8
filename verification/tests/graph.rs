use flow_edge::graph::{
    build_module_exclusion, is_glob_pattern, Dependency, GraphModule, ModuleGraph,
};

fn graph() -> ModuleGraph {
    ModuleGraph {
        known: vec![
            "file:///app/main.ts".to_string(),
            "file:///app/services/shopify/mod.ts".to_string(),
        ],
        modules: vec![
            GraphModule {
                dependencies: vec![Dependency {
                    specifier: "#services/shopify/mod.ts".to_string(),
                    code: Some("file:///app/services/shopify/mod.ts".to_string()),
                    types: Some("file:///app/services/shopify/mod.d.ts".to_string()),
                }],
            },
            GraphModule {
                dependencies: vec![],
            },
        ],
    }
}

fn patterns(list: &[&str]) -> Vec<String> {
    list.iter().map(|s| s.to_string()).collect()
}

#[test]
fn globs_are_recognised_by_their_characters() {
    assert!(is_glob_pattern("a/*.ts"));
    assert!(is_glob_pattern("a?"));
    assert!(is_glob_pattern("[ab]"));
    assert!(!is_glob_pattern("a/b.ts"));
}

#[test]
fn imports_exclude_what_they_resolve_to() {
    let x = build_module_exclusion(&graph(), &patterns(&["#services/shopify/mod.ts"]))
        .unwrap()
        .unwrap();
    assert!(x.is_excluded("file:///app/services/shopify/mod.ts", "services/shopify/mod.ts"));
    assert!(x.is_excluded("file:///app/services/shopify/mod.d.ts", "x"));
    assert!(!x.is_excluded("file:///app/main.ts", "main.ts"));
}

#[test]
fn known_urls_exclude_themselves() {
    let x = build_module_exclusion(&graph(), &patterns(&["FILE:///app/main.ts"]))
        .unwrap()
        .unwrap();
    assert!(x.is_excluded("file:///app/main.ts", "main.ts"));
    assert_eq!(x.urls.len(), 1);
}

#[test]
fn globs_match_keys() {
    let x = build_module_exclusion(&graph(), &patterns(&["services/**/*.ts"]))
        .unwrap()
        .unwrap();
    assert!(x.is_excluded("file:///any", "services/shopify/mod.ts"));
    assert!(!x.is_excluded("file:///any", "main.ts"));
}

#[test]
fn patterns_that_match_nothing_are_ignored() {
    assert!(build_module_exclusion(&graph(), &patterns(&["#unknown", "file:///nowhere.ts"]))
        .unwrap()
        .is_none());
    assert!(build_module_exclusion(&graph(), &vec![]).unwrap().is_none());
}

#[test]
fn bad_globs_are_refused() {
    let e = build_module_exclusion(&graph(), &patterns(&["ok*", "a/**b"])).err().unwrap();
    assert_eq!(e.pattern, "a/**b");
    assert_eq!(e.message(), "invalid exclude glob: a/**b");
}
