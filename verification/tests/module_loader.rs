use flow_edge::byte_path::BytePath;
use flow_edge::eszip::lazy::EszipPayloadKind;
use flow_edge::eszip::section::{
    item_behind, EszipModule, ModuleKind, NamedModule, SourceSlot,
};
use flow_edge::module_loader::load::{
    fallback_paths, found_url, load_data_url, needs_transpile, package_module_type, Code,
    CompileFault, EmbeddedModuleLoader, WorkspaceEszipModule, LoadAction, LoadError, LoadInput, Loading, MediaType, ModuleType,
    ReadAnswer,
};
use flow_edge::module_loader::lookup::{candidates, WorkspaceEszip};
use flow_edge::module_loader::resolve::{
    after_jsr_lookup, after_normalize, after_package_attempt, after_workspace_folder,
    referrer_mode, resolve, resolve_referrer, DependencyValue, Import, Mapped, Referrer, ResolutionKind,
    ResolutionMode, ResolveAction, ResolveError,
};
use flow_edge::module_loader::setup::{
    create_module_loader_for_eszip, create_module_loader_for_standalone_from_eszip_kind, root_path,
    unsupported_format_message, NodeModules, PackageResolver, Preparation, Resolution,
};

/// The bytes of some paths.
fn bytes(paths: &[BytePath]) -> Vec<Vec<u8>> {
    paths.iter().map(BytePath::bytes).collect()
}

fn keys(list: &[&str]) -> Vec<String> {
    list.iter().map(|s| s.to_string()).collect()
}

#[test]
fn extensions_and_index_modules_are_guessed_in_order() {
    let c = candidates("src/util");
    assert_eq!(c.len(), 17);
    assert_eq!(c[0], "src/util");
    assert_eq!(c[1], "src/util.ts");
    assert_eq!(c[8], "src/util.cjs");
    assert_eq!(c[9], "src/util/index.ts");
    assert_eq!(c[16], "src/util/index.cjs");
    assert_eq!(candidates("a.tsx"), ["a.tsx"]);
    assert_eq!(candidates("a.json").len(), 17);
}

#[test]
fn modules_are_found_by_their_best_key() {
    let have = keys(&["a/index.js", "a.js", "a", "b/index.ts", "jsr:@x/y", "c.ts"]);
    let have = WorkspaceEszip { keys: have };
    let find = |key: &str| have.get_module("file", "file:///unused", key);
    assert_eq!(find("a").unwrap(), "a");
    assert_eq!(find("b").unwrap(), "b/index.ts");
    assert_eq!(find("c").unwrap(), "c.ts");
    assert!(find("c.js").is_none());
    assert!(find("zzz").is_none());
    let have = WorkspaceEszip { keys: keys(&["a/index.js", "a.js"]) };
    assert_eq!(have.get_module("file", "", "a").unwrap(), "a.js");
    let have = WorkspaceEszip { keys: keys(&["jsr:@x/y"]) };
    assert_eq!(have.get_module("jsr", "jsr:@x/y", "ignored").unwrap(), "jsr:@x/y");
    assert!(have.get_module("jsr", "jsr:@x", "jsr:@x/y").is_none());
}

#[test]
fn only_modules_are_looked_for() {
    let item = |name: &str, module| NamedModule {
        specifier: name.to_string(),
        module,
    };
    let module = |kind| EszipModule::Module {
        kind,
        source: SourceSlot::Taken,
        source_map: SourceSlot::Taken,
    };
    let redirect = |target: &str| EszipModule::Redirect {
        target: target.to_string(),
    };
    let items = vec![
        item("a.ts", module(ModuleKind::JavaScript)),
        item("deno.jsonc", module(ModuleKind::Jsonc)),
        item("b.ts", redirect("c.ts")),
        item("c.ts", redirect("a.ts")),
        item("map", redirect("deno.jsonc")),
        item("round", redirect("about")),
        item("about", redirect("round")),
        item("gone", redirect("nowhere")),
    ];
    assert_eq!(WorkspaceEszip::new(&items).keys, ["a.ts", "b.ts", "c.ts"]);
    assert_eq!(item_behind(&items, "b.ts"), Some(0));
    assert_eq!(item_behind(&items, "map"), Some(1));
    assert_eq!(item_behind(&items, "round"), None);
    assert_eq!(item_behind(&items, "gone"), None);
    assert_eq!(item_behind(&vec![], "a.ts"), None);
}

#[test]
fn referrers_are_urls_or_the_root() {
    assert!(matches!(
        resolve_referrer(".", ResolutionKind::MainModule),
        Ok(Referrer::RootDirectory)
    ));
    assert!(matches!(
        resolve_referrer(".", ResolutionKind::Import),
        Err(ResolveError::NotMainModule(ResolutionKind::Import))
    ));
    match resolve_referrer("file:///a/b.ts", ResolutionKind::DynamicImport) {
        Ok(Referrer::Module(u)) => assert_eq!(u.scheme, "file"),
        _ => panic!("a URL is a referrer"),
    }
    assert!(matches!(
        resolve_referrer("b.ts", ResolutionKind::Import),
        Err(ResolveError::InvalidReferrer)
    ));
    assert_eq!(referrer_mode(true), ResolutionMode::Require);
    assert_eq!(referrer_mode(false), ResolutionMode::Import);
}

/// An import of `x` from a module that may be CommonJS.
fn import(referrer: &str) -> Import {
    match resolve_referrer(referrer, ResolutionKind::Import) {
        Ok(Referrer::Module(referrer)) => Import {
            specifier: "x".to_string(),
            referrer,
            mode: ResolutionMode::Require,
        },
        other => panic!("{other:?}"),
    }
}

fn is_the_import(i: &Import) -> bool {
    i.specifier == "x"
        && i.referrer.text == "file:///a/b.ts"
        && i.mode == ResolutionMode::Require
}

#[test]
fn searches_for_packages_are_made_as_asked() {
    let made = |mapped| resolve(false, import("file:///a/b.ts"), mapped);
    let sub = || Some("lib/y.js".to_string());
    let pkg = |dependency| Mapped::PackageJson {
        dependency,
        alias: "dep".to_string(),
        sub_path: sub(),
    };
    match made(Mapped::WorkspaceNpmPackage {
        directory: BytePath::of_bytes(b"/w/\xffpkg"),
        sub_path: sub(),
    }) {
        ResolveAction::ResolvePackageSubpath { directory, sub_path, import } => {
            assert_eq!(directory.bytes(), b"/w/\xffpkg");
            assert_eq!(sub_path, sub());
            assert!(is_the_import(&import));
        }
        other => panic!("{other:?}"),
    }
    match made(Mapped::PackageJsonImport(BytePath::of_text("/w/package.json"))) {
        ResolveAction::ResolvePackageImport { package_json, import } => {
            assert_eq!(package_json.bytes(), b"/w/package.json");
            assert!(is_the_import(&import));
        }
        other => panic!("{other:?}"),
    }
    match made(pkg(DependencyValue::Req("dep@^1".to_string()))) {
        ResolveAction::ResolveRequirement { requirement, sub_path, import } => {
            assert_eq!((requirement.as_str(), sub_path), ("dep@^1", sub()));
            assert!(is_the_import(&import));
        }
        other => panic!("{other:?}"),
    }
    let (sub_path, import) = match made(pkg(DependencyValue::Workspace("*".to_string()))) {
        ResolveAction::ResolveWorkspaceDependency { alias, version_req, sub_path, import } => {
            assert_eq!((alias.as_str(), version_req.as_str()), ("dep", "*"));
            assert!(is_the_import(&import));
            (sub_path, import)
        }
        other => panic!("{other:?}"),
    };
    match after_workspace_folder(Ok(BytePath::of_text("/w/dep")), sub_path, import) {
        ResolveAction::ResolvePackageSubpath { directory, sub_path, import } => {
            assert_eq!(directory.bytes(), b"/w/dep");
            assert_eq!(sub_path, sub());
            assert!(is_the_import(&import));
        }
        other => panic!("{other:?}"),
    }
    match made(Mapped::Normal {
        specifier: "npm:chalk@5".to_string(),
        scheme: "npm".to_string(),
        is_npm_reference: true,
    }) {
        ResolveAction::ResolveNpmReference { reference, import } => {
            assert_eq!(reference, "npm:chalk@5");
            assert!(is_the_import(&import));
        }
        other => panic!("{other:?}"),
    }
    match resolve(true, self::import("file:///a/b.ts"), pkg(DependencyValue::File)) {
        ResolveAction::ResolveInPackage(import) => assert!(is_the_import(&import)),
        other => panic!("{other:?}"),
    }
}

#[test]
fn each_mapping_has_its_own_resolver() {
    let pkg = |dependency| Mapped::PackageJson {
        dependency,
        alias: "dep".to_string(),
        sub_path: None,
    };
    let normal = |scheme: &str, npm| Mapped::Normal {
        specifier: format!("{scheme}:x"),
        scheme: scheme.to_string(),
        is_npm_reference: npm,
    };
    let failed = |bare| Mapped::Failed {
        unmapped_bare: bare,
        message: "no".to_string(),
    };
    let local = |mapped| resolve(false, import("file:///a/b.ts"), mapped);
    assert!(matches!(
        local(Mapped::WorkspaceJsrPackage("u".into())),
        ResolveAction::Resolved(u) if u == "u"
    ));
    assert!(matches!(
        local(pkg(DependencyValue::File)),
        ResolveAction::Unsupported(ResolveError::FileDependency(a)) if a == "dep"
    ));
    assert!(matches!(
        local(pkg(DependencyValue::Catalog)),
        ResolveAction::Unsupported(ResolveError::CatalogDependency(_))
    ));
    assert!(matches!(
        local(pkg(DependencyValue::Unreadable("bad".into()))),
        ResolveAction::Fail(m) if m == "bad"
    ));
    assert!(matches!(
        local(normal("jsr", false)),
        ResolveAction::LookUpJsr(s) if s == "jsr:x"
    ));
    assert!(matches!(
        local(normal("file", false)),
        ResolveAction::NormalizeNodeModules(_)
    ));
    assert!(matches!(
        local(failed(true)),
        ResolveAction::TryPackage { import, message } if message == "no" && is_the_import(&import)
    ));
    let remote = resolve(false, import("https://h/b.ts"), failed(true));
    assert!(matches!(remote, ResolveAction::Fail(_)));
    assert!(matches!(local(failed(false)), ResolveAction::Fail(m) if m == "no"));
    let folder = after_workspace_folder(Err("gone".into()), None, import("file:///a/b.ts"));
    assert!(matches!(folder, ResolveAction::Fail(m) if m == "gone"));
    assert!(matches!(
        after_jsr_lookup("jsr:x".into(), Some("file:///x".into())),
        ResolveAction::Resolved(s) if s == "file:///x"
    ));
    assert!(matches!(
        after_jsr_lookup("jsr:x".into(), None),
        ResolveAction::NormalizeNodeModules(s) if s == "jsr:x"
    ));
    assert_eq!(after_normalize("a".into(), Some("b".into())), "b");
    assert_eq!(after_normalize("a".into(), None), "a");
    assert!(matches!(
        after_package_attempt("no".into(), Some("file:///p".into())),
        ResolveAction::Resolved(s) if s == "file:///p"
    ));
    assert!(matches!(
        after_package_attempt("no".into(), None),
        ResolveAction::Fail(m) if m == "no"
    ));
    assert_eq!(
        ResolveError::FileDependency("dep".into()).message(""),
        "file: protocol dependencies are not supported in package.json (dependency: dep)"
    );
    assert_eq!(
        ResolveError::CatalogDependency("dep".into()).message(""),
        "catalog: protocol dependencies are not supported in package.json (dependency: dep)"
    );
    assert_eq!(
        ResolveError::NotMainModule(ResolutionKind::DynamicImport).message(""),
        "Expected to resolve main module, got DynamicImport instead."
    );
    assert_eq!(
        ResolveError::InvalidReferrer.message("relative URL without a base"),
        "Referrer uses invalid specifier: relative URL without a base"
    );
}

#[test]
fn data_urls_hold_their_module() {
    let m = load_data_url("data:text/javascript;base64,ZXhwb3J0IHt9").unwrap();
    assert_eq!(m.module_type, ModuleType::JavaScript);
    assert!(matches!(m.code, Code::Text(t) if t == "export {}"));
    let m = load_data_url("data:,let%20x").unwrap();
    assert!(matches!(m.code, Code::Text(t) if t == "let x"));
    assert_eq!(load_data_url("file:///x").unwrap_err(), LoadError::InvalidDataUrl);
    assert_eq!(
        load_data_url("data:;base64,!!!").unwrap_err(),
        LoadError::UndecodableDataUrl
    );
    assert_eq!(load_data_url("data:,%FF").unwrap_err(), LoadError::DataUrlNotUtf8);
}

#[test]
fn missing_modules_are_read_from_the_service() {
    let paths = |disabled, scheme: &str, path: Option<&[u8]>, service| {
        bytes(&fallback_paths(disabled, scheme, path, service))
    };
    let path: &[u8] = b"/var/tmp/sb-compile-trex/proj/src/a.ts";
    assert_eq!(
        paths(false, "file", Some(path), Some("/srv/app")),
        [path, b"/srv/app/src/a.ts"]
    );
    assert_eq!(paths(false, "file", Some(path), None), [path]);
    assert_eq!(
        paths(false, "file", Some(b"/var/tmp/sb-compile-trex/a.ts"), Some("/srv")),
        [b"/var/tmp/sb-compile-trex/a.ts"]
    );
    assert_eq!(paths(false, "file", Some(b"/x/y.ts"), Some("/srv")), [b"/x/y.ts"]);
    assert!(paths(true, "file", Some(path), Some("/srv")).is_empty());
    assert!(paths(false, "https", Some(path), Some("/srv")).is_empty());
    assert!(paths(false, "file", None, Some("/srv")).is_empty());
}

#[test]
fn paths_of_missing_modules_need_not_be_text() {
    let path: &[u8] = b"/var/tmp/sb-compile-trex/p/\xff.ts";
    assert_eq!(
        bytes(&fallback_paths(false, "file", Some(path), Some("/s\u{e9}"))),
        [path, "/s\u{e9}/\u{fffd}.ts".as_bytes()]
    );
    let (mut l, _) = loader(true).load("file:///a%FF/b.ts");
    l.step(LoadInput::InPackage(false));
    assert!(matches!(
        l.step(LoadInput::Found(None)),
        LoadAction::ReadFiles(f) if bytes(&f) == [b"/a\xff/b.ts"]
    ));
}

#[test]
fn archived_modules_are_found_under_their_root() {
    let root = "file:///var/tmp/root/";
    assert_eq!(found_url("file", root, "src/a.ts").unwrap(), "file:///var/tmp/root/src/a.ts");
    assert_eq!(found_url("file", root, "file:///else/a.ts").unwrap(), "file:///else/a.ts");
    assert_eq!(found_url("https", root, "https://h/a.ts").unwrap(), "https://h/a.ts");
    assert_eq!(found_url("https", root, "src/a.ts"), None);
}

#[test]
fn media_types_decide_the_form() {
    assert_eq!(package_module_type(MediaType::Json), ModuleType::Json);
    assert_eq!(package_module_type(MediaType::Tsx), ModuleType::JavaScript);
    for t in [MediaType::TypeScript, MediaType::Mts, MediaType::Cts, MediaType::Tsx] {
        assert!(needs_transpile(t));
    }
    assert!(!needs_transpile(MediaType::Json) && !needs_transpile(MediaType::Other));
}

fn loader(include_source_map: bool) -> EmbeddedModuleLoader {
    EmbeddedModuleLoader {
        include_source_map,
        disable_fs_fallback: false,
        service_path: Some("/srv".to_string()),
    }
}

const SPECIFIER: &str = "file:///var/tmp/sb-compile-trex/p/a.ts";
const URL: &str = "file:///root/p/a.ts";

/// A loading that has got to the archive's answer.
fn at_archive(include_source_map: bool) -> Loading {
    let (mut l, a) = loader(include_source_map).load(SPECIFIER);
    assert!(matches!(a, LoadAction::AskPackage));
    assert!(matches!(l.step(LoadInput::InPackage(false)), LoadAction::Find));
    l
}

fn module(kind: ModuleKind) -> WorkspaceEszipModule {
    WorkspaceEszipModule {
        kind,
        key: "p/a.ts".to_string(),
        url: URL.to_string(),
    }
}

/// What follows the source of a module of the archive.
fn source_read(kind: ModuleKind, cjs: bool, maps: bool, bytes: &[u8]) -> (Loading, LoadAction) {
    let mut l = at_archive(maps);
    let a = l.step(LoadInput::Found(Some(module(kind))));
    assert!(matches!(a, LoadAction::AskForm(u) if u == URL));
    let a = l.step(LoadInput::MaybeCjs(Some(cjs)));
    assert!(matches!(a, LoadAction::ReadSource(k) if k == "p/a.ts"));
    let a = l.step(LoadInput::SourceRead(ReadAnswer::Bytes(bytes.to_vec())));
    (l, a)
}

fn done_at(a: LoadAction) -> (ModuleType, Code, Option<Vec<u8>>, Option<String>) {
    match a {
        LoadAction::Done { source, found_at, map } => {
            (source.module_type, source.code, map, found_at)
        }
        other => panic!("{other:?}"),
    }
}

/// A module that was found in the archive.
fn done(a: LoadAction) -> (ModuleType, Code, Option<Vec<u8>>) {
    let (module_type, code, map, found_at) = done_at(a);
    assert_eq!(found_at.as_deref(), Some(URL));
    (module_type, code, map)
}

/// A module that stands at its own URL.
fn done_in_place(a: LoadAction) -> (ModuleType, Code, Option<Vec<u8>>) {
    let (module_type, code, map, found_at) = done_at(a);
    assert_eq!(found_at, None);
    (module_type, code, map)
}

fn fault(a: LoadAction) -> LoadError {
    match a {
        LoadAction::Fail(e) => e,
        other => panic!("{other:?}"),
    }
}

#[test]
fn archived_modules_come_with_their_source_map() {
    for code in [&b"let x"[..], b"let x\n"] {
        let (mut l, a) = source_read(ModuleKind::JavaScript, false, true, code);
        assert!(matches!(a, LoadAction::ReadMap(k) if k == "p/a.ts"));
        let (t, c, map) = done(l.step(LoadInput::MapRead(ReadAnswer::Bytes(b"{}".to_vec()))));
        assert_eq!(t, ModuleType::JavaScript);
        assert_eq!(map.unwrap(), b"{}");
        assert!(matches!(
            c,
            Code::Text(s) if s == "let x\n//# sourceMappingURL=data:application/json;base64,e30="
        ));
    }
    for answer in [ReadAnswer::Missing, ReadAnswer::Bytes(vec![])] {
        let (mut l, _) = source_read(ModuleKind::JavaScript, false, true, b"let x");
        let (_, c, map) = done(l.step(LoadInput::MapRead(answer)));
        assert!(map.is_none());
        assert!(matches!(c, Code::Text(s) if s == "let x"));
    }
    let (mut l, _) = source_read(ModuleKind::JavaScript, false, true, b"");
    let e = fault(l.step(LoadInput::MapRead(ReadAnswer::Failed)));
    assert_eq!(e.message("s", "io"), "failed to read the source map for s: io");
}

#[test]
fn archived_modules_are_handed_out_by_kind() {
    let (_, a) = source_read(ModuleKind::JavaScript, false, false, b"let x");
    let (t, c, map) = done(a);
    assert_eq!((t, map), (ModuleType::JavaScript, None));
    assert!(matches!(c, Code::Text(s) if s == "let x"));
    let (t, c, _) = done(source_read(ModuleKind::Json, false, true, b"1").1);
    assert_eq!(t, ModuleType::Json);
    assert!(matches!(c, Code::Text(s) if s == "1"));
    let (t, c, _) = done(source_read(ModuleKind::Wasm, true, true, &[0xff]).1);
    assert_eq!(t, ModuleType::Wasm);
    assert!(matches!(c, Code::Bytes(b) if b == [0xff]));
    let (mut l, a) = source_read(ModuleKind::JavaScript, true, true, b"exports.x = 1");
    assert!(matches!(
        a,
        LoadAction::Translate { code, url } if code == "exports.x = 1" && url == URL
    ));
    let (t, c, _) = done(l.step(LoadInput::Translated(Some("export const x = 1".to_string()))));
    assert_eq!(t, ModuleType::JavaScript);
    assert!(matches!(c, Code::Text(s) if s == "export const x = 1"));
    let (mut l, _) = source_read(ModuleKind::OpaqueData, true, true, b"x");
    assert_eq!(fault(l.step(LoadInput::Translated(None))), LoadError::TranslateFailed);
    let e = fault(source_read(ModuleKind::Json, false, false, &[0xff]).1);
    assert_eq!(e.message("s", ""), "Module source is not utf-8");
    let e = fault(source_read(ModuleKind::Jsonc, false, true, b"{}").1);
    assert_eq!(e.message("s", ""), "jsonc modules not supported");
}

#[test]
fn loading_fails_with_its_reason() {
    let at_source = || {
        let mut l = at_archive(true);
        l.step(LoadInput::Found(Some(module(ModuleKind::JavaScript))));
        l.step(LoadInput::MaybeCjs(Some(false)));
        l
    };
    let e = fault(at_source().step(LoadInput::SourceRead(ReadAnswer::Missing)));
    assert_eq!(e.message("s", ""), "Module not found: s");
    let e = fault(at_source().step(LoadInput::SourceRead(ReadAnswer::Failed)));
    assert_eq!(e.message("s", "io"), "failed to read module source for s: io");
    let mut l = at_archive(true);
    l.step(LoadInput::Found(Some(module(ModuleKind::Json))));
    assert_eq!(fault(l.step(LoadInput::MaybeCjs(None))).message("s", "why"), "why");
    let (mut l, _) = loader(true).load(SPECIFIER);
    assert!(matches!(l.step(LoadInput::InPackage(true)), LoadAction::LoadPackage));
    assert_eq!(fault(l.step(LoadInput::PackageLoaded(None))), LoadError::PackageFailed);
}

#[test]
fn modules_of_packages_are_loaded_by_them() {
    let (mut l, _) = loader(true).load(SPECIFIER);
    l.step(LoadInput::InPackage(true));
    let code = Code::Text("{}".to_string());
    let url = "file:///node_modules/p/x.json".to_string();
    let loaded = LoadInput::PackageLoaded(Some((MediaType::Json, code, url.clone())));
    let (t, c, _, found_at) = done_at(l.step(loaded));
    assert_eq!(t, ModuleType::Json);
    assert_eq!(found_at, Some(url));
    assert!(matches!(c, Code::Text(s) if s == "{}"));
}

#[test]
fn files_stand_in_for_missing_modules() {
    let reading = || {
        let mut l = at_archive(true);
        match l.step(LoadInput::Found(None)) {
            LoadAction::ReadFiles(f) => {
                assert_eq!(
                    bytes(&f),
                    [&b"/var/tmp/sb-compile-trex/p/a.ts"[..], b"/srv/a.ts"]
                )
            }
            other => panic!("{other:?}"),
        }
        l
    };
    let file = |media| LoadInput::FileRead(Some((media, "code".to_string())));
    assert_eq!(fault(reading().step(LoadInput::FileRead(None))), LoadError::NotFound);
    assert_eq!(done_in_place(reading().step(file(MediaType::Json))).0, ModuleType::Json);
    assert_eq!(done_in_place(reading().step(file(MediaType::Other))).0, ModuleType::JavaScript);
    let compiling = || {
        let mut l = reading();
        assert!(matches!(l.step(file(MediaType::Tsx)), LoadAction::Compile(c) if c == "code"));
        l
    };
    let (t, c, _) = done_in_place(compiling().step(LoadInput::Compiled(Ok("js".to_string()))));
    assert_eq!(t, ModuleType::JavaScript);
    assert!(matches!(c, Code::Text(s) if s == "js"));
    let e = fault(compiling().step(LoadInput::Compiled(Err(CompileFault::Parse))));
    assert_eq!(e.message("s", "d"), "Failed to parse s: d");
    let e = fault(compiling().step(LoadInput::Compiled(Err(CompileFault::Transpile))));
    assert_eq!(e.message("s", "d"), "Failed to transpile s: d");
    let closed = EmbeddedModuleLoader {
        disable_fs_fallback: true,
        ..loader(true)
    };
    let (mut l, _) = closed.load(SPECIFIER);
    l.step(LoadInput::InPackage(false));
    assert_eq!(fault(l.step(LoadInput::Found(None))), LoadError::NotFound);
}

#[test]
fn only_files_stand_in_for_missing_modules() {
    let missing = |specifier: &str| {
        let (mut l, a) = loader(true).load(specifier);
        assert!(matches!(a, LoadAction::AskPackage));
        l.step(LoadInput::InPackage(false));
        l.step(LoadInput::Found(None))
    };
    assert!(matches!(
        missing("file:///a%20b/c.ts"),
        LoadAction::ReadFiles(f) if bytes(&f) == [b"/a b/c.ts"]
    ));
    assert_eq!(fault(missing("https://host/a.ts")), LoadError::NotFound);
    assert_eq!(fault(missing("file://host/a.ts")), LoadError::NotFound);
    assert_eq!(fault(missing("no url")), LoadError::NotFound);
}

#[test]
fn data_urls_are_loaded_at_once() {
    let (_, a) = loader(true).load("data:,let%20x");
    assert!(matches!(done_in_place(a).1, Code::Text(s) if s == "let x"));
    let (_, a) = loader(true).load("data:;base64,!!!");
    assert_eq!(fault(a).message("s", "why"), "Failed to decode data URL: why");
    let (_, a) = loader(true).load("data:,%FF");
    assert_eq!(fault(a).message("s", "why"), "Data URL is not valid UTF-8: why");
    let (_, a) = loader(true).load("data:x");
    assert_eq!(fault(a).message("s", "why"), "Invalid data URL: why");
}

#[test]
fn archives_with_packages_serve_them_themselves() {
    let root = root_path(None);
    assert_eq!(root, "/var/tmp/sb-compile-trex");
    assert_eq!(root_path(Some("/private/var/tmp")), "/private/var/tmp/sb-compile-trex");

    let p = create_module_loader_for_eszip(root.clone(), true, &None, None).unwrap();
    assert_eq!(p.root_node_modules_path, "/var/tmp/sb-compile-trex/node_modules");
    assert_eq!(p.npm_registry_url, "https://localhost/");
    assert!(!p.use_real_fs);
    assert!(matches!(p.resolver, PackageResolver::Managed(Resolution::FromArchive)));

    let byonm = Some(NodeModules::Byonm {
        root_node_modules_dir: Some("app/node_modules".to_string()),
    });
    let p = create_module_loader_for_eszip(root.clone(), true, &byonm, None).unwrap();
    assert_eq!(p.root_node_modules_path, root);
    assert!(matches!(
        p.resolver,
        PackageResolver::Byonm(Some(d)) if d == "/var/tmp/sb-compile-trex/app/node_modules"
    ));

    let npm = Some("/home/u/.cache/deno/npm".to_string());
    let managed = Some(NodeModules::Managed {
        node_modules_dir: None,
    });
    let p = create_module_loader_for_eszip(root.clone(), false, &managed, npm).unwrap();
    assert_eq!(p.root_node_modules_path, "/home/u/.cache/deno/npm");
    assert_eq!(p.npm_registry_url, "https://registry.npmjs.org/");
    assert!(p.use_real_fs);
    assert!(matches!(p.resolver, PackageResolver::Managed(Resolution::Empty)));
    assert!(create_module_loader_for_eszip(root, false, &None, None).is_none());

    let prepare = create_module_loader_for_standalone_from_eszip_kind::<u8>;
    assert_eq!(prepare(&EszipPayloadKind::File("a.eszip".into())), Preparation::CheckVersion);
    assert_eq!(prepare(&EszipPayloadKind::Bytes(vec![])), Preparation::Migrate);
    assert_eq!(prepare(&EszipPayloadKind::Eszip(1)), Preparation::Migrate);
    assert_eq!(
        unsupported_format_message("old"),
        "old: this eszip uses an unsupported format for file-backed loading; re-bundle it with \
         `flow eszip bundle` (old bundles can still be unpacked with `flow eszip unbundle`)"
    );
}
