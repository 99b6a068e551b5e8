use flow_edge::eszip::entries::{
    complete_entry, extract_file_specifiers, find_lowest_path, is_schema, land,
    module_relative_path, plan_entries, strip_file_scheme, EszipEntryKind, EszipEntryReader,
    ModuleData, OpenError, PlaceError, VfsEntry,
};
use flow_edge::eszip::generate::{
    archive_registry, archive_scopes, choose_entrypoint, entry_specifier, generate_binary_eszip,
    graph_vfs_steps, include_glob_patterns_in_eszip, needs_archive_entry, npm_plan, static_match_url, vfs_source,
    ArchiveInputs, BundleRequest, Bundling, CreateGraphArgs, EntryFacts, GenerateError,
    GraphFile, GraphModuleKind, ImportMapFacts, PackageFile, PackageJsonDeps, ResolverFacts,
    WorkspacePackage, NpmScope, NpmState, StaticMatch, VfsContents, VfsSource,
};
use flow_edge::eszip::lazy::LazyLoadableEszip;
use flow_edge::eszip::read_all::Progress;
use flow_edge::eszip::section::{
    read_u32, EszipDataSection, EszipModule, ModuleKind, NamedModule, SectionError, SourceSlot,
};
use flow_edge::flow_eszip::Checksum;
use flow_edge::graph::ModuleGraph;
use flow_edge::module_loader::setup::NodeModules;

fn texts(list: &[&str]) -> Vec<String> {
    list.iter().map(|s| s.to_string()).collect()
}

fn module(name: &str, source: (usize, usize), map: Option<(usize, usize)>) -> NamedModule {
    NamedModule {
        specifier: name.to_string(),
        module: EszipModule::Module {
            kind: ModuleKind::JavaScript,
            source: SourceSlot::Pending {
                offset: source.0,
                length: source.1,
            },
            source_map: match map {
                Some((offset, length)) => SourceSlot::Pending { offset, length },
                None => SourceSlot::Ready(vec![]),
            },
        },
    }
}

/// Two bytes of header; sources "abc" and "de", a source map "M", each with one byte of checksum.
fn sample() -> EszipDataSection {
    let mut data = vec![9, 9];
    data.extend([0, 0, 0, 7]);
    data.extend(b"abc#de#");
    data.extend([0, 0, 0, 2]);
    data.extend(b"M#");
    EszipDataSection::new(
        data,
        2,
        1,
        vec![
            module("a", (0, 3), Some((0, 1))),
            NamedModule {
                specifier: "r".to_string(),
                module: EszipModule::Redirect {
                    target: "a".to_string(),
                },
            },
            module("b", (4, 2), None),
        ],
    )
}

fn slots(s: &EszipDataSection, i: usize) -> (&SourceSlot, &SourceSlot) {
    match &s.modules[i].module {
        EszipModule::Module {
            source, source_map, ..
        } => (source, source_map),
        _ => panic!("not a module"),
    }
}

fn is_ready(slot: &SourceSlot, bytes: &[u8]) -> bool {
    matches!(slot, SourceSlot::Ready(b) if b == bytes)
}

#[test]
fn numbers_are_read_most_significant_byte_first() {
    assert_eq!(read_u32(&vec![0, 1, 2, 3, 4], 1), Some(0x01020304));
    assert_eq!(read_u32(&vec![0, 1, 2, 3], 1), None);
    assert_eq!(read_u32(&vec![255; 4], 0), Some(u32::MAX));
    assert_eq!(read_u32(&vec![], usize::MAX), None);
}

#[test]
fn a_module_is_read_on_its_first_request() {
    let mut s = sample();
    let i = s.find("a").unwrap();
    assert_eq!(s.source_range(i), Some((6, 3)));
    assert_eq!(s.source_map_range(i), Some((17, 1)));
    s.read_data_section_by_specifier("a", true, true).unwrap();
    assert!(is_ready(slots(&s, 0).0, b"abc"));
    assert!(is_ready(slots(&s, 0).1, b"M"));
    // A later request changes nothing, whatever it says.
    s.read_data_section_by_specifier("a", false, false).unwrap();
    assert!(is_ready(slots(&s, 0).0, b"abc"));
    assert!(matches!(slots(&s, 2).0, SourceSlot::Pending { .. }));
}

#[test]
fn unreadable_data_take_the_slot() {
    let mut s = sample();
    assert!(matches!(
        s.read_data_section_by_specifier("missing", true, true),
        Err(SectionError::NoSuchSpecifier)
    ));
    assert!(matches!(
        s.read_data_section_by_specifier("r", true, true),
        Err(SectionError::NoSuchSpecifier)
    ));
    match s.read_data_section_by_specifier("a", false, true) {
        Err(SectionError::InvalidSourceHash(n)) => assert_eq!(n, "a"),
        other => panic!("{other:?}"),
    }
    let tampered = SectionError::InvalidSourceHash("a".to_string());
    assert_eq!(tampered.message().unwrap(), "invalid source hash");
    assert_eq!(
        SectionError::NoSuchSpecifier.message().unwrap(),
        "given specifier does not exist in the eszip header"
    );
    assert!(SectionError::UnexpectedEof.message().is_none());
    assert!(matches!(slots(&s, 0).0, SourceSlot::Taken));
    assert!(matches!(slots(&s, 0).1, SourceSlot::Pending { .. }));

    let mut s = sample();
    assert!(s.read_data_section_by_specifier("a", true, false).is_err());
    assert!(is_ready(slots(&s, 0).0, b"abc"));
    assert!(matches!(slots(&s, 0).1, SourceSlot::Taken));

    let mut s = EszipDataSection::new(vec![0, 0, 0, 9, 1], 0, 1, vec![module("x", (0, 5), None)]);
    assert!(matches!(
        s.read_data_section_by_specifier("x", true, true),
        Err(SectionError::UnexpectedEof)
    ));
    assert!(matches!(slots(&s, 0).0, SourceSlot::Taken));
}

fn read_all(s: EszipDataSection) -> Result<EszipDataSection, SectionError> {
    let mut r = s.read_data_section_all()?;
    loop {
        match r.next()? {
            Progress::Check { .. } => r.report(true)?,
            Progress::Done => return Ok(r.section),
            _ => {}
        }
    }
}

#[test]
fn a_whole_section_is_read_in_order() {
    let s = read_all(sample()).unwrap();
    assert!(is_ready(slots(&s, 0).0, b"abc"));
    assert!(is_ready(slots(&s, 0).1, b"M"));
    assert!(is_ready(slots(&s, 2).0, b"de"));
}

#[test]
fn modules_that_were_read_before_are_passed_over() {
    let mut s = sample();
    s.read_data_section_by_specifier("b", true, true).unwrap();
    let mut r = s.read_data_section_all().unwrap();
    assert_eq!(r.next().unwrap(), Progress::Check { start: 6, length: 3 });
    r.report(true).unwrap();
    assert_eq!(r.next().unwrap(), Progress::Skipped);
    assert_eq!(r.next().unwrap(), Progress::SourcesRead);
    assert_eq!(r.next().unwrap(), Progress::Check { start: 17, length: 1 });
    assert!(matches!(
        r.report(false),
        Err(SectionError::InvalidSourceHash(n)) if n == "a"
    ));
}

#[test]
fn a_gap_in_the_section_is_an_error() {
    let data = vec![0, 0, 0, 3, 1, 2, 3, 0, 0, 0, 0];
    let s = EszipDataSection::new(data, 0, 0, vec![module("x", (1, 2), None)]);
    assert!(matches!(read_all(s), Err(SectionError::InvalidSourceOffset(0))));
    let s = EszipDataSection::new(vec![1, 2], 0, 0, vec![]);
    assert!(matches!(read_all(s), Err(SectionError::UnexpectedEof)));
    let s = EszipDataSection::new(vec![0, 0, 0, 9, 1], 0, 0, vec![module("x", (0, 9), None)]);
    assert!(matches!(read_all(s), Err(SectionError::UnexpectedEof)));
}

#[test]
fn schemes_stand_in_front_of_slashes() {
    assert!(is_schema("file:///a"));
    assert!(is_schema("static:a/b"));
    assert!(is_schema("a:b"));
    assert!(!is_schema("a/b:c"));
    assert!(!is_schema("main.ts"));
}

#[test]
fn files_are_picked_out_of_the_specifiers() {
    let all = texts(&[
        "file:///a.ts",
        "main.ts",
        "src/lib/x.ts",
        "/abs.ts",
        "a//b",
        "dir/",
        "",
        "---FLOW-ESZIP-VERSION-ESZIP---",
        "https://x/y.ts",
        "static:pic.png",
        "vfs://0",
    ]);
    assert_eq!(
        extract_file_specifiers(&all),
        ["file:///a.ts", "main.ts", "src/lib/x.ts"]
    );
}

#[test]
fn the_lowest_path_has_the_fewest_components() {
    assert_eq!(
        find_lowest_path(&texts(&["a/b/c.ts", "a/b.ts", "x/y.ts"])).unwrap(),
        "a/b.ts"
    );
    assert_eq!(find_lowest_path(&texts(&["./a", "b"])).unwrap(), "b");
    assert_eq!(find_lowest_path(&texts(&["a//b", "a/b/c"])).unwrap(), "a//b");
    assert!(find_lowest_path(&vec![]).is_none());
}

#[test]
fn modules_land_relative_to_the_lowest_file() {
    assert_eq!(strip_file_scheme("file:///src/a.ts"), "/src/a.ts");
    assert_eq!(strip_file_scheme("src/a.ts"), "src/a.ts");
    assert_eq!(module_relative_path("file:///src/lib/a.ts", "/src").unwrap(), "lib/a.ts");
    assert_eq!(module_relative_path("file:///other/a.ts", "/src").unwrap(), "../other/a.ts");
    assert_eq!(module_relative_path("lib/a.ts", "").unwrap(), "lib/a.ts");
    assert_eq!(module_relative_path("file:///src/a.ts", "src").unwrap(), "src/a.ts");
    assert!(matches!(
        module_relative_path("src/a.ts", "/src"),
        Err(PlaceError::NoRelativePath(_))
    ));
    assert!(matches!(
        module_relative_path("\\x", ""),
        Err(PlaceError::NotUnix(_))
    ));
    assert_eq!(land("/a//b").unwrap(), "a/b");
    assert!(land("\\a").is_none());
}

#[test]
fn an_archive_is_planned_entry_by_entry() {
    let specs = texts(&[
        "hello.js",
        "lib/deep.js",
        "static:assets/pic.png",
        "---EDGE-RUNTIME-METADATA---",
    ]);
    let plan = plan_entries(&specs).unwrap();
    let got: Vec<_> = plan
        .iter()
        .map(|e| (e.specifier.as_str(), e.relative_path.as_str(), e.kind.as_str()))
        .collect();
    assert_eq!(
        got,
        [
            ("hello.js", "hello.js", "module"),
            ("lib/deep.js", "lib/deep.js", "module"),
            ("file://assets/pic.png", "assets/pic.png", "static"),
        ]
    );
    assert!(matches!(
        plan_entries(&texts(&["https://x/y.ts"])),
        Err(OpenError::NoFileModules)
    ));
    assert!(matches!(
        plan_entries(&texts(&["file:///"])),
        Err(OpenError::NoParent)
    ));
    assert!(matches!(
        plan_entries(&texts(&["src/a.ts", "file:///b/c/d.ts", "x/../y"])),
        Ok(_)
    ));
    assert!(matches!(
        plan_entries(&texts(&["file:///a.ts", "src/b/c/d.ts"])),
        Err(OpenError::Place(_))
    ));
}

#[test]
fn the_virtual_file_system_is_walked_in_depth() {
    let f = |name: &str, key: &str| VfsEntry::File {
        name: name.to_string(),
        key: key.to_string(),
    };
    let dir = |entries| VfsEntry::Dir {
        name: "node_modules".to_string(),
        entries,
    };
    let tree = dir(vec![
        f("a", "vfs://0"),
        VfsEntry::Dir {
            name: "pkg".to_string(),
            entries: vec![f("index.js", "vfs://1")],
        },
        f("z", "vfs://2"),
    ]);
    let mut r = EszipEntryReader::open(true, Some(tree), &vec![]).unwrap();
    assert_eq!(r.remaining(), 3);
    let mut got = Vec::new();
    while let Some(e) = r.next_pending() {
        assert_eq!(e.kind, EszipEntryKind::VfsFile);
        let done = complete_entry(e, ModuleData::Source(vec![1])).unwrap();
        got.push((done.relative_path, done.specifier));
    }
    assert_eq!(r.remaining(), 0);
    let want = [("a", "vfs://0"), ("pkg/index.js", "vfs://1"), ("z", "vfs://2")];
    assert_eq!(got, want.map(|(a, b)| (a.to_string(), b.to_string())));
    let bad = dir(vec![VfsEntry::Symlink {
        name: "link".to_string(),
    }]);
    match EszipEntryReader::open(true, Some(bad), &vec![]) {
        Err(OpenError::Symlink(name)) => assert_eq!(name, "link"),
        _ => panic!("a link has no place"),
    }
    assert_eq!(EszipEntryReader::open(true, None, &vec![]).ok().unwrap().remaining(), 0);
}

#[test]
fn missing_modules_are_reported_by_specifier() {
    let mut r = EszipEntryReader::open(false, None, &texts(&["a.js", "b.js"])).ok().unwrap();
    let a = r.next_pending().unwrap();
    assert!(matches!(
        complete_entry(a, ModuleData::Missing),
        Err(OpenError::MissingModule(s)) if s == "a.js"
    ));
    let b = r.next_pending().unwrap();
    assert!(matches!(
        complete_entry(b, ModuleData::NoSource),
        Err(OpenError::MissingSource(s)) if s == "b.js"
    ));
    assert!(r.next_pending().is_none());
    let specs = texts(&["a.js", "b.js", "c.js"]);
    let mut r = EszipEntryReader::open(false, None, &specs).ok().unwrap();
    let source = |s: &str| match s {
        "a.js" => ModuleData::Source(vec![1]),
        "b.js" => ModuleData::Missing,
        _ => ModuleData::NoSource,
    };
    let a = r.next_entry(&source).unwrap().unwrap();
    assert_eq!((a.specifier.as_str(), a.data.as_slice()), ("a.js", &[1][..]));
    let e = r.next_entry(&source).err().unwrap();
    assert_eq!(e.message(), "eszip is missing a module for b.js");
    let e = r.next_entry(&source).err().unwrap();
    assert_eq!(e.message(), "eszip is missing the source for c.js");
    assert!(r.next_entry(&source).unwrap().is_none());
    assert_eq!(
        OpenError::Symlink("x".to_string()).message(),
        "found unexpected symlink: x"
    );
    assert_eq!(
        OpenError::NoFileModules.message(),
        "the eszip contains no extractable file modules"
    );
    assert_eq!(
        OpenError::NoParent.message(),
        "the eszip's common root has no parent directory"
    );
    assert_eq!(
        OpenError::InvalidStaticAsset("static:".to_string()).message(),
        "invalid static asset specifier: static:"
    );
    assert_eq!(
        OpenError::Place(PlaceError::NoRelativePath("m".to_string())).message(),
        "failed to compute a relative path for m"
    );
}

fn facts(path: &str) -> EntryFacts {
    EntryFacts {
        path: path.to_string(),
        is_file: false,
        is_dir: false,
        has_index_ts: false,
        has_index_js: false,
        use_byonm: false,
        package_main: None,
        workspace_root: "/ws".to_string(),
    }
}

#[test]
fn the_entry_module_is_found_in_order() {
    let file = EntryFacts { is_file: true, ..facts("/a/main.ts") };
    assert!(matches!(choose_entrypoint(Some(file), "/cwd", false), Ok(CreateGraphArgs::File(p)) if p == "/a/main.ts"));
    let rel = EntryFacts { is_file: true, ..facts("../main.ts") };
    assert!(matches!(choose_entrypoint(Some(rel), "/cwd", false), Ok(CreateGraphArgs::Unnormalized(p)) if p == "/cwd/../main.ts"));
    let both = EntryFacts { is_dir: true, has_index_ts: true, has_index_js: true, ..facts("/a") };
    assert!(matches!(choose_entrypoint(Some(both), "/cwd", false), Ok(CreateGraphArgs::File(p)) if p == "/a/index.ts"));
    let js = EntryFacts { is_dir: true, has_index_js: true, ..facts("/a") };
    assert!(matches!(choose_entrypoint(Some(js), "/cwd", false), Ok(CreateGraphArgs::File(p)) if p == "/a/index.js"));
    let pkg = EntryFacts { is_dir: true, use_byonm: true, package_main: Some("dist/x.js".into()), ..facts("/a") };
    assert!(matches!(choose_entrypoint(Some(pkg), "/cwd", false), Ok(CreateGraphArgs::File(p)) if p == "/ws/dist/x.js"));
    let unused = EntryFacts { is_dir: true, package_main: Some("x".into()), ..facts("/a") };
    let e = choose_entrypoint(Some(unused), "/cwd", true).unwrap_err();
    assert_eq!(e, GenerateError::NoEntrypoint);
    assert_eq!(e.message(), "failed to determine entrypoint");
    assert!(choose_entrypoint(Some(facts("/gone")), "/cwd", true).is_err());
    assert!(matches!(choose_entrypoint(None, "/cwd", true), Ok(CreateGraphArgs::Code(p)) if p == "/src/index.ts"));
    let e = choose_entrypoint(None, "/cwd", false).unwrap_err();
    assert_eq!(e.message(), "entrypoint or module code must be specified");
}

fn inputs(contents: VfsContents) -> ArchiveInputs {
    ArchiveInputs {
        entry_key: "main.ts".to_string(),
        checksum: None,
        npm: NpmState::Managed {
            has_packages: false,
            node_modules_dir: None,
        },
        contents,
        scopes: vec![],
        import_map: None,
        workspace: ResolverFacts {
            jsr_packages: vec![],
            package_files: vec![],
            package_json_deps: PackageJsonDeps::Enabled,
        },
        statics: None,
    }
}

fn a_match(k: &str, is_file: bool, content: &[u8]) -> StaticMatch {
    StaticMatch {
        relative_key: k.to_string(),
        is_file,
        content: content.to_vec(),
    }
}

#[test]
fn an_archive_starts_with_its_version() {
    let mut c = VfsContents::new();
    assert_eq!(c.insert(vec![7]), "vfs://0");
    for n in 1..12 {
        assert_eq!(c.insert(vec![n]), format!("vfs://{n}"));
    }
    let archive = generate_binary_eszip(ArchiveInputs {
        checksum: Some(Checksum::Sha256),
        npm: NpmState::Managed {
            has_packages: true,
            node_modules_dir: Some("node_modules/".to_string()),
        },
        scopes: vec![NpmScope {
            name: "s".to_string(),
            registry: "http://host:1/r/".to_string(),
        }],
        import_map: Some(ImportMapFacts {
            scheme: "https".to_string(),
            key: "x".to_string(),
            json: "{}".to_string(),
        }),
        workspace: ResolverFacts {
            jsr_packages: vec![WorkspacePackage {
                relative_base: "lib/".to_string(),
                name: "@me/lib".to_string(),
                version: Some("1.2.3".to_string()),
                exports: vec![(".".to_string(), "./mod.ts".to_string())],
            }],
            package_files: vec![PackageFile {
                key: "package.json".to_string(),
                json: "{\"name\":\"me\"}".to_string(),
            }],
            package_json_deps: PackageJsonDeps::Disabled,
        },
        statics: Some(vec![a_match("a.md", true, b"A"), a_match("d", false, b"")]),
        ..inputs(c)
    });
    let items = &archive.items;
    assert_eq!(items[0].specifier, "---FLOW-ESZIP-VERSION-ESZIP---");
    assert_eq!(items[0].content, b"2.0");
    assert_eq!((items[1].specifier.as_str(), items[1].content.as_slice()), ("vfs://0", &[7][..]));
    assert_eq!(items[12].specifier, "vfs://11");
    assert_eq!((items[13].specifier.as_str(), items[13].content.as_slice()), ("static:a.md", &b"A"[..]));
    assert_eq!(items.len(), 14);
    assert_eq!(archive.checksum, Some(Checksum::Sha256));
    assert!(archive.keeps_snapshot);
    let m = &archive.metadata;
    assert_eq!(m.entrypoint, "main.ts");
    assert_eq!(m.npmrc_scopes[0].registry, "https://localhost/r/");
    assert!(matches!(
        &m.node_modules,
        Some(NodeModules::Managed { node_modules_dir: Some(d) }) if d == "node_modules/"
    ));
    assert_eq!(m.import_map.as_ref().unwrap().specifier, "deno.json");
    assert_eq!(m.static_asset_specifiers, ["static:a.md"]);
    let lib = &m.workspace.jsr_packages[0];
    assert_eq!((lib.relative_base.as_str(), lib.name.as_str()), ("lib/", "@me/lib"));
    assert_eq!(lib.version.as_deref(), Some("1.2.3"));
    assert_eq!(lib.exports, [(".".to_string(), "./mod.ts".to_string())]);
    let package = &m.workspace.package_files[0];
    assert_eq!((package.key.as_str(), package.json.as_str()), ("package.json", "{\"name\":\"me\"}"));
    assert_eq!(m.workspace.package_json_deps, PackageJsonDeps::Disabled);

    let mut lazy = LazyLoadableEszip::new(Some(9));
    assert!(lazy.ensure_version(Some(items[0].content.clone())).is_ok());
    let e = lazy.ensure_version(Some(b"1.1".to_vec())).unwrap_err();
    assert_eq!(e.found.unwrap(), b"1.1");
    assert!(lazy.ensure_version(Some(b"2.0.1".to_vec())).is_err());
    assert!(lazy.ensure_version(None).unwrap_err().found.is_none());
    assert!(lazy.ensure_data(Some(ModuleKind::Json)) && !lazy.ensure_data(None));
    assert_eq!(lazy.ensure_read_all(), Some(9));
    assert_eq!(lazy.ensure_read_all(), None);
    assert!(!lazy.ensure_data(Some(ModuleKind::Json)));
    assert!(!lazy.migrated());
    lazy.set_migrated(true);
    assert!(lazy.migrated());
}

#[test]
fn packages_are_recorded_as_they_are_kept() {
    let none = npm_plan(NpmState::Managed {
        has_packages: false,
        node_modules_dir: Some("x".to_string()),
    });
    assert!(none.node_modules.is_none() && !none.keeps_snapshot && !none.embeds_packages);
    let own = npm_plan(NpmState::Byonm {
        root_node_modules_dir: Some("nm".to_string()),
    });
    assert!(matches!(
        own.node_modules,
        Some(NodeModules::Byonm { root_node_modules_dir: Some(d) }) if d == "nm"
    ));
    assert!(!own.keeps_snapshot && own.embeds_packages);
    let archive = generate_binary_eszip(ArchiveInputs {
        import_map: Some(ImportMapFacts {
            scheme: "file".to_string(),
            key: "a/import_map.json".to_string(),
            json: "{}".to_string(),
        }),
        ..inputs(VfsContents::new())
    });
    assert_eq!(archive.items.len(), 1);
    assert_eq!(archive.metadata.import_map.unwrap().specifier, "a/import_map.json");
    assert!(archive.metadata.node_modules.is_none());
    assert!(archive.metadata.static_asset_specifiers.is_empty());
    assert_eq!(entry_specifier("/a b/main.ts"), "file:///a%20b/main.ts");
    assert_eq!(entry_specifier("main.ts"), "http://localhost");
    assert_eq!(CreateGraphArgs::Code("/src/index.ts".to_string()).path(), "/src/index.ts");
}

#[test]
fn registries_move_to_localhost() {
    assert_eq!(
        archive_registry("http://npm.example.com:4873/path/").unwrap(),
        "https://localhost/path/"
    );
    assert_eq!(archive_registry("https://npm.example.com/a").unwrap(), "https://localhost/a");
    assert_eq!(archive_registry("http://npm.example.com:4873/").unwrap(), "https://localhost/");
    assert!(archive_registry("https://registry.npmjs.org/").is_none());
    assert!(archive_registry("ftp://x/y").is_none());
    assert!(archive_registry("nonsense").is_none());
    assert!(needs_archive_entry("http", Some(1), "/"));
    assert!(!needs_archive_entry("http", None, "/"));
    assert!(!needs_archive_entry("file", None, "/x"));
    let scope = |n: &str, r: &str| NpmScope {
        name: n.to_string(),
        registry: r.to_string(),
    };
    let out = archive_scopes(&vec![
        scope("a", "https://registry.npmjs.org/"),
        scope("b", "https://host/b/"),
    ]);
    assert_eq!(out.len(), 1);
    assert_eq!((out[0].name.as_str(), out[0].registry.as_str()), ("b", "https://localhost/b/"));
}

#[test]
fn what_of_the_graph_goes_into_the_archive() {
    let js = |emittable| GraphModuleKind::Js { emittable };
    assert_eq!(vfs_source("file", js(true)), VfsSource::Emitted);
    assert_eq!(vfs_source("file", js(false)), VfsSource::Original);
    assert_eq!(vfs_source("file", GraphModuleKind::Json), VfsSource::Original);
    assert_eq!(vfs_source("file", GraphModuleKind::Npm), VfsSource::FromDisk);
    assert_eq!(vfs_source("https", js(true)), VfsSource::MustCompile);
    assert_eq!(vfs_source("https", GraphModuleKind::Wasm), VfsSource::Skip);
    assert_eq!(vfs_source("data", js(true)), VfsSource::Skip);
    let mut items = vec![];
    assert_eq!(
        include_glob_patterns_in_eszip(
            &vec![a_match("a.md", true, b"1"), a_match("dir", false, b""), a_match("b.md", true, b"2")],
            &mut items
        ),
        ["static:a.md", "static:b.md"]
    );
    assert_eq!(items.len(), 2);
    assert_eq!(items[1].content, b"2");
    let lazy = LazyLoadableEszip::<u8>::new(None);
    let (js, jsonc) = (Some(ModuleKind::JavaScript), Some(ModuleKind::Jsonc));
    assert_eq!((lazy.ensure_module(js), lazy.ensure_module(jsonc)), (js, None));
    assert_eq!((lazy.ensure_import_map(js), lazy.ensure_import_map(jsonc)), (None, jsonc));
    assert_eq!(lazy.ensure_module(None), None);
}

#[test]
fn graph_modules_enter_the_file_system_beside_kept_packages() {
    let file = |specifier: &str, scheme: &str, kind| GraphFile {
        specifier: specifier.to_string(),
        scheme: scheme.to_string(),
        kind,
    };
    let js = GraphModuleKind::Js { emittable: true };
    let files = vec![
        file("data:,x", "data", js),
        file("file:///a.ts", "file", js),
        file("https://h/b.ts", "https", js),
        file("https://h/c.json", "https", GraphModuleKind::Json),
        file("file:///d.json", "file", GraphModuleKind::Json),
    ];
    assert!(graph_vfs_steps(false, &files).is_empty());
    let steps = graph_vfs_steps(true, &files);
    let steps: Vec<_> = steps.iter().map(|s| (s.specifier.as_str(), s.source)).collect();
    assert_eq!(
        steps,
        [
            ("file:///a.ts", VfsSource::Emitted),
            ("https://h/b.ts", VfsSource::MustCompile),
            ("file:///d.json", VfsSource::Original),
        ]
    );
}

#[test]
fn plain_paths_are_those_of_the_pattern() {
    let re = regex::Regex::new(r"^[^/]+(?:/[^/]+)*$").unwrap();
    let candidates = [
        "", "/", "a", "a/b", "/a", "a/", "a//b", "a/b/c", "ä/ö", "a b/c", "a\nb/c", "a\n", "\n",
        "./a", "../a", ".", "//", "a/./b", "\\a",
    ];
    for c in candidates {
        let picked = !extract_file_specifiers(&texts(&[c])).is_empty();
        assert_eq!(picked, re.is_match(c), "{c:?}");
    }
}

#[test]
fn bundles_are_made_from_their_entry() {
    let request = |has_code, exclude: &[&str]| BundleRequest {
        entry: None,
        cwd: "/cwd".to_string(),
        has_code,
        checksum: Some(Checksum::XxHash3),
        exclude: texts(exclude),
    };
    let graph = || ModuleGraph {
        known: texts(&["file:///src/index.ts", "file:///src/gen.ts"]),
        modules: vec![],
    };
    assert_eq!(
        Bundling::begin(request(false, &[])).unwrap_err(),
        GenerateError::NothingToBundle
    );
    let (mut b, start) = Bundling::begin(request(true, &["file:///src/gen.ts"])).unwrap();
    assert_eq!(start.path(), "/src/index.ts");
    assert_eq!(b.graph_created(graph(), start.path()), "file:///src/index.ts");
    let (archive, exclusion) = b.finish(inputs(VfsContents::new())).unwrap();
    assert_eq!(archive.checksum, Some(Checksum::XxHash3));
    assert_eq!(archive.metadata.entrypoint, "main.ts");
    assert_eq!(exclusion.unwrap().urls, ["file:///src/gen.ts"]);
    let (mut b, _) = Bundling::begin(request(true, &["[", "***"])).unwrap();
    assert_eq!(b.graph_created(graph(), "relative"), "http://localhost");
    let e = b.finish(inputs(VfsContents::new())).err().unwrap();
    assert_eq!(e.message(), "invalid exclude glob: [");
}

#[test]
fn static_files_have_urls() {
    assert_eq!(static_match_url("/a b/c.md").unwrap(), "file:///a%20b/c.md");
    assert_eq!(
        static_match_url("c.md").unwrap_err().message(),
        "failed to convert to file path from url"
    );
}

#[test]
fn refused_archives_say_what_comes_first() {
    let link = |name: &str| VfsEntry::Symlink {
        name: name.to_string(),
    };
    let dir = |entries| VfsEntry::Dir {
        name: "d".to_string(),
        entries,
    };
    let root = dir(vec![dir(vec![link("first")]), link("second")]);
    let open = EszipEntryReader::open(true, Some(root), &vec![]);
    assert!(matches!(open, Err(OpenError::Symlink(s)) if s == "first"));
    let specifiers = texts(&["file:///a/m.ts", "static:ok", "static://[x", "static://[y"]);
    let plan = plan_entries(&specifiers);
    assert!(matches!(plan, Err(OpenError::InvalidStaticAsset(s)) if s == "static://[x"));
}
