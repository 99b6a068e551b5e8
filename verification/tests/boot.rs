use flow_edge::deno_options::{CacheSetting, TypeCheckMode};
use flow_edge::flow_config::RuntimeCells;
use flow_edge::runtime::assemble::{start_path, BaseFs, Boot, BootAction, BootEvent};
use flow_edge::runtime::boot::{
    build_settings, get_runtime_context, BootError, BootRequest, DenoRuntime, Entrypoint,
    MainModule, RuntimeContext,
};
use flow_edge::runtime::mounts::MountKind;

fn request() -> BootRequest {
    BootRequest {
        directory: "/srv/fn".to_string(),
        has_archive: false,
        entrypoint: None,
        has_module_code: false,
        no_module_cache: false,
        no_npm: None,
        import_map_path: None,
        unstable_sloppy_imports: None,
        allow_remote_modules: true,
        static_patterns: vec![],
        has_inspector: false,
        cells: RuntimeCells {
            disable_deprecated_api_warning: None,
            verbose_deprecated_api_warning: None,
            include_malloced_memory: None,
            default_memory_limit_mib: None,
        },
        source_map: None,
        allow_host_fs_access: None,
        restrict_host_fs: false,
        key: None,
        has_parent_port: false,
        cpu_time_hard_limit_ms: 0,
        cpu_share_ms: None,
        memory_share_bytes: None,
        s3_mounts: vec![],
        http_mounts: vec![],
    }
}

fn archived() -> BootRequest {
    BootRequest {
        has_archive: true,
        ..request()
    }
}

fn loaded(base_url: &str, key: Option<&str>) -> BootEvent {
    BootEvent::LoaderCreated {
        base_url: base_url.to_string(),
        entrypoint: key.map(|k| Entrypoint::Key(k.to_string())),
        migrated: false,
    }
}

fn failure(action: BootAction) -> String {
    match action {
        BootAction::Fail(e) => e.message("parser"),
        other => panic!("{other:?}"),
    }
}

/// A runtime whose loader is about to be created.
fn at_loader(request: BootRequest) -> Boot {
    let (boot, action) = DenoRuntime::new(request);
    assert!(matches!(action, BootAction::CreateLoader { .. }));
    boot
}

#[test]
fn a_runtime_is_put_together_step_by_step() {
    let (mut boot, action) = DenoRuntime::new(BootRequest {
        s3_mounts: vec!["/s3".to_string()],
        http_mounts: vec!["/http".to_string()],
        ..request()
    });
    match action {
        BootAction::LookForIndex(files) => assert_eq!(
            files,
            [
                "/srv/fn/index.ts",
                "/srv/fn/index.tsx",
                "/srv/fn/index.js",
                "/srv/fn/index.mjs",
                "/srv/fn/index.jsx"
            ]
        ),
        other => panic!("{other:?}"),
    }
    match boot.step(BootEvent::IndexFound(vec![false, false, true, true, false])) {
        BootAction::MakeOptions { main: MainModule::Index(name), .. } => {
            assert_eq!(name, "index.js")
        }
        other => panic!("{other:?}"),
    }
    let options = BootEvent::OptionsMade {
        package_has_main: false,
    };
    assert!(matches!(boot.step(options), BootAction::MakeArchive { from_code: false }));
    assert!(matches!(
        boot.step(BootEvent::ArchiveMade),
        BootAction::CreateLoader {
            include_source_map: false,
            disable_fs_fallback: true,
            import_map_path: None,
            service_path
        } if service_path == "/srv/fn"
    ));
    match boot.step(loaded("file:///root/", Some("src/index.js"))) {
        BootAction::BuildBase {
            static_root: None,
            base:
                BaseFs::Static {
                    compile_base_dir,
                    compile_root,
                    source_root,
                },
        } => {
            assert_eq!(compile_base_dir.bytes(), b"/root/src");
            assert_eq!(compile_root.bytes(), b"/root/");
            assert_eq!(source_root.as_deref(), Some("/srv"));
        }
        other => panic!("{other:?}"),
    }
    match boot.step(BootEvent::BaseBuilt) {
        BootAction::AddMount { kind, mount_point, check_sync_api } => {
            assert_eq!((kind, mount_point.as_str()), (MountKind::S3, "/s3"));
            assert!(check_sync_api);
        }
        other => panic!("{other:?}"),
    }
    match boot.step(BootEvent::MountAdded) {
        BootAction::AddMount { kind, mount_point, check_sync_api } => {
            assert_eq!((kind, mount_point.as_str()), (MountKind::Http, "/http"));
            assert!(!check_sync_api);
        }
        other => panic!("{other:?}"),
    }
    assert!(matches!(
        boot.step(BootEvent::MountAdded),
        BootAction::CreateEngine { virtual_fs: true, .. }
    ));
    match boot.step(BootEvent::EngineCreated) {
        BootAction::Done(runtime) => {
            assert_eq!(runtime.main_module_url(), "file:///root/src/index.js");
            assert!(matches!(runtime.entrypoint, Some(Entrypoint::Key(k)) if k == "src/index.js"));
        }
        other => panic!("{other:?}"),
    }
}

#[test]
fn builds_start_at_the_entry_point_or_the_code() {
    let (_, action) = DenoRuntime::new(BootRequest {
        entrypoint: Some("main.ts".to_string()),
        has_module_code: true,
        ..request()
    });
    assert!(matches!(
        action,
        BootAction::MakeOptions { main: MainModule::Url(u), .. } if u == "file:///srv/fn/main.ts"
    ));
    let (mut boot, action) = DenoRuntime::new(BootRequest {
        has_module_code: true,
        ..request()
    });
    assert!(matches!(action, BootAction::MakeOptions { main: MainModule::Code, .. }));
    let options = BootEvent::OptionsMade {
        package_has_main: false,
    };
    assert!(matches!(boot.step(options), BootAction::MakeArchive { from_code: true }));
    let (mut boot, _) = DenoRuntime::new(request());
    assert!(matches!(
        boot.step(BootEvent::IndexFound(vec![false; 5])),
        BootAction::MakeOptions { main: MainModule::Directory, .. }
    ));
    let options = BootEvent::OptionsMade {
        package_has_main: false,
    };
    assert_eq!(failure(boot.step(options)), "could not find an appropriate entrypoint");
    let (_, action) = DenoRuntime::new(BootRequest {
        directory: "srv".to_string(),
        ..request()
    });
    assert_eq!(failure(action), "malformed base directory: srv");
}

#[test]
fn the_host_is_seen_only_where_it_may_be() {
    let open = BootRequest {
        allow_host_fs_access: Some(true),
        ..archived()
    };
    let mut boot = at_loader(open);
    match boot.step(loaded("file:///root/", Some("m.ts"))) {
        BootAction::BuildBase { base, .. } => assert!(matches!(base, BaseFs::Compiled)),
        other => panic!("{other:?}"),
    }
    assert!(matches!(
        boot.step(BootEvent::BaseBuilt),
        BootAction::CreateEngine { virtual_fs: false, .. }
    ));
    let (_, action) = DenoRuntime::new(BootRequest {
        allow_host_fs_access: Some(true),
        restrict_host_fs: true,
        ..archived()
    });
    assert_eq!(
        failure(action),
        "allowHostFsAccess cannot be enabled when restrict_host_fs is set"
    );
}

#[test]
fn main_modules_of_archives_are_found() {
    let asked = |e: &str| BootRequest {
        entrypoint: Some(e.to_string()),
        ..archived()
    };
    let mut boot = at_loader(asked("file:///elsewhere/a/main.ts"));
    match boot.step(loaded("file:///root/", None)) {
        BootAction::BuildBase {
            static_root,
            base: BaseFs::Static {
                compile_base_dir, ..
            },
        } => {
            assert_eq!(static_root.unwrap().bytes(), b"/elsewhere/a");
            assert_eq!(compile_base_dir.bytes(), b"/root/");
        }
        other => panic!("{other:?}"),
    }
    assert_eq!(boot.main_module_url, "file:///elsewhere/a/main.ts");
    let fails = |request, base: &str, key| failure(at_loader(request).step(loaded(base, key)));
    assert_eq!(fails(archived(), "file:///root/", None), "could not find entrypoint key");
    assert_eq!(fails(asked("main.ts"), "file:///root/", None), "parser");
    assert_eq!(fails(archived(), "file:///root/", Some("http://[")), "parser");
    assert_eq!(
        fails(asked("https://host/m.ts"), "file:///root/", None),
        "failed to convert entrypoint to path"
    );
    assert_eq!(
        fails(asked("file:///"), "file:///root/", None),
        "could not resolve parent of entrypoint"
    );
    assert_eq!(
        fails(archived(), "https://host/", Some("m.ts")),
        "failed to resolve base dir using main module url"
    );
    assert_eq!(
        fails(archived(), "https://host/", Some("file:///m.ts")),
        "failed to resolve compile root"
    );
}

#[test]
fn mount_points_are_checked_one_by_one() {
    let mut boot = at_loader(BootRequest {
        s3_mounts: vec!["/s3".to_string()],
        http_mounts: vec!["/s3/inner".to_string()],
        ..archived()
    });
    boot.step(loaded("file:///root/", Some("m.ts")));
    assert!(matches!(boot.step(BootEvent::BaseBuilt), BootAction::AddMount { .. }));
    let action = boot.step(BootEvent::MountAdded);
    assert!(matches!(action, BootAction::Fail(BootError::Mount(_))));
    assert_eq!(
        failure(action),
        "invalid mount point '/s3/inner': conflicts with mount point '/s3'"
    );
}

#[test]
fn builds_start_at_paths() {
    let path = |main| start_path(&main, "/srv");
    let bytes = |main| path(main).unwrap().unwrap().bytes();
    let url = |u: &str| MainModule::Url(u.to_string());
    assert!(matches!(path(MainModule::Code), Ok(None)));
    assert_eq!(bytes(url("file:///a%20b.ts")), b"/a b.ts");
    assert_eq!(bytes(url("file:///a%FFb.ts")), b"/a\xffb.ts");
    assert!(path(url("https://host/a.ts")).is_err());
    assert_eq!(bytes(MainModule::Index("index.ts".to_string())), b"/srv/index.ts");
    assert_eq!(bytes(MainModule::Directory), b"/srv");
}

#[test]
fn main_modules_may_lie_at_paths_that_are_no_text() {
    let mut boot = at_loader(BootRequest {
        entrypoint: Some("file:///a%FF/main.ts".to_string()),
        ..archived()
    });
    match boot.step(loaded("file:///r%FE/", None)) {
        BootAction::BuildBase {
            static_root,
            base: BaseFs::Static { compile_base_dir, compile_root, .. },
        } => {
            assert_eq!(static_root.unwrap().bytes(), b"/a\xff");
            assert_eq!(compile_base_dir.bytes(), b"/r\xfe/");
            assert_eq!(compile_root.bytes(), b"/r\xfe/");
        }
        other => panic!("{other:?}"),
    }
}

#[test]
fn builds_are_made_as_asked() {
    let asked = || BootRequest {
        has_module_code: true,
        no_module_cache: true,
        no_npm: Some(true),
        import_map_path: Some("/m.json".to_string()),
        unstable_sloppy_imports: Some(false),
        allow_remote_modules: false,
        static_patterns: vec!["*.md".to_string()],
        ..request()
    };
    let (_, action) = DenoRuntime::new(asked());
    match action {
        BootAction::MakeOptions { settings, .. } => {
            assert_eq!(settings.type_check_mode, TypeCheckMode::Local);
            assert_eq!(settings.cache, CacheSetting::ReloadAll);
            assert_eq!(settings.no_npm, Some(true));
            assert_eq!(settings.import_map_path.as_deref(), Some("/m.json"));
            assert_eq!(settings.unstable_sloppy_imports, Some(false));
            assert!(!settings.allow_remote);
            assert_eq!(settings.static_patterns, ["*.md"]);
            assert_eq!(settings.checksum, None);
        }
        other => panic!("{other:?}"),
    }
    let settings = build_settings(&request());
    assert_eq!(settings.cache, CacheSetting::Use);
    assert_eq!((settings.no_npm, settings.unstable_sloppy_imports), (None, None));
    assert!(settings.import_map_path.is_none() && settings.allow_remote);
    let (_, action) = DenoRuntime::new(BootRequest {
        has_archive: true,
        ..asked()
    });
    assert!(matches!(
        action,
        BootAction::CreateLoader { import_map_path: Some(p), .. } if p == "/m.json"
    ));
}

#[test]
fn runtimes_are_told_of_themselves() {
    let mut boot = at_loader(BootRequest {
        has_inspector: true,
        cells: RuntimeCells {
            disable_deprecated_api_warning: Some(true),
            verbose_deprecated_api_warning: Some(false),
            include_malloced_memory: None,
            default_memory_limit_mib: None,
        },
        ..archived()
    });
    boot.step(BootEvent::LoaderCreated {
        base_url: "file:///root/".to_string(),
        entrypoint: Some(Entrypoint::Key("m.ts".to_string())),
        migrated: true,
    });
    match boot.step(BootEvent::BaseBuilt) {
        BootAction::CreateEngine { context, .. } => assert_eq!(
            context,
            RuntimeContext {
                inspector: true,
                migrated: true,
                disable_deprecated_api_warning: true,
                verbose_deprecated_api_warning: false,
            }
        ),
        other => panic!("{other:?}"),
    }
    let quiet = get_runtime_context(false, false, &request().cells);
    assert!(!quiet.inspector && !quiet.migrated);
    assert!(!quiet.disable_deprecated_api_warning && !quiet.verbose_deprecated_api_warning);
}

#[test]
fn the_plan_stays_once_it_is_made() {
    let mut boot = at_loader(BootRequest {
        key: Some("k".to_string()),
        ..archived()
    });
    boot.step(loaded("file:///root/", Some("m.ts")));
    boot.step(BootEvent::BaseBuilt);
    let id = boot.plan.as_ref().unwrap().execution_id.clone();
    assert!(matches!(boot.step(BootEvent::EngineCreated), BootAction::Done(_)));
    assert_eq!(boot.plan.unwrap().execution_id, id);
    assert_eq!(id, "k");
}
