use flow_edge::deno_options::{
    env_file_order, has_flag_env_var, CacheSetting, ConfigMode, DenoOptions, DenoOptionsBuilder,
    EnvFileFault, NodeModulesDirMode, TypeCheckMode, VendorOverride, WorkspaceFacts,
    WorkspaceStart,
};
use flow_edge::emitter::EmitterFactory;
use flow_edge::flow_config::{resolve_runtime_env_cells, RuntimeCells, RuntimeEnv};
use flow_edge::worker::start::{get_default_permissions, WorkerKind};
use flow_edge::embed::{
    apply_arg_filter, build_main_worker_extensions, has_main_worker_extensions, help_section,
    register_arg_filter, register_help_section, register_main_worker_extensions,
    register_main_worker_post_bootstrap, register_shared_array_buffer_store,
    run_main_worker_post_bootstrap, shared_array_buffer_store, Slot,
};
use flow_edge::permissions::RuntimePermissionDescriptorParser;
use flow_edge::snapshot::snapshot;

#[test]
fn workspaces_start_at_the_entry_point() {
    let b = DenoOptionsBuilder::new().entrypoint("src/main.ts".to_string());
    let p = DenoOptions::from_builder(&b, false, "/cwd", None).unwrap();
    assert!(matches!(p.start, WorkspaceStart::Discover(d) if d == "/cwd/src"));
    assert!(p.discover_pkg_json);
    assert_eq!(p.vendor, None);
    let p = DenoOptions::from_builder(&b, true, "/cwd", Some("1")).unwrap();
    assert!(matches!(p.start, WorkspaceStart::Discover(d) if d == "/cwd/src/main.ts"));
    assert!(!p.discover_pkg_json);

    let mut b = b.config(ConfigMode::Path("deno.json".to_string()));
    b.set_vendor(Some(true));
    b.set_no_npm(Some(true));
    let p = DenoOptions::from_builder(&b, false, "/cwd", None).unwrap();
    assert!(matches!(p.start, WorkspaceStart::ConfigFile(d) if d == "/cwd/deno.json"));
    assert_eq!(p.vendor, Some(VendorOverride::Enable));
    assert!(!p.discover_pkg_json);

    b.set_config(Some(ConfigMode::Disabled));
    b.set_no_npm(None);
    let p = DenoOptions::from_builder(&b, false, "/cwd", None).unwrap();
    assert!(matches!(p.start, WorkspaceStart::Empty) && !p.discover_pkg_json);

    b.set_entrypoint(None);
    b.set_config(None);
    let p = DenoOptions::from_builder(&b, false, "/cwd", Some("0")).unwrap();
    assert!(matches!(p.start, WorkspaceStart::Empty) && p.discover_pkg_json);

    b.set_entrypoint(Some("/".to_string()));
    assert!(DenoOptions::from_builder(&b, false, "/cwd", None).is_err());
    assert!(matches!(ConfigMode::default(), ConfigMode::Disabled));
}

#[test]
fn options_are_collected() {
    let mut b = DenoOptionsBuilder::new()
        .type_check_mode(TypeCheckMode::Local)
        .import_map_path("im.json".to_string());
    assert_eq!(b.use_byonm, None);
    b.set_use_byonm(Some(false));
    assert_eq!(b.use_byonm, Some(false));
    assert_eq!(b.import_map_path.as_deref(), Some("im.json"));
    let mut e = EmitterFactory::new();
    assert_eq!(e.cli_factory().unwrap_err().message(), "options must be specified");
    assert!(e.deno_options().is_err());
    e.set_deno_options(options(b, None, false, false));
    e.set_cache_strategy(Some(CacheSetting::ReloadAll));
    e.set_file_fetcher_allow_remote(false);
    let f = e.cli_factory().unwrap();
    assert_eq!(f.script, "");
    assert!(f.reload && !f.cached_only && f.no_remote && !f.no_npm);
    let b = DenoOptionsBuilder::new().entrypoint("m.ts".to_string()).no_npm(true);
    let mut e = EmitterFactory::new();
    e.set_deno_options(options(b, Some(NodeModulesDirMode::Manual), false, false));
    e.set_cache_strategy(Some(CacheSetting::Only));
    let f = e.cli_factory().unwrap();
    assert_eq!(f.script, "m.ts");
    assert_eq!(f.node_modules_dir, Some(NodeModulesDirMode::Manual));
    assert!(!f.reload && f.cached_only && !f.no_remote && f.no_npm);
    assert!(e.permissions_options().is_none());
    e.set_permissions_options(Some(get_default_permissions(WorkerKind::MainWorker)));
    assert!(e.permissions_options().is_some());
}

fn options(
    builder: DenoOptionsBuilder,
    node_modules_dir: Option<NodeModulesDirMode>,
    has_folder: bool,
    has_package_json: bool,
) -> DenoOptions {
    DenoOptions {
        initial_cwd: "/cwd".to_string(),
        maybe_node_modules_folder: has_folder.then_some("/cwd/node_modules".to_string()),
        workspace: WorkspaceFacts {
            node_modules_dir,
            has_sloppy_imports: true,
            has_package_json,
            vendor_dir_path: None,
        },
        builder,
    }
}

#[test]
fn options_have_their_defaults() {
    let o = options(DenoOptionsBuilder::new(), None, false, true);
    assert_eq!(o.initial_cwd(), "/cwd");
    assert!(o.entrypoint().is_none() && o.node_modules_dir_path().is_none());
    assert!(o.vendor_dir_path().is_none() && o.node_modules_dir().is_none());
    assert!(o.unstable_sloppy_imports() && !o.unstable_detect_cjs());
    assert!(o.detect_cjs() && !o.no_npm() && !o.is_node_main() && !o.check_js());
    assert_eq!(o.type_check_mode(), TypeCheckMode::Off);
    let b = DenoOptionsBuilder::new()
        .unstable_sloppy_imports(false)
        .type_check_mode(TypeCheckMode::Local);
    let o = options(b, None, false, false);
    assert!(!o.unstable_sloppy_imports() && !o.detect_cjs());
    assert_eq!(o.type_check_mode(), TypeCheckMode::Local);
}

#[test]
fn packages_kept_by_the_user_are_detected() {
    let use_byonm = |mode, folder, package| {
        options(DenoOptionsBuilder::new(), mode, folder, package).use_byonm()
    };
    assert!(use_byonm(None, true, true));
    assert!(!use_byonm(None, true, false));
    assert!(!use_byonm(None, false, true));
    assert!(use_byonm(Some(NodeModulesDirMode::Manual), false, false));
    assert!(!use_byonm(Some(NodeModulesDirMode::Auto), true, true));
    assert!(has_flag_env_var(Some("1")));
    assert!(!has_flag_env_var(Some("true")) && !has_flag_env_var(None));
}

#[test]
fn environment_files_are_loaded_last_first() {
    let names: Vec<String> = ["a", "b", "c"].iter().map(|s| s.to_string()).collect();
    assert_eq!(env_file_order(&names), ["c", "b", "a"]);
    assert!(env_file_order(&vec![]).is_empty());
    let e = EnvFileFault::LineParse {
        line: "A=B C".to_string(),
        index: 3,
    };
    assert_eq!(
        e.message(".env"),
        "Warning Parsing failed within the specified environment file: .env at index: 3 of the \
         value: A=B C"
    );
    assert_eq!(
        EnvFileFault::NotFound.message(".env"),
        "Warning The `--env-file` flag was used, but the environment file specified '.env' was \
         not found."
    );
    assert_eq!(
        EnvFileFault::Variable.message(".env"),
        "Warning One or more of the environment variables isn't present or not unicode within \
         the specified environment file: .env"
    );
    assert_eq!(
        EnvFileFault::Unknown.message(".env"),
        "Warning Unknown failure occurred with the specified environment file: .env"
    );
}

#[test]
fn relative_descriptors_count_from_the_worker() {
    let p = RuntimePermissionDescriptorParser::new(Some("/srv/w".to_string()));
    assert_eq!(p.resolve_relative("data/x"), "/srv/w/data/x");
    assert_eq!(p.resolve_relative("/etc"), "/etc");
    assert_eq!(p.resolve_cwd(Some("/proc".to_string())).unwrap(), "/srv/w");
    assert!(p.check_text("").is_err());
    assert!(p.check_text("HOME").is_ok());
    let p = RuntimePermissionDescriptorParser::new(None);
    assert_eq!(p.resolve_relative("data/x"), "data/x");
    assert_eq!(p.resolve_cwd(Some("/proc".to_string())).unwrap(), "/proc");
    assert!(p.resolve_cwd(None).is_none());
}

#[test]
fn registrations_happen_once() {
    let mut exts: Slot<fn() -> Vec<u8>> = Slot::new();
    assert!(!has_main_worker_extensions(&exts));
    assert!(build_main_worker_extensions(&exts).is_empty());
    register_main_worker_extensions(&mut exts, || vec![1, 2]);
    register_main_worker_extensions(&mut exts, || vec![3]);
    assert!(has_main_worker_extensions(&exts));
    assert_eq!(build_main_worker_extensions(&exts), [1, 2]);

    let mut help: Slot<fn() -> String> = Slot::new();
    assert_eq!(help_section(&help), None);
    register_help_section(&mut help, || "first".to_string());
    register_help_section(&mut help, || "second".to_string());
    assert_eq!(help_section(&help).as_deref(), Some("first"));

    let mut filter: Slot<fn(Vec<u8>) -> Vec<u8>> = Slot::new();
    assert_eq!(apply_arg_filter(&filter, vec![1, 2]), [1, 2]);
    register_arg_filter(&mut filter, |a| a.into_iter().filter(|x| *x > 1).collect());
    assert_eq!(apply_arg_filter(&filter, vec![1, 2]), [2]);

    let mut store: Slot<String> = Slot::new();
    assert_eq!(shared_array_buffer_store(&store, "fresh".to_string()), "fresh");
    register_shared_array_buffer_store(&mut store, "shared".to_string());
    assert_eq!(shared_array_buffer_store(&store, "fresh".to_string()), "shared");

    let mut hook: Slot<fn(u8) -> Result<(), String>> = Slot::new();
    assert_eq!(run_main_worker_post_bootstrap(&hook, 1), Ok(()));
    register_main_worker_post_bootstrap(&mut hook, |n| Err(format!("got {n}")));
    assert_eq!(run_main_worker_post_bootstrap(&hook, 7), Err("got 7".to_string()));
}

#[test]
fn there_is_no_snapshot() {
    assert!(snapshot().is_none());
}

#[test]
fn the_environment_sets_the_runtime() {
    let s = |t: &str| Some(t.to_string());
    let c = resolve_runtime_env_cells(&RuntimeEnv {
        no_deprecation_warnings: s("YES"),
        verbose_warnings: s("0"),
        include_malloced_memory: s(""),
        max_heap_size_mib: s("256"),
    });
    assert_eq!(
        c,
        RuntimeCells {
            disable_deprecated_api_warning: Some(true),
            verbose_deprecated_api_warning: Some(false),
            include_malloced_memory: None,
            default_memory_limit_mib: Some(256),
        }
    );
    let c = resolve_runtime_env_cells(&RuntimeEnv {
        no_deprecation_warnings: None,
        verbose_warnings: None,
        include_malloced_memory: s("on"),
        max_heap_size_mib: s("much"),
    });
    assert_eq!((c.include_malloced_memory, c.default_memory_limit_mib), (Some(true), None));
}
