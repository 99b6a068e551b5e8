//! The options that bundling and running share: how they are built, and how the workspace is found
//! from them.

use vstd::prelude::*;

use crate::paths::{
    components, join_path, joined, law_parent_drops_the_last_component, lemma_views_push, parent,
    parent_path, views,
};
use crate::text::{decimal, decimal_text, join, same};

verus! {

/// How the configuration file is found.
#[derive(Debug)]
pub enum ConfigMode {
    /// From the entry point upwards.
    Discover,
    /// At this path.
    Path(String),
    /// Not at all.
    Disabled,
}

impl Default for ConfigMode {
    fn default() -> (r: ConfigMode)
        ensures
            r is Disabled,
    {
        ConfigMode::Disabled
    }
}

/// How far types are checked.
#[derive(Debug, Clone, Copy, PartialEq, Eq, Structural)]
pub enum TypeCheckMode {
    Off,
    Local,
    All,
}

/// How the `node_modules` directory is kept.
#[derive(Debug, Clone, Copy, PartialEq, Eq, Structural)]
pub enum NodeModulesDirMode {
    Auto,
    Manual,
    Off,
}

/// Collects options.
#[derive(Debug)]
pub struct DenoOptionsBuilder {
    pub entrypoint: Option<String>,
    pub config: Option<ConfigMode>,
    pub type_check_mode: Option<TypeCheckMode>,
    pub unstable_detect_cjs: Option<bool>,
    pub unstable_sloppy_imports: Option<bool>,
    pub use_byonm: Option<bool>,
    pub vendor: Option<bool>,
    pub no_npm: Option<bool>,
    pub no_lock: Option<bool>,
    pub lock: Option<String>,
    pub node_modules_dir: Option<NodeModulesDirMode>,
    pub env_file: Option<Vec<String>>,
    pub frozen_lockfile: Option<bool>,
    pub force_global_cache: Option<bool>,
    pub import_map_path: Option<String>,
}

impl DenoOptionsBuilder {
    /// A builder with nothing set.
    pub fn new() -> (r: DenoOptionsBuilder)
        ensures
            r == (DenoOptionsBuilder {
                entrypoint: None,
                config: None,
                type_check_mode: None,
                unstable_detect_cjs: None,
                unstable_sloppy_imports: None,
                use_byonm: None,
                vendor: None,
                no_npm: None,
                no_lock: None,
                lock: None,
                node_modules_dir: None,
                env_file: None,
                frozen_lockfile: None,
                force_global_cache: None,
                import_map_path: None,
            }),
    {
        DenoOptionsBuilder {
            entrypoint: None,
            config: None,
            type_check_mode: None,
            unstable_detect_cjs: None,
            unstable_sloppy_imports: None,
            use_byonm: None,
            vendor: None,
            no_npm: None,
            no_lock: None,
            lock: None,
            node_modules_dir: None,
            env_file: None,
            frozen_lockfile: None,
            force_global_cache: None,
            import_map_path: None,
        }
    }

    pub fn entrypoint(self, value: String) -> (r: DenoOptionsBuilder)
        ensures
            r == (DenoOptionsBuilder { entrypoint: Some(value), ..self }),
    {
        let mut b = self;
        b.entrypoint = Some(value);
        b
    }

    pub fn set_entrypoint(&mut self, value: Option<String>)
        ensures
            *final(self) == (DenoOptionsBuilder { entrypoint: value, ..*old(self) }),
    {
        self.entrypoint = value;
    }

    pub fn config(self, value: ConfigMode) -> (r: DenoOptionsBuilder)
        ensures
            r == (DenoOptionsBuilder { config: Some(value), ..self }),
    {
        let mut b = self;
        b.config = Some(value);
        b
    }

    pub fn set_config(&mut self, value: Option<ConfigMode>)
        ensures
            *final(self) == (DenoOptionsBuilder { config: value, ..*old(self) }),
    {
        self.config = value;
    }

    pub fn set_type_check_mode(&mut self, value: Option<TypeCheckMode>)
        ensures
            *final(self) == (DenoOptionsBuilder { type_check_mode: value, ..*old(self) }),
    {
        self.type_check_mode = value;
    }

    pub fn set_unstable_detect_cjs(&mut self, value: Option<bool>)
        ensures
            *final(self) == (DenoOptionsBuilder { unstable_detect_cjs: value, ..*old(self) }),
    {
        self.unstable_detect_cjs = value;
    }

    pub fn set_unstable_sloppy_imports(&mut self, value: Option<bool>)
        ensures
            *final(self) == (DenoOptionsBuilder { unstable_sloppy_imports: value, ..*old(self) }),
    {
        self.unstable_sloppy_imports = value;
    }

    /// Sets whether CommonJS modules are detected.
    pub fn use_byonm(self, value: bool) -> (r: DenoOptionsBuilder)
        ensures
            r == (DenoOptionsBuilder { unstable_detect_cjs: Some(value), ..self }),
    {
        let mut b = self;
        b.unstable_detect_cjs = Some(value);
        b
    }

    pub fn set_use_byonm(&mut self, value: Option<bool>)
        ensures
            *final(self) == (DenoOptionsBuilder { use_byonm: value, ..*old(self) }),
    {
        self.use_byonm = value;
    }

    pub fn set_vendor(&mut self, value: Option<bool>)
        ensures
            *final(self) == (DenoOptionsBuilder { vendor: value, ..*old(self) }),
    {
        self.vendor = value;
    }

    pub fn set_no_npm(&mut self, value: Option<bool>)
        ensures
            *final(self) == (DenoOptionsBuilder { no_npm: value, ..*old(self) }),
    {
        self.no_npm = value;
    }

    pub fn set_env_file(&mut self, value: Option<Vec<String>>)
        ensures
            *final(self) == (DenoOptionsBuilder { env_file: value, ..*old(self) }),
    {
        self.env_file = value;
    }

    /// Sets whether the lockfile stays as it is.
    pub fn set_force_global_cache(&mut self, value: Option<bool>)
        ensures
            *final(self) == (DenoOptionsBuilder { frozen_lockfile: value, ..*old(self) }),
    {
        self.frozen_lockfile = value;
    }

    pub fn type_check_mode(self, value: TypeCheckMode) -> (r: DenoOptionsBuilder)
        ensures
            r == (DenoOptionsBuilder { type_check_mode: Some(value), ..self }),
    {
        let mut b = self;
        b.type_check_mode = Some(value);
        b
    }

    pub fn unstable_detect_cjs(self, value: bool) -> (r: DenoOptionsBuilder)
        ensures
            r == (DenoOptionsBuilder { unstable_detect_cjs: Some(value), ..self }),
    {
        let mut b = self;
        b.unstable_detect_cjs = Some(value);
        b
    }

    pub fn unstable_sloppy_imports(self, value: bool) -> (r: DenoOptionsBuilder)
        ensures
            r == (DenoOptionsBuilder { unstable_sloppy_imports: Some(value), ..self }),
    {
        let mut b = self;
        b.unstable_sloppy_imports = Some(value);
        b
    }

    pub fn vendor(self, value: bool) -> (r: DenoOptionsBuilder)
        ensures
            r == (DenoOptionsBuilder { vendor: Some(value), ..self }),
    {
        let mut b = self;
        b.vendor = Some(value);
        b
    }

    pub fn no_npm(self, value: bool) -> (r: DenoOptionsBuilder)
        ensures
            r == (DenoOptionsBuilder { no_npm: Some(value), ..self }),
    {
        let mut b = self;
        b.no_npm = Some(value);
        b
    }

    pub fn no_lock(self, value: bool) -> (r: DenoOptionsBuilder)
        ensures
            r == (DenoOptionsBuilder { no_lock: Some(value), ..self }),
    {
        let mut b = self;
        b.no_lock = Some(value);
        b
    }

    pub fn set_no_lock(&mut self, value: Option<bool>)
        ensures
            *final(self) == (DenoOptionsBuilder { no_lock: value, ..*old(self) }),
    {
        self.no_lock = value;
    }

    pub fn lock(self, value: String) -> (r: DenoOptionsBuilder)
        ensures
            r == (DenoOptionsBuilder { lock: Some(value), ..self }),
    {
        let mut b = self;
        b.lock = Some(value);
        b
    }

    pub fn set_lock(&mut self, value: Option<String>)
        ensures
            *final(self) == (DenoOptionsBuilder { lock: value, ..*old(self) }),
    {
        self.lock = value;
    }

    pub fn node_modules_dir(self, value: NodeModulesDirMode) -> (r: DenoOptionsBuilder)
        ensures
            r == (DenoOptionsBuilder { node_modules_dir: Some(value), ..self }),
    {
        let mut b = self;
        b.node_modules_dir = Some(value);
        b
    }

    pub fn set_node_modules_dir(&mut self, value: Option<NodeModulesDirMode>)
        ensures
            *final(self) == (DenoOptionsBuilder { node_modules_dir: value, ..*old(self) }),
    {
        self.node_modules_dir = value;
    }

    pub fn env_file(self, value: Vec<String>) -> (r: DenoOptionsBuilder)
        ensures
            r == (DenoOptionsBuilder { env_file: Some(value), ..self }),
    {
        let mut b = self;
        b.env_file = Some(value);
        b
    }

    pub fn frozen_lockfile(self, value: bool) -> (r: DenoOptionsBuilder)
        ensures
            r == (DenoOptionsBuilder { frozen_lockfile: Some(value), ..self }),
    {
        let mut b = self;
        b.frozen_lockfile = Some(value);
        b
    }

    pub fn set_frozen_lockfile(&mut self, value: Option<bool>)
        ensures
            *final(self) == (DenoOptionsBuilder { frozen_lockfile: value, ..*old(self) }),
    {
        self.frozen_lockfile = value;
    }

    pub fn force_global_cache(self, value: bool) -> (r: DenoOptionsBuilder)
        ensures
            r == (DenoOptionsBuilder { force_global_cache: Some(value), ..self }),
    {
        let mut b = self;
        b.force_global_cache = Some(value);
        b
    }

    pub fn import_map_path(self, value: String) -> (r: DenoOptionsBuilder)
        ensures
            r == (DenoOptionsBuilder { import_map_path: Some(value), ..self }),
    {
        let mut b = self;
        b.import_map_path = Some(value);
        b
    }

    pub fn set_import_map_path(&mut self, value: Option<String>)
        ensures
            *final(self) == (DenoOptionsBuilder { import_map_path: value, ..*old(self) }),
    {
        self.import_map_path = value;
    }
}

// ---------------------------------------------------------------------------
// The workspace
// ---------------------------------------------------------------------------

/// Where the workspace starts.
#[derive(Debug)]
pub enum WorkspaceStart {
    /// It is searched for from this path, which is still to be normalised.
    Discover(String),
    /// Its configuration file is this one, whose path is still to be normalised.
    ConfigFile(String),
    /// It is empty.
    Empty,
}

/// Whether packages are kept beside the sources.
#[derive(Debug, Clone, Copy, PartialEq, Eq, Structural)]
pub enum VendorOverride {
    Enable,
    Disable,
}

/// How the workspace is found.
#[derive(Debug)]
pub struct WorkspacePlan {
    pub start: WorkspaceStart,
    pub discover_pkg_json: bool,
    pub vendor: Option<VendorOverride>,
}

/// The entry point lies in no directory.
#[derive(Debug, Clone, Copy, PartialEq, Eq, Structural)]
pub struct NoParentDirectory;

/// Whether a variable switches something on: only `1` does.
pub fn has_flag_env_var(value: Option<&str>) -> (r: bool)
    ensures
        r == (value matches Some(v) && v@ == "1"@),
{
    match value {
        Some(v) => same(v, "1"),
        None => false,
    }
}

/// The directory that an entry point stands for: itself, or the one that it lies in.
pub open spec fn entry_directory(entrypoint: Seq<char>, is_dir: bool) -> Option<Seq<char>> {
    if is_dir {
        Some(entrypoint)
    } else {
        parent(entrypoint)
    }
}

/// Where the workspace starts.
pub open spec fn start_of(config: Option<ConfigMode>, directory: Option<Seq<char>>, cwd: Seq<char>)
    -> WorkspaceStartView {
    match directory {
        None => WorkspaceStartView::Empty,
        Some(d) => match config {
            None => WorkspaceStartView::Discover(joined(cwd, d)),
            Some(ConfigMode::Discover) => WorkspaceStartView::Discover(joined(cwd, d)),
            Some(ConfigMode::Path(p)) => WorkspaceStartView::ConfigFile(joined(cwd, p@)),
            Some(ConfigMode::Disabled) => WorkspaceStartView::Empty,
        },
    }
}

/// [`WorkspaceStart`], taken by view.
pub enum WorkspaceStartView {
    Discover(Seq<char>),
    ConfigFile(Seq<char>),
    Empty,
}

impl View for WorkspaceStart {
    type V = WorkspaceStartView;

    open spec fn view(&self) -> WorkspaceStartView {
        match self {
            WorkspaceStart::Discover(p) => WorkspaceStartView::Discover(p@),
            WorkspaceStart::ConfigFile(p) => WorkspaceStartView::ConfigFile(p@),
            WorkspaceStart::Empty => WorkspaceStartView::Empty,
        }
    }
}

/// What is known of the workspace once it has been found.
#[derive(Debug)]
pub struct WorkspaceFacts {
    /// How it keeps its `node_modules` directory, where it says so.
    pub node_modules_dir: Option<NodeModulesDirMode>,
    /// Whether it asks for imports that leave out extensions.
    pub has_sloppy_imports: bool,
    pub has_package_json: bool,
    pub vendor_dir_path: Option<String>,
}

/// The options of bundling and running.
#[derive(Debug)]
pub struct DenoOptions {
    pub initial_cwd: String,
    pub maybe_node_modules_folder: Option<String>,
    pub workspace: WorkspaceFacts,
    pub builder: DenoOptionsBuilder,
}

/// Whether packages come from a `node_modules` directory that the user keeps: that is configured,
/// or nothing is configured, there is such a directory, and a package file says what it is for.
pub open spec fn is_byonm(
    mode: Option<NodeModulesDirMode>,
    has_node_modules: bool,
    has_package_json: bool,
) -> bool {
    (mode is None && has_node_modules && has_package_json) || mode == Some(
        NodeModulesDirMode::Manual,
    )
}

impl DenoOptions {
    /// Decides how the workspace is found. Without an entry point it is empty; with one it is searched
    /// for unless the options say otherwise. A package file counts where neither the configuration nor
    /// packages are switched off, and the environment does not forbid it.
    pub fn from_builder(
        builder: &DenoOptionsBuilder,
        entrypoint_is_dir: bool,
        cwd: &str,
        no_package_json: Option<&str>,
    ) -> (r: Result<WorkspacePlan, NoParentDirectory>)
        ensures
            ({
                let directory = match builder.entrypoint {
                    Some(e) => entry_directory(e@, entrypoint_is_dir),
                    None => None,
                };
                &&& r is Err <==> builder.entrypoint is Some && directory is None
                &&& r matches Ok(p) ==> {
                    &&& p.start@ == start_of(builder.config, directory, cwd@)
                    &&& p.discover_pkg_json == (!(builder.config matches Some(ConfigMode::Disabled))
                        && builder.no_npm != Some(true) && !(no_package_json matches Some(v) && v@
                        == "1"@))
                    &&& p.vendor == match builder.vendor {
                        Some(v) => Some(
                            if v {
                                VendorOverride::Enable
                            } else {
                                VendorOverride::Disable
                            },
                        ),
                        None => None,
                    }
                }
            }),
    {
        let directory: Option<String> = match &builder.entrypoint {
            Some(e) => {
                if entrypoint_is_dir {
                    Some(e.clone())
                } else {
                    match parent_path(e.as_str()) {
                        Some(p) => Some(p),
                        None => {
                            return Err(NoParentDirectory);
                        },
                    }
                }
            },
            None => None,
        };
        let disabled = match &builder.config {
            Some(ConfigMode::Disabled) => true,
            _ => false,
        };
        let no_npm = match builder.no_npm {
            Some(b) => b,
            None => false,
        };
        let vendor = match builder.vendor {
            Some(v) => if v {
                Some(VendorOverride::Enable)
            } else {
                Some(VendorOverride::Disable)
            },
            None => None,
        };
        let start = match directory {
            None => WorkspaceStart::Empty,
            Some(d) => match &builder.config {
                None | Some(ConfigMode::Discover) => WorkspaceStart::Discover(
                    join_path(cwd, d.as_str()),
                ),
                Some(ConfigMode::Path(p)) => WorkspaceStart::ConfigFile(join_path(cwd, p.as_str())),
                Some(ConfigMode::Disabled) => WorkspaceStart::Empty,
            },
        };
        Ok(
            WorkspacePlan {
                start,
                discover_pkg_json: !disabled && !no_npm && !has_flag_env_var(no_package_json),
                vendor,
            },
        )
    }

    /// The working directory that everything counts from.
    pub fn initial_cwd(&self) -> (r: &str)
        ensures
            r@ == self.initial_cwd@,
    {
        self.initial_cwd.as_str()
    }

    pub fn node_modules_dir_path(&self) -> (r: &Option<String>)
        ensures
            *r == self.maybe_node_modules_folder,
    {
        &self.maybe_node_modules_folder
    }

    pub fn node_modules_dir(&self) -> (r: Option<NodeModulesDirMode>)
        ensures
            r == self.workspace.node_modules_dir,
    {
        self.workspace.node_modules_dir
    }

    pub fn vendor_dir_path(&self) -> (r: &Option<String>)
        ensures
            *r == self.workspace.vendor_dir_path,
    {
        &self.workspace.vendor_dir_path
    }

    pub fn entrypoint(&self) -> (r: &Option<String>)
        ensures
            *r == self.builder.entrypoint,
    {
        &self.builder.entrypoint
    }

    pub fn unstable_detect_cjs(&self) -> (r: bool)
        ensures
            r == (self.builder.unstable_detect_cjs == Some(true)),
    {
        match self.builder.unstable_detect_cjs {
            Some(b) => b,
            None => false,
        }
    }

    /// Whether imports may leave out extensions: as asked for, or else as the workspace has it.
    pub fn unstable_sloppy_imports(&self) -> (r: bool)
        ensures
            r == match self.builder.unstable_sloppy_imports {
                Some(b) => b,
                None => self.workspace.has_sloppy_imports,
            },
    {
        match self.builder.unstable_sloppy_imports {
            Some(b) => b,
            None => self.workspace.has_sloppy_imports,
        }
    }

    /// Whether packages come from a `node_modules` directory that the user keeps.
    pub fn use_byonm(&self) -> (r: bool)
        ensures
            r == is_byonm(
                self.workspace.node_modules_dir,
                self.maybe_node_modules_folder is Some,
                self.workspace.has_package_json,
            ),
    {
        match self.workspace.node_modules_dir {
            None => self.maybe_node_modules_folder.is_some() && self.workspace.has_package_json,
            Some(m) => m == NodeModulesDirMode::Manual,
        }
    }

    /// Whether the program is one of Node: it never is here.
    pub fn is_node_main(&self) -> (r: bool)
        ensures
            !r,
    {
        false
    }

    /// Whether JavaScript is checked too: it never is here.
    pub fn check_js(&self) -> (r: bool)
        ensures
            !r,
    {
        false
    }

    /// Whether a module may turn out to be CommonJS: only beside a package file.
    pub fn detect_cjs(&self) -> (r: bool)
        ensures
            r == self.workspace.has_package_json,
    {
        self.workspace.has_package_json || self.is_node_main()
    }

    pub fn no_npm(&self) -> (r: bool)
        ensures
            r == (self.builder.no_npm == Some(true)),
    {
        match self.builder.no_npm {
            Some(b) => b,
            None => false,
        }
    }

    /// How far types are checked: not at all where nothing is asked for.
    pub fn type_check_mode(&self) -> (r: TypeCheckMode)
        ensures
            r == match self.builder.type_check_mode {
                Some(m) => m,
                None => TypeCheckMode::Off,
            },
    {
        match self.builder.type_check_mode {
            Some(m) => m,
            None => TypeCheckMode::Off,
        }
    }
}

/// The order in which environment files are loaded: the last one first, since the first value that
/// is set stays.
pub fn env_file_order(names: &Vec<String>) -> (r: Vec<String>)
    ensures
        views(r@) == views(names@).reverse(),
{
    let mut out: Vec<String> = Vec::new();
    let n: usize = names.len();
    let mut i: usize = n;
    assert(views(out@) =~= views(names@).reverse().take(0));
    while i > 0
        invariant
            n == names@.len(),
            i <= n,
            views(out@) == views(names@).reverse().take(n - i),
        decreases i,
    {
        let s = names[i - 1].clone();
        proof {
            lemma_views_push(out@, s);
            assert(views(names@).reverse()[n - i] == s@);
            assert(views(names@).reverse().take(n - i + 1) =~= views(names@).reverse().take(
                n - i,
            ).push(s@));
        }
        out.push(s);
        i = i - 1;
    }
    assert(views(names@).reverse().take(n as int) =~= views(names@).reverse());
    out
}

/// Why an environment file was not loaded.
#[derive(Debug)]
pub enum EnvFileFault {
    /// This line does not parse, from this position on.
    LineParse { line: String, index: usize },
    NotFound,
    /// A variable that it refers to is not set, or is not Unicode.
    Variable,
    Unknown,
}

impl EnvFileFault {
    /// The warning about the file `name`.
    pub open spec fn text(self, name: Seq<char>) -> Seq<char> {
        match self {
            EnvFileFault::LineParse { line, index }
                => "Warning Parsing failed within the specified environment file: "@ + name
                + " at index: "@ + decimal_text(index as nat) + " of the value: "@ + line@,
            EnvFileFault::NotFound
                => "Warning The `--env-file` flag was used, but the environment file specified '"@
                + name + "' was not found."@,
            EnvFileFault::Variable
                => "Warning One or more of the environment variables isn't present or not unicode within the specified environment file: "@
                + name,
            EnvFileFault::Unknown
                => "Warning Unknown failure occurred with the specified environment file: "@ + name,
        }
    }

    pub fn message(&self, name: &str) -> (r: String)
        ensures
            r@ == self.text(name@),
    {
        match self {
            EnvFileFault::LineParse { line, index } => {
                let a = join(
                    "Warning Parsing failed within the specified environment file: ",
                    name,
                );
                let b = join(a.as_str(), " at index: ");
                let c = join(b.as_str(), decimal(*index as u64).as_str());
                let d = join(c.as_str(), " of the value: ");
                join(d.as_str(), line.as_str())
            },
            EnvFileFault::NotFound => {
                let a = join(
                    "Warning The `--env-file` flag was used, but the environment file specified '",
                    name,
                );
                join(a.as_str(), "' was not found.")
            },
            EnvFileFault::Variable => join(
                "Warning One or more of the environment variables isn't present or not unicode within the specified environment file: ",
                name,
            ),
            EnvFileFault::Unknown => join(
                "Warning Unknown failure occurred with the specified environment file: ",
                name,
            ),
        }
    }
}

/// How cached files are used.
#[derive(Debug, Clone, Copy, PartialEq, Eq, Structural)]
pub enum CacheSetting {
    Only,
    ReloadAll,
    Use,
}


// ---------------------------------------------------------------------------
// Laws
// ---------------------------------------------------------------------------

/// A workspace is looked for from the entrypoint itself where that is a directory, and else from
/// the directory that it lies in.
pub proof fn law_workspaces_lie_around_the_entrypoint(entrypoint: Seq<char>)
    ensures
        entry_directory(entrypoint, true) == Some(entrypoint),
        entry_directory(entrypoint, false) matches Some(d) ==> components(d) == components(
            entrypoint,
        ).drop_last(),
        entry_directory(entrypoint, false) is None ==> components(entrypoint).len() <= 1,
{
    law_parent_drops_the_last_component(entrypoint);
}

/// Without an entrypoint, or with configuration switched off, there is no workspace to start from.
/// A configuration file that was named is where one starts; without one it is looked for, from the
/// directory of the entrypoint. Either counts from the working directory.
pub proof fn law_configuration_is_named_or_looked_for(
    config: Option<ConfigMode>,
    directory: Option<Seq<char>>,
    cwd: Seq<char>,
)
    ensures
        ({
            let s = start_of(config, directory, cwd);
            let off = config is Some && config->0 is Disabled;
            let named = config is Some && config->0 is Path;
            &&& s is Empty <==> directory is None || off
            &&& s is ConfigFile <==> directory is Some && named
            &&& s is ConfigFile ==> s->ConfigFile_0 == joined(cwd, (config->0)->Path_0@)
            &&& s is Discover ==> s->Discover_0 == joined(cwd, directory->0)
        }),
{
}

/// Packages are brought along where that was asked for, and where nothing was asked for and both a
/// directory of modules and a package file are there.
pub proof fn law_packages_are_brought_along(
    mode: Option<NodeModulesDirMode>,
    has_node_modules: bool,
    has_package_json: bool,
)
    ensures
        mode is Some ==> (is_byonm(mode, has_node_modules, has_package_json) <==> mode->0
            == NodeModulesDirMode::Manual),
        is_byonm(None, has_node_modules, has_package_json) <==> has_node_modules
            && has_package_json,
{
}

/// Whatever is wrong with an environment file, the warning names the file; a line that cannot be
/// read is given with the place where reading stopped.
pub proof fn law_warnings_name_the_file(name: Seq<char>, line: String, index: usize)
    ensures
        (EnvFileFault::LineParse { line, index }).text(name)
            == "Warning Parsing failed within the specified environment file: "@ + name
            + " at index: "@ + decimal_text(index as nat) + " of the value: "@ + line@,
        EnvFileFault::NotFound.text(name)
            == "Warning The `--env-file` flag was used, but the environment file specified '"@
            + name + "' was not found."@,
        name.is_suffix_of(EnvFileFault::Variable.text(name)),
        name.is_suffix_of(EnvFileFault::Unknown.text(name)),
        EnvFileFault::Variable.text(name) != EnvFileFault::Unknown.text(name),
{
    let v = EnvFileFault::Variable.text(name);
    let u = EnvFileFault::Unknown.text(name);
    assert(v.skip(v.len() - name.len()) =~= name);
    assert(u.skip(u.len() - name.len()) =~= name);
    reveal_strlit("Warning One or more of the environment variables isn't present or not unicode within the specified environment file: ");
    reveal_strlit("Warning Unknown failure occurred with the specified environment file: ");
    assert(v[8] == 'O' && u[8] == 'U');
}

} // verus!
