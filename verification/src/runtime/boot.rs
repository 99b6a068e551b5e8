//! Booting a worker: where its modules start, what of the host it may see, and which sources and
//! flags its engine gets.

use vstd::prelude::*;
use vstd::string::*;

use crate::byte_path::BytePath;
use crate::deno_options::{CacheSetting, TypeCheckMode};
use crate::flow_config::RuntimeCells;
use crate::flow_eszip::Checksum;
use crate::paths::{
    components, copy_texts, join_path, joined, law_parent_drops_the_last_component, lies_under,
    parent, parent_path, split_components, starts_with, views,
};
use crate::runtime::mounts::MountError;
use crate::text::{join, law_parts_lie_between_separators, same, split_on, splits};
use crate::urls::{file_url, file_url_of, named_path, named_units, parse_url, url_parsed};

verus! {

/// Why the runtime of a worker cannot be put together.
#[derive(Debug)]
pub enum BootError {
    /// The directory of the service has no URL.
    MalformedDirectory(String),
    Entrypoint(BadEntrypoint),
    /// Neither an index module nor the package names a main module.
    NoEntrypoint,
    HostFsDenied,
    /// The archive records no main module, and no entry point was asked for.
    NoEntrypointKey,
    /// What stands for the main module is no URL.
    BadMainUrl,
    /// The main module that was asked for is no file.
    EntrypointNoFile,
    /// The main module that was asked for lies in no directory.
    EntrypointNoParent,
    /// The root of the archive is no directory of a file system.
    BaseNoFile,
    /// The main module is no file.
    MainNoFile,
    /// The main module lies in no directory.
    MainNoParent,
    /// The root of the archive cannot be mapped to the host.
    NoCompileRoot,
    Mount(MountError),
}

impl BootError {
    pub open spec fn text(self, detail: Seq<char>) -> Seq<char> {
        match self {
            BootError::MalformedDirectory(d) => "malformed base directory: "@ + d@,
            BootError::Entrypoint(e) => "failed to convert entrypoint to file URL: "@ + e.path@,
            BootError::NoEntrypoint => "could not find an appropriate entrypoint"@,
            BootError::HostFsDenied =>
                "allowHostFsAccess cannot be enabled when restrict_host_fs is set"@,
            BootError::NoEntrypointKey => "could not find entrypoint key"@,
            BootError::BadMainUrl => detail,
            BootError::EntrypointNoFile => "failed to convert entrypoint to path"@,
            BootError::EntrypointNoParent => "could not resolve parent of entrypoint"@,
            BootError::BaseNoFile => "failed to resolve base url"@,
            BootError::MainNoFile => "failed to resolve base dir using main module url"@,
            BootError::MainNoParent => "failed to determine parent directory"@,
            BootError::NoCompileRoot => "failed to resolve compile root"@,
            BootError::Mount(e) => e.text(),
        }
    }

    /// What is wrong. `detail` is what the URL parser says.
    pub fn message(&self, detail: &str) -> (r: String)
        ensures
            r@ == self.text(detail@),
    {
        match self {
            BootError::MalformedDirectory(d) => join("malformed base directory: ", d.as_str()),
            BootError::Entrypoint(e) => e.message(),
            BootError::NoEntrypoint => "could not find an appropriate entrypoint".to_owned(),
            BootError::HostFsDenied => HostFsDenied.message(),
            BootError::NoEntrypointKey => "could not find entrypoint key".to_owned(),
            BootError::BadMainUrl => detail.to_owned(),
            BootError::EntrypointNoFile => "failed to convert entrypoint to path".to_owned(),
            BootError::EntrypointNoParent => "could not resolve parent of entrypoint".to_owned(),
            BootError::BaseNoFile => "failed to resolve base url".to_owned(),
            BootError::MainNoFile => "failed to resolve base dir using main module url".to_owned(),
            BootError::MainNoParent => "failed to determine parent directory".to_owned(),
            BootError::NoCompileRoot => "failed to resolve compile root".to_owned(),
            BootError::Mount(e) => e.message(),
        }
    }
}

// ---------------------------------------------------------------------------
// The main module
// ---------------------------------------------------------------------------

/// The directory that a service lies in: its path, taken from the working directory where it is
/// relative, in the canonical form where it has one.
pub fn service_directory(service_path: &str, cwd: &str, canonical: Option<&str>) -> (r: String)
    ensures
        r@ == match canonical {
            Some(c) => c@,
            None => joined(cwd@, service_path@),
        },
{
    match canonical {
        Some(c) => c.to_owned(),
        None => join_path(cwd, service_path),
    }
}

/// The index modules of a directory, in the order in which they are looked for.
pub open spec fn index_names() -> Seq<Seq<char>> {
    seq!["index.ts"@, "index.tsx"@, "index.js"@, "index.mjs"@, "index.jsx"@]
}

/// The names of the index modules of a directory, in the order in which they are looked for.
pub fn index_files() -> (r: Vec<String>)
    ensures
        views(r@) == index_names(),
{
    let mut v: Vec<String> = Vec::new();
    v.push("index.ts".to_owned());
    v.push("index.tsx".to_owned());
    v.push("index.js".to_owned());
    v.push("index.mjs".to_owned());
    v.push("index.jsx".to_owned());
    assert(views(v@) =~= index_names());
    v
}

/// Where a worker without an archive starts.
#[derive(Debug)]
pub enum MainModule {
    /// At the source code that it was given.
    Code,
    /// At this URL.
    Url(String),
    /// At this file of its directory.
    Index(String),
    /// At the package that its directory holds.
    Directory,
}

/// The entry point has no URL: it is no URL itself, and its path is not absolute.
#[derive(Debug)]
pub struct BadEntrypoint {
    pub path: String,
}

impl BadEntrypoint {
    pub fn message(&self) -> (r: String)
        ensures
            r@ == "failed to convert entrypoint to file URL: "@ + self.path@,
    {
        join("failed to convert entrypoint to file URL: ", self.path.as_str())
    }
}

/// The URL of an entry point: its own where it is a URL, and that of the file it names in the
/// service's directory otherwise.
pub open spec fn entrypoint_url(entrypoint: Seq<char>, directory: Seq<char>) -> Option<Seq<char>> {
    match url_parsed(entrypoint) {
        Some(u) => Some(u.text),
        None => file_url_of(joined(directory, entrypoint)),
    }
}

/// Whether the name at `i` is the first that exists.
pub open spec fn is_first_existing(existing: Seq<bool>, i: int) -> bool {
    &&& 0 <= i < existing.len()
    &&& existing[i]
    &&& forall|j: int| 0 <= j < i ==> !#[trigger] existing[j]
}

/// Where a worker without an archive starts: at its entry point, at the code that it was given
/// where there is no entry point, at the first index module that exists, and otherwise at the
/// package in its directory. `existing` says which of [`index_files`] exist.
pub fn choose_main_module(
    entrypoint: Option<&str>,
    has_module_code: bool,
    directory: &str,
    existing: &Vec<bool>,
) -> (r: Result<MainModule, BadEntrypoint>)
    requires
        existing@.len() == index_names().len(),
    ensures
        match entrypoint {
            Some(e) => match entrypoint_url(e@, directory@) {
                Some(u) => r matches Ok(MainModule::Url(s)) && s@ == u,
                None => r is Err && (r->Err_0).path@ == joined(directory@, e@),
            },
            None => if has_module_code {
                r matches Ok(MainModule::Code)
            } else {
                match r {
                    Ok(MainModule::Index(name)) => exists|i: int| #[trigger]
                        is_first_existing(existing@, i) && name@ == index_names()[i],
                    Ok(MainModule::Directory) => forall|i: int|
                        0 <= i < existing@.len() ==> !#[trigger] existing@[i],
                    _ => false,
                }
            },
        },
{
    match entrypoint {
        Some(e) => {
            match parse_url(e) {
                Some(u) => {
                    return Ok(MainModule::Url(u.text));
                },
                None => {},
            }
            let path = join_path(directory, e);
            match file_url(path.as_str()) {
                Some(u) => Ok(MainModule::Url(u)),
                None => Err(BadEntrypoint { path }),
            }
        },
        None => {
            if has_module_code {
                return Ok(MainModule::Code);
            }
            let names = index_files();
            assert(names@.len() == views(names@).len());
            let mut i: usize = 0;
            while i < names.len()
                invariant
                    i <= names@.len(),
                    names@.len() == existing@.len(),
                    views(names@) == index_names(),
                    entrypoint is None,
                    !has_module_code,
                    forall|j: int| 0 <= j < i ==> !#[trigger] existing@[j],
                decreases names@.len() - i,
            {
                if existing[i] {
                    assert(is_first_existing(existing@, i as int));
                    assert(views(names@)[i as int] == names@[i as int]@);
                    return Ok(MainModule::Index(names[i].clone()));
                }
                i = i + 1;
            }
            Ok(MainModule::Directory)
        },
    }
}

/// Whether the worker has nowhere to start: only its directory is left, and the package there names
/// no main module.
pub fn lacks_entrypoint(module: &MainModule, package_has_main: bool) -> (r: bool)
    ensures
        r == (*module is Directory && !package_has_main),
{
    match module {
        MainModule::Directory => !package_has_main,
        _ => false,
    }
}

/// Where the main module of a loaded archive lies.
#[derive(Debug)]
pub enum ArchivedMain {
    /// Under this key.
    Key(String),
    /// At the URL of the entry point that was asked for.
    Entrypoint(String),
}

/// Where the main module of a loaded archive lies: under the key that it records, or else at the
/// entry point that was asked for. Without either there is none.
pub fn archived_main(key: Option<String>, entrypoint: Option<String>) -> (r: Option<ArchivedMain>)
    ensures
        r == match key {
            Some(k) => Some(ArchivedMain::Key(k)),
            None => match entrypoint {
                Some(e) => Some(ArchivedMain::Entrypoint(e)),
                None => None,
            },
        },
{
    match key {
        Some(k) => Some(ArchivedMain::Key(k)),
        None => match entrypoint {
            Some(e) => Some(ArchivedMain::Entrypoint(e)),
            None => None,
        },
    }
}

// ---------------------------------------------------------------------------
// The file system
// ---------------------------------------------------------------------------

/// A worker asks for the host's file system where that is denied to all.
#[derive(Debug, Clone, Copy, PartialEq, Eq, Structural)]
pub struct HostFsDenied;

impl HostFsDenied {
    pub fn message(&self) -> (r: String)
        ensures
            r@ == "allowHostFsAccess cannot be enabled when restrict_host_fs is set"@,
    {
        "allowHostFsAccess cannot be enabled when restrict_host_fs is set".to_owned()
    }
}

/// Whether a worker is kept from the host's file system. There is no answer where it asks for what
/// is denied to all.
pub open spec fn fs_blocked(allow: Option<bool>, restrict: bool) -> Option<bool> {
    if allow == Some(true) {
        if restrict {
            None
        } else {
            Some(false)
        }
    } else {
        Some(true)
    }
}

/// Whether a worker is kept from the host's file system. It is unless it asks for access, which
/// fails where that is denied to all.
pub fn should_block_fs(allow_host_fs_access: Option<bool>, restrict_host_fs: bool) -> (r: Result<
    bool,
    HostFsDenied,
>)
    ensures
        match fs_blocked(allow_host_fs_access, restrict_host_fs) {
            Some(b) => r == Ok::<bool, HostFsDenied>(b),
            None => r is Err,
        },
{
    let allowed = match allow_host_fs_access {
        Some(a) => a,
        None => false,
    };
    if allowed && restrict_host_fs {
        return Err(HostFsDenied);
    }
    Ok(!allowed)
}

/// Whether modules that the archive lacks may not be read from the host.
pub fn disables_fs_fallback(blocked: bool, restrict_host_fs: bool) -> (r: bool)
    ensures
        r == (blocked || restrict_host_fs),
{
    blocked || restrict_host_fs
}

/// Whether the worker sees the file system that was put together for it, and not the host's.
pub fn uses_virtual_fs(blocked: bool, has_virtual_mounts: bool, restrict_host_fs: bool) -> (r: bool)
    ensures
        r == (blocked || has_virtual_mounts || restrict_host_fs),
{
    blocked || has_virtual_mounts || restrict_host_fs
}

/// The host's file system is seen only by a worker that asks for it, where it is not denied to all
/// and nothing is mounted over it; and a worker that is kept from it reads no module from it either.
pub proof fn law_host_is_seen_only_where_allowed(allow: Option<bool>, restrict: bool, mounts: bool)
    ensures
        fs_blocked(allow, restrict) matches Some(blocked) ==> {
            &&& !(blocked || mounts || restrict) ==> allow == Some(true) && !restrict && !mounts
            &&& allow != Some(true) ==> (blocked || mounts || restrict) && (blocked || restrict)
        },
        fs_blocked(allow, restrict) is None <==> allow == Some(true) && restrict,
{
}

/// The path `n` levels above `path`, if there are so many.
pub open spec fn ancestor(path: Seq<char>, n: nat) -> Option<Seq<char>>
    decreases n,
{
    if n == 0 {
        Some(path)
    } else {
        match parent(path) {
            Some(p) => ancestor(p, (n - 1) as nat),
            None => None,
        }
    }
}

/// How many levels the directory of the main module lies below the root of the archive.
pub open spec fn main_depth(main_path: Seq<char>, root: Seq<char>) -> Option<nat> {
    match parent(main_path) {
        Some(dir) => if lies_under(dir, root) {
            Some((components(dir).len() - components(root).len()) as nat)
        } else {
            None
        },
        None => None,
    }
}

/// The directory of the host that stands for the root of the archive: as far above the service's
/// directory as the directory of the main module lies below that root.
pub open spec fn host_root(
    main_url: Seq<char>,
    compile_root: Seq<char>,
    directory: Seq<char>,
) -> Option<Seq<char>> {
    match named_units(main_url) {
        Some(main) => match main_depth(main, compile_root) {
            Some(depth) => ancestor(directory, depth),
            None => None,
        },
        None => None,
    }
}

/// The directory of the host that stands for the root of the archive whose main module is at
/// `main_url`.
pub fn source_root(main_url: &str, compile_root: &BytePath, directory: &str) -> (r: Option<String>)
    ensures
        match r {
            Some(p) => host_root(main_url@, compile_root@, directory@) == Some(p@),
            None => host_root(main_url@, compile_root@, directory@) is None,
        },
{
    let main = match named_path(main_url) {
        Some(m) => m,
        None => {
            return None;
        },
    };
    let dir = match parent_path(main.units.as_str()) {
        Some(d) => d,
        None => {
            return None;
        },
    };
    if !starts_with(dir.as_str(), compile_root.units.as_str()) {
        return None;
    }
    let a = split_components(dir.as_str());
    let b = split_components(compile_root.units.as_str());
    assert(a@.len() == components(dir@).len());
    assert(b@.len() == components(compile_root@).len());
    assert(components(compile_root@).len() <= components(dir@).len());
    let depth: usize = a.len() - b.len();
    let mut root: String = directory.to_owned();
    let mut left: usize = depth;
    while left > 0
        invariant
            left <= depth,
            named_units(main_url@) == Some(main@),
            main_depth(main@, compile_root@) == Some(depth as nat),
            ancestor(root@, left as nat) == ancestor(directory@, depth as nat),
        decreases left,
    {
        match parent_path(root.as_str()) {
            Some(p) => {
                root = p;
            },
            None => {
                return None;
            },
        }
        left = left - 1;
    }
    Some(root)
}

/// Where a worker that does not see the host looks for its files: an archive of an older form
/// counts from its root, and any other from the directory of its main module.
pub open spec fn base_dir(
    has_key: bool,
    has_entrypoint: bool,
    base_url: Seq<char>,
    main_url: Seq<char>,
) -> Result<Seq<char>, BootError> {
    if !has_key && has_entrypoint {
        match named_units(base_url) {
            Some(p) => Ok(p),
            None => Err(BootError::BaseNoFile),
        }
    } else {
        match named_units(main_url) {
            Some(p) => match parent(p) {
                Some(d) => Ok(d),
                None => Err(BootError::MainNoParent),
            },
            None => Err(BootError::MainNoFile),
        }
    }
}

/// Where a worker that does not see the host looks for its files.
pub fn compile_base_dir(
    has_key: bool,
    has_entrypoint: bool,
    base_url: &str,
    main_url: &str,
) -> (r: Result<BytePath, BootError>)
    ensures
        match r {
            Ok(p) => base_dir(has_key, has_entrypoint, base_url@, main_url@) == Ok::<
                Seq<char>,
                BootError,
            >(p@),
            Err(e) => base_dir(has_key, has_entrypoint, base_url@, main_url@) == Err::<
                Seq<char>,
                BootError,
            >(e),
        },
{
    if !has_key && has_entrypoint {
        match named_path(base_url) {
            Some(p) => Ok(p),
            None => Err(BootError::BaseNoFile),
        }
    } else {
        match named_path(main_url) {
            Some(m) => match parent_path(m.units.as_str()) {
                Some(d) => Ok(BytePath { units: d }),
                None => Err(BootError::MainNoParent),
            },
            None => Err(BootError::MainNoFile),
        }
    }
}

// ---------------------------------------------------------------------------
// Limits
// ---------------------------------------------------------------------------

/// The processor time at which a worker is warned: there is none where its time is not limited.
/// `share` is the configured share of the limit.
pub fn beforeunload_cpu_threshold(hard_limit_ms: u64, share: Option<u64>) -> (r: Option<u64>)
    ensures
        r == if hard_limit_ms > 0 {
            share
        } else {
            None
        },
{
    if hard_limit_ms > 0 {
        share
    } else {
        None
    }
}

// ---------------------------------------------------------------------------
// The engine
// ---------------------------------------------------------------------------

/// The flags that trace garbage collection.
pub open spec fn gc_flags() -> Seq<Seq<char>> {
    seq!["--trace-gc"@, "--trace-gc-verbose"@, "--trace-gc-object-stats"@]
}

/// The flags of the engine behind its name, which is left empty: those that trace garbage
/// collection where that is asked for, and those that are configured, separated by spaces.
pub open spec fn engine_flags(configured: Seq<char>, debug_gc: bool) -> Seq<Seq<char>> {
    seq![Seq::<char>::empty()] + (if debug_gc {
        gc_flags()
    } else {
        Seq::empty()
    }) + (if configured.len() > 0 {
        splits(configured, ' ')
    } else {
        Seq::empty()
    })
}

/// The flags that the engine is given. Where none are asked for it is given none at all.
pub fn set_v8_flags(configured: &str, debug_gc: bool) -> (r: Option<Vec<String>>)
    ensures
        r is None <==> engine_flags(configured@, debug_gc).len() <= 1,
        r matches Some(v) ==> views(v@) == engine_flags(configured@, debug_gc),
{
    let mut v: Vec<String> = Vec::new();
    v.push(String::new());
    assert(views(v@) =~= seq![Seq::<char>::empty()]);
    if debug_gc {
        v.push("--trace-gc".to_owned());
        v.push("--trace-gc-verbose".to_owned());
        v.push("--trace-gc-object-stats".to_owned());
        assert(views(v@) =~= seq![Seq::<char>::empty()] + gc_flags());
    }
    assert(views(v@) =~= seq![Seq::<char>::empty()] + (if debug_gc {
        gc_flags()
    } else {
        Seq::empty()
    }));
    if !configured.is_empty() {
        let ghost before = v@;
        let mut more = split_on(configured, ' ');
        let ghost m = more@;
        v.append(&mut more);
        assert(views(v@) =~= views(before) + views(m));
        assert(views(m) =~= splits(configured@, ' '));
    }
    assert(views(v@) =~= engine_flags(configured@, debug_gc));
    assert(v@.len() == views(v@).len());
    if v.len() <= 1 {
        None
    } else {
        Some(v)
    }
}

/// Whether the engine left over more than its own name of the flags that it was given.
pub fn has_unrecognized_flags(ignored: &Vec<String>) -> (r: bool)
    ensures
        r == (views(ignored@) != seq![Seq::<char>::empty()]),
{
    if ignored.len() != 1 {
        assert(views(ignored@).len() != seq![Seq::<char>::empty()].len());
        return true;
    }
    assert(views(ignored@)[0] == ignored@[0]@);
    if ignored[0].as_str().is_empty() {
        assert(ignored@[0]@ =~= Seq::<char>::empty());
        assert(views(ignored@) =~= seq![Seq::<char>::empty()]);
        false
    } else {
        assert(seq![Seq::<char>::empty()][0].len() == 0);
        true
    }
}

/// A source file of an extension.
#[derive(Debug)]
pub struct ExtensionFile {
    pub specifier: String,
    pub code: ExtensionCode,
}

/// Where the source of an extension comes from.
#[derive(Debug)]
pub enum ExtensionCode {
    /// From a file that the build machine had.
    LoadedFromFs(String),
    /// From the binary.
    Included(String),
}

/// A source that the binary holds.
#[derive(Debug)]
pub struct EmbeddedSource {
    pub specifier: String,
    pub source: String,
}

/// The source that the binary holds for a specifier.
pub open spec fn embedded(sources: Seq<EmbeddedSource>, specifier: Seq<char>) -> Option<Seq<char>>
    decreases sources.len(),
{
    if sources.len() == 0 {
        None
    } else if sources.last().specifier@ == specifier {
        Some(sources.last().source@)
    } else {
        embedded(sources.drop_last(), specifier)
    }
}

fn find_embedded(sources: &Vec<EmbeddedSource>, specifier: &str) -> (r: Option<String>)
    ensures
        match r {
            Some(s) => embedded(sources@, specifier@) == Some(s@),
            None => embedded(sources@, specifier@) is None,
        },
{
    let mut i: usize = sources.len();
    assert(sources@.take(i as int) =~= sources@);
    while i > 0
        invariant
            i <= sources@.len(),
            embedded(sources@.take(i as int), specifier@) == embedded(sources@, specifier@),
        decreases i,
    {
        assert(sources@.take(i as int).drop_last() =~= sources@.take(i - 1));
        if same(sources[i - 1].specifier.as_str(), specifier) {
            return Some(sources[i - 1].source.clone());
        }
        i = i - 1;
    }
    None
}

/// Makes every file whose source the binary holds come from there. The others stay as they are.
pub fn embed_extension_sources(files: &mut Vec<ExtensionFile>, sources: &Vec<EmbeddedSource>)
    ensures
        final(files)@.len() == old(files)@.len(),
        forall|i: int|
            0 <= i < old(files)@.len() ==> {
                let f = #[trigger] old(files)@[i];
                match embedded(sources@, f.specifier@) {
                    Some(s) => final(files)@[i].specifier@ == f.specifier@ && (
                    final(files)@[i].code matches ExtensionCode::Included(c) && c@ == s),
                    None => final(files)@[i] == f,
                }
            },
{
    let mut i: usize = 0;
    let ghost start = files@;
    while i < files.len()
        invariant
            i <= files@.len(),
            start == old(files)@,
            files@.len() == start.len(),
            forall|j: int|
                0 <= j < i ==> {
                    let f = #[trigger] start[j];
                    match embedded(sources@, f.specifier@) {
                        Some(s) => files@[j].specifier@ == f.specifier@ && (
                        files@[j].code matches ExtensionCode::Included(c) && c@ == s),
                        None => files@[j] == f,
                    }
                },
            forall|j: int| i <= j < start.len() ==> #[trigger] files@[j] == start[j],
        decreases files@.len() - i,
    {
        let found = find_embedded(sources, files[i].specifier.as_str());
        match found {
            Some(s) => {
                let f = ExtensionFile {
                    specifier: files[i].specifier.clone(),
                    code: ExtensionCode::Included(s),
                };
                files.set(i, f);
            },
            None => {},
        }
        i = i + 1;
    }
}

// ---------------------------------------------------------------------------
// The runtime
// ---------------------------------------------------------------------------

/// What a worker is created with, as far as it decides how its runtime is put together.
#[derive(Debug)]
pub struct BootRequest {
    /// The directory of its service.
    pub directory: String,
    /// Whether it comes with an archive, which then need not be made.
    pub has_archive: bool,
    pub entrypoint: Option<String>,
    pub has_module_code: bool,
    pub no_module_cache: bool,
    pub no_npm: Option<bool>,
    /// Where its import map is, as its context says.
    pub import_map_path: Option<String>,
    /// Whether its context asks for imports to be guessed.
    pub unstable_sloppy_imports: Option<bool>,
    pub allow_remote_modules: bool,
    /// The patterns of the files that its archive holds as they are.
    pub static_patterns: Vec<String>,
    pub has_inspector: bool,
    /// The settings that the environment makes for all workers.
    pub cells: RuntimeCells,
    /// Whether its context asks for source maps.
    pub source_map: Option<bool>,
    pub allow_host_fs_access: Option<bool>,
    pub restrict_host_fs: bool,
    /// Its key in the pool.
    pub key: Option<String>,
    /// Whether a message port of its creator waits for it.
    pub has_parent_port: bool,
    pub cpu_time_hard_limit_ms: u64,
    /// The configured shares of its limits, if any.
    pub cpu_share_ms: Option<u64>,
    pub memory_share_bytes: Option<u64>,
    /// Where its object stores are mounted, and then its HTTP file systems.
    pub s3_mounts: Vec<String>,
    pub http_mounts: Vec<String>,
}

/// What the archive of a worker that comes without one is built with.
#[derive(Debug)]
pub struct BuildSettings {
    pub type_check_mode: TypeCheckMode,
    pub cache: CacheSetting,
    pub no_npm: Option<bool>,
    pub import_map_path: Option<String>,
    pub unstable_sloppy_imports: Option<bool>,
    pub allow_remote: bool,
    pub static_patterns: Vec<String>,
    pub checksum: Option<Checksum>,
}

/// Whether an archive is built with what its worker asks for: types are checked for the local
/// modules, and no time is spent on a checksum.
pub open spec fn builds_with(request: BootRequest, s: BuildSettings) -> bool {
    &&& s.type_check_mode == TypeCheckMode::Local
    &&& s.cache == if request.no_module_cache {
        CacheSetting::ReloadAll
    } else {
        CacheSetting::Use
    }
    &&& s.no_npm == request.no_npm
    &&& text_view(s.import_map_path) == text_view(request.import_map_path)
    &&& s.unstable_sloppy_imports == request.unstable_sloppy_imports
    &&& s.allow_remote == request.allow_remote_modules
    &&& views(s.static_patterns@) == views(request.static_patterns@)
    &&& s.checksum is None
}

/// An optional text, taken by view.
pub open spec fn text_view(s: Option<String>) -> Option<Seq<char>> {
    match s {
        Some(t) => Some(t@),
        None => None,
    }
}

/// What the archive of a worker is built with.
pub fn build_settings(request: &BootRequest) -> (r: BuildSettings)
    ensures
        builds_with(*request, r),
{
    BuildSettings {
        type_check_mode: TypeCheckMode::Local,
        cache: if request.no_module_cache {
            CacheSetting::ReloadAll
        } else {
            CacheSetting::Use
        },
        no_npm: request.no_npm,
        import_map_path: match &request.import_map_path {
            Some(p) => Some(p.clone()),
            None => None,
        },
        unstable_sloppy_imports: request.unstable_sloppy_imports,
        allow_remote: request.allow_remote_modules,
        static_patterns: copy_texts(&request.static_patterns),
        checksum: None,
    }
}

/// How the runtime of a worker is put together.
#[derive(Debug)]
pub struct BootPlan {
    /// Whether an archive is made first, and whether from the worker's code alone.
    pub makes_archive: bool,
    pub from_code: bool,
    pub cache: CacheSetting,
    pub include_source_map: bool,
    pub blocks_fs: bool,
    pub disable_fs_fallback: bool,
    pub cpu_threshold_ms: Option<u64>,
    pub memory_threshold_bytes: Option<u64>,
    /// The name under which the worker knows itself.
    pub execution_id: String,
    pub installs_parent_port: bool,
    /// Whether it can be handed further ports later on.
    pub receives_ports: bool,
}

/// Whether the runtime of a worker that is let see as much of the host's file system as it asks
/// for is put together so.
pub open spec fn plans(request: BootRequest, p: BootPlan) -> bool {
    let blocked = fs_blocked(request.allow_host_fs_access, request.restrict_host_fs)->0;
    &&& p.makes_archive == !request.has_archive
    &&& p.from_code == (!request.has_archive && request.has_module_code && request.entrypoint
        is None)
    &&& p.cache == if request.no_module_cache {
        CacheSetting::ReloadAll
    } else {
        CacheSetting::Use
    }
    &&& p.include_source_map == (request.has_inspector || request.source_map == Some(true))
    &&& p.blocks_fs == blocked
    &&& p.disable_fs_fallback == (blocked || request.restrict_host_fs)
    &&& p.cpu_threshold_ms == if request.cpu_time_hard_limit_ms > 0 {
        request.cpu_share_ms
    } else {
        None
    }
    &&& p.memory_threshold_bytes == request.memory_share_bytes
    &&& p.execution_id@ == match request.key {
        Some(k) => k@,
        None => Seq::empty(),
    }
    &&& p.installs_parent_port == request.has_parent_port
    &&& p.receives_ports == (request.has_parent_port && request.key is Some)
}

/// Decides how the runtime of a worker is put together. That fails only where the worker asks for
/// the host's file system and that is denied to all.
pub fn plan_boot(request: &BootRequest) -> (r: Result<BootPlan, HostFsDenied>)
    ensures
        r is Err <==> fs_blocked(request.allow_host_fs_access, request.restrict_host_fs) is None,
        r matches Ok(p) ==> plans(*request, p),
{
    let blocks_fs = match should_block_fs(request.allow_host_fs_access, request.restrict_host_fs) {
        Ok(b) => b,
        Err(e) => {
            return Err(e);
        },
    };
    let wants_map = match request.source_map {
        Some(b) => b,
        None => false,
    };
    let receives_ports = request.has_parent_port && request.key.is_some();
    let execution_id = match &request.key {
        Some(k) => k.clone(),
        None => String::new(),
    };
    Ok(
        BootPlan {
            makes_archive: !request.has_archive,
            from_code: !request.has_archive && request.has_module_code
                && request.entrypoint.is_none(),
            cache: if request.no_module_cache {
                CacheSetting::ReloadAll
            } else {
                CacheSetting::Use
            },
            include_source_map: request.has_inspector || wants_map,
            blocks_fs,
            disable_fs_fallback: disables_fs_fallback(blocks_fs, request.restrict_host_fs),
            cpu_threshold_ms: beforeunload_cpu_threshold(
                request.cpu_time_hard_limit_ms,
                request.cpu_share_ms,
            ),
            memory_threshold_bytes: request.memory_share_bytes,
            execution_id,
            installs_parent_port: request.has_parent_port,
            receives_ports,
        },
    )
}

/// What a runtime is told of itself.
#[derive(Debug, Clone, Copy, PartialEq, Eq, Structural)]
pub struct RuntimeContext {
    pub inspector: bool,
    /// Whether its archive was of an older form.
    pub migrated: bool,
    pub disable_deprecated_api_warning: bool,
    pub verbose_deprecated_api_warning: bool,
}

/// What a runtime is told of itself. A setting that the environment does not make is off.
pub fn get_runtime_context(use_inspector: bool, migrated: bool, cells: &RuntimeCells) -> (r:
    RuntimeContext)
    ensures
        r == (RuntimeContext {
            inspector: use_inspector,
            migrated,
            disable_deprecated_api_warning: cells.disable_deprecated_api_warning == Some(true),
            verbose_deprecated_api_warning: cells.verbose_deprecated_api_warning == Some(true),
        }),
{
    RuntimeContext {
        inspector: use_inspector,
        migrated,
        disable_deprecated_api_warning: match cells.disable_deprecated_api_warning {
            Some(b) => b,
            None => false,
        },
        verbose_deprecated_api_warning: match cells.verbose_deprecated_api_warning {
            Some(b) => b,
            None => false,
        },
    }
}

/// What an archive records of where its program starts.
#[derive(Debug)]
pub enum Entrypoint {
    /// At the module under this key.
    Key(String),
    /// At this code.
    ModuleCode(String),
}

/// How the main module of a worker is loaded.
#[derive(Debug)]
pub enum MainLoad {
    /// From its URL.
    Url,
    /// From this code, under its URL.
    Code(String),
}

/// The runtime of a worker, as far as its main module goes.
#[derive(Debug)]
pub struct DenoRuntime {
    pub main_module_url: String,
    pub entrypoint: Option<Entrypoint>,
    /// The number under which the engine knows the main module, once it has been loaded.
    pub main_module_id: Option<usize>,
}

impl DenoRuntime {
    /// A runtime whose main module has not been loaded.
    pub fn unloaded(main_module_url: String, entrypoint: Option<Entrypoint>) -> (r: DenoRuntime)
        ensures
            r == (DenoRuntime { main_module_url, entrypoint, main_module_id: None }),
    {
        DenoRuntime { main_module_url, entrypoint, main_module_id: None }
    }

    /// How the main module is to be loaded, or `None` where it has been. Code that the archive
    /// holds for it is used once.
    pub fn init_main_module(&mut self) -> (r: Option<MainLoad>)
        ensures
            old(self).main_module_id is Some ==> r is None && *final(self) == *old(self),
            old(self).main_module_id is None ==> {
                &&& *final(self) == (DenoRuntime { entrypoint: None, ..*old(self) })
                &&& r == match old(self).entrypoint {
                    Some(Entrypoint::ModuleCode(code)) => Some(MainLoad::Code(code)),
                    _ => Some(MainLoad::Url),
                }
            },
    {
        if self.main_module_id.is_some() {
            return None;
        }
        match self.entrypoint.take() {
            Some(Entrypoint::ModuleCode(code)) => Some(MainLoad::Code(code)),
            _ => Some(MainLoad::Url),
        }
    }

    /// Takes in that the main module has been loaded.
    pub fn set_main_module_id(&mut self, id: usize)
        ensures
            *final(self) == (DenoRuntime { main_module_id: Some(id), ..*old(self) }),
    {
        self.main_module_id = Some(id);
    }

    /// The URL of the main module.
    pub fn main_module_url(&self) -> (r: &str)
        ensures
            r@ == self.main_module_url@,
    {
        self.main_module_url.as_str()
    }

    /// The name under which a debugger finds the worker: that of its place in the pool, so that
    /// workers of one service are told apart, or the URL of its main module outside a pool.
    pub fn inspector_target(&self, pool_target: Option<String>) -> (r: String)
        ensures
            r@ == match pool_target {
                Some(t) => t@,
                None => self.main_module_url@,
            },
    {
        match pool_target {
            Some(t) => t,
            None => self.main_module_url.clone(),
        }
    }
}


// ---------------------------------------------------------------------------
// Laws
// ---------------------------------------------------------------------------

/// An entrypoint that is a URL is taken as it is; any other names a file, counted from the
/// directory of the service.
pub proof fn law_entrypoints_count_from_the_directory(entrypoint: Seq<char>, directory: Seq<char>)
    ensures
        url_parsed(entrypoint) is Some ==> entrypoint_url(entrypoint, directory) == Some(
            (url_parsed(entrypoint)->0).text,
        ),
        url_parsed(entrypoint) is None && entrypoint.len() > 0 && entrypoint[0] == '/'
            ==> entrypoint_url(entrypoint, directory) == file_url_of(entrypoint),
        url_parsed(entrypoint) is None && (entrypoint.len() == 0 || entrypoint[0] != '/')
            && directory.len() > 0 && directory.last() != '/' ==> entrypoint_url(
            entrypoint,
            directory,
        ) == file_url_of(directory + seq!['/'] + entrypoint),
{
    assert(directory.push('/') + entrypoint =~= directory + seq!['/'] + entrypoint);
}

/// There is one first file among those that exist, and none before it does.
pub proof fn law_first_file_is_taken(existing: Seq<bool>, i: int, j: int)
    requires
        is_first_existing(existing, i),
        0 <= j < existing.len(),
        existing[j],
    ensures
        0 <= i <= j,
        existing[i],
        is_first_existing(existing, j) ==> i == j,
{
}

/// An index file is TypeScript before JavaScript, and plain before markup.
pub proof fn law_index_files_in_order(i: int)
    requires
        0 <= i < index_names().len(),
    ensures
        index_names().len() == 5,
        "index."@.is_prefix_of(index_names()[i]),
        index_names()[i].skip(6) == seq!["ts"@, "tsx"@, "js"@, "mjs"@, "jsx"@][i],
{
    reveal_strlit("index.");
    reveal_strlit("index.ts");
    reveal_strlit("index.tsx");
    reveal_strlit("index.js");
    reveal_strlit("index.mjs");
    reveal_strlit("index.jsx");
    reveal_strlit("ts");
    reveal_strlit("tsx");
    reveal_strlit("js");
    reveal_strlit("mjs");
    reveal_strlit("jsx");
    assert(index_names()[i].skip(6) =~= seq!["ts"@, "tsx"@, "js"@, "mjs"@, "jsx"@][i]);
}

/// The host's files are open to a worker that asks for them, closed to one that does not, and
/// asking is refused where they are restricted.
pub proof fn law_host_files_are_asked_for(allow: Option<bool>, restrict: bool)
    ensures
        allow == Some(true) && !restrict ==> fs_blocked(allow, restrict) == Some(false),
        allow == Some(true) && restrict ==> fs_blocked(allow, restrict) is None,
        allow == Some(false) || allow is None ==> fs_blocked(allow, restrict) == Some(true),
{
}

/// So many levels up, a path is short of its last components, one for each.
pub proof fn law_ancestors_drop_components(path: Seq<char>, n: nat)
    ensures
        ancestor(path, n) matches Some(p) ==> n <= components(path).len() && components(p)
            == components(path).take(components(path).len() - n),
        ancestor(path, n) is None ==> n > 0 && components(path).len() <= n,
    decreases n,
{
    let c = components(path);
    if n == 0 {
        assert(c.take(c.len() as int) =~= c);
    } else {
        law_parent_drops_the_last_component(path);
        if let Some(p) = parent(path) {
            law_ancestors_drop_components(p, (n - 1) as nat);
            if let Some(a) = ancestor(p, (n - 1) as nat) {
                assert(c.drop_last().take(c.drop_last().len() - (n - 1)) =~= c.take(c.len() - n));
            }
        }
    }
}

/// The sources lie as far above the directory of the service as the root of the compiled modules
/// lies above the directory of the main one; where that does not lie under the root, nowhere.
pub proof fn law_sources_lie_as_far_up(
    main_url: Seq<char>,
    compile_root: Seq<char>,
    directory: Seq<char>,
)
    requires
        named_units(main_url) is Some,
        components(named_units(main_url)->0).len() > 1,
    ensures
        ({
            let main = components(named_units(main_url)->0).drop_last();
            let root = components(compile_root);
            let here = components(directory);
            &&& host_root(main_url, compile_root, directory) matches Some(h) ==> {
                &&& root.is_prefix_of(main)
                &&& components(h).len() + (main.len() - root.len()) == here.len()
                &&& components(h).is_prefix_of(here)
            }
            &&& host_root(main_url, compile_root, directory) is None ==> !root.is_prefix_of(main)
                || main.len() - root.len() >= here.len()
        }),
{
    let main_path = named_units(main_url)->0;
    law_parent_drops_the_last_component(main_path);
    assert(components(main_path) != seq![seq!['/']]);
    let dir = parent(main_path)->0;
    if lies_under(dir, compile_root) {
        let depth = (components(dir).len() - components(compile_root).len()) as nat;
        law_ancestors_drop_components(directory, depth);
    }
}

/// The compiled modules are based where the archive says, if the worker was started by an
/// entrypoint that the archive has not recorded, and else beside the main module.
pub proof fn law_base_lies_beside_the_main_module(
    has_key: bool,
    has_entrypoint: bool,
    base_url: Seq<char>,
    main_url: Seq<char>,
)
    ensures
        ({
            let r = base_dir(has_key, has_entrypoint, base_url, main_url);
            &&& !has_key && has_entrypoint && named_units(base_url) is Some ==> r == Ok::<
                Seq<char>,
                BootError,
            >(named_units(base_url)->0)
            &&& !has_key && has_entrypoint && named_units(base_url) is None ==> r == Err::<
                Seq<char>,
                BootError,
            >(BootError::BaseNoFile)
            &&& (has_key || !has_entrypoint) && named_units(main_url) is None ==> r == Err::<
                Seq<char>,
                BootError,
            >(BootError::MainNoFile)
            &&& (has_key || !has_entrypoint) && named_units(main_url) is Some && r is Ok
                ==> components(r->Ok_0) == components(named_units(main_url)->0).drop_last()
            &&& (has_key || !has_entrypoint) && named_units(main_url) is Some && r is Err ==> r
                == Err::<Seq<char>, BootError>(BootError::MainNoParent) && components(
                named_units(main_url)->0,
            ).len() <= 1
        }),
{
    if named_units(main_url) is Some {
        law_parent_drops_the_last_component(named_units(main_url)->0);
    }
}

/// The engine's flags come behind an empty name: first those that trace collections, where asked
/// for, and then those configured, one for each word, in their order.
pub proof fn law_flags_are_passed_on(configured: Seq<char>, flag: Seq<char>, debug_gc: bool)
    requires
        !flag.contains(' '),
    ensures
        engine_flags(configured, debug_gc)[0].len() == 0,
        engine_flags(Seq::empty(), false).len() == 1,
        engine_flags(Seq::empty(), true).len() == 4,
        forall|i: int|
            1 <= i < 4 ==> "--trace-gc"@.is_prefix_of(
                #[trigger] engine_flags(configured, true)[i],
            ),
        flag.len() > 0 ==> engine_flags(flag, debug_gc) == engine_flags(Seq::empty(), debug_gc).push(
            flag,
        ),
        configured.len() > 0 ==> engine_flags(configured + seq![' '] + flag, debug_gc)
            == engine_flags(configured, debug_gc).push(flag),
{
    reveal_strlit("--trace-gc");
    reveal_strlit("--trace-gc-verbose");
    reveal_strlit("--trace-gc-object-stats");
    law_parts_lie_between_separators(configured, flag, ' ');
    assert(engine_flags(flag, debug_gc) =~= if flag.len() > 0 {
        engine_flags(Seq::empty(), debug_gc).push(flag)
    } else {
        engine_flags(Seq::empty(), debug_gc)
    });
    if configured.len() > 0 {
        assert(engine_flags(configured + seq![' '] + flag, debug_gc) =~= engine_flags(
            configured,
            debug_gc,
        ).push(flag));
    }
    let head = gc_flags();
    assert forall|i: int| 1 <= i < 4 implies "--trace-gc"@.is_prefix_of(
        #[trigger] engine_flags(configured, true)[i],
    ) by {
        assert(engine_flags(configured, true)[i] == head[i - 1]);
        assert(head[i - 1].take(10) =~= "--trace-gc"@);
    }
}

/// Where several embedded sources have one specifier, the last of them stands.
pub proof fn law_last_embedded_source_stands(
    sources: Seq<EmbeddedSource>,
    i: int,
    specifier: Seq<char>,
)
    requires
        0 <= i < sources.len(),
        sources[i].specifier@ == specifier,
        forall|j: int| i < j < sources.len() ==> (#[trigger] sources[j]).specifier@ != specifier,
    ensures
        embedded(sources, specifier) == Some(sources[i].source@),
    decreases sources.len(),
{
    if i < sources.len() - 1 {
        let front = sources.drop_last();
        assert(sources.last() == sources[sources.len() - 1]);
        assert(front[i] == sources[i]);
        assert forall|j: int| i < j < front.len() implies (
        #[trigger] front[j]).specifier@ != specifier by {
            assert(front[j] == sources[j]);
        }
        law_last_embedded_source_stands(front, i, specifier);
    }
}

/// A specifier that no embedded source has stands for nothing.
pub proof fn law_other_specifiers_embed_nothing(
    sources: Seq<EmbeddedSource>,
    specifier: Seq<char>,
)
    requires
        forall|j: int| 0 <= j < sources.len() ==> (#[trigger] sources[j]).specifier@ != specifier,
    ensures
        embedded(sources, specifier) is None,
    decreases sources.len(),
{
    if sources.len() > 0 {
        let front = sources.drop_last();
        assert(sources.last() == sources[sources.len() - 1]);
        assert forall|j: int| 0 <= j < front.len() implies (
        #[trigger] front[j]).specifier@ != specifier by {
            assert(front[j] == sources[j]);
        }
        law_other_specifiers_embed_nothing(front, specifier);
    }
}

/// A build checks the types of local modules alone, takes what is cached unless told not to, and
/// otherwise goes by what was asked for.
pub proof fn law_builds_go_by_the_request(request: BootRequest, s: BuildSettings)
    requires
        builds_with(request, s),
    ensures
        s.type_check_mode == TypeCheckMode::Local,
        request.no_module_cache ==> s.cache == CacheSetting::ReloadAll,
        !request.no_module_cache ==> s.cache == CacheSetting::Use,
        s.no_npm == request.no_npm,
        s.import_map_path is Some == request.import_map_path is Some,
        s.import_map_path is Some ==> (s.import_map_path->0)@ == (request.import_map_path->0)@,
        s.unstable_sloppy_imports == request.unstable_sloppy_imports,
        s.allow_remote == request.allow_remote_modules,
        s.static_patterns@.len() == request.static_patterns@.len(),
        forall|i: int|
            0 <= i < request.static_patterns@.len() ==> (#[trigger] s.static_patterns@[i])@
                == request.static_patterns@[i]@,
        s.checksum is None,
{
    assert(views(s.static_patterns@).len() == s.static_patterns@.len());
    assert(views(request.static_patterns@).len() == request.static_patterns@.len());
    assert forall|i: int| 0 <= i < request.static_patterns@.len() implies (
    #[trigger] s.static_patterns@[i])@ == request.static_patterns@[i]@ by {
        assert(views(s.static_patterns@)[i] == views(request.static_patterns@)[i]);
    }
}

/// A worker without an archive has one made, from code where that is all it was given. Maps of
/// its sources come along where someone inspects it or asks for them. Its files are its own unless
/// it may see the host's, and then it falls back on nothing where they are restricted. What it may
/// use of the processor is watched only under a limit. It goes by its key, and is sent ports only
/// where it has both a key and a parent.
pub proof fn law_plans_go_by_the_request(request: BootRequest, p: BootPlan)
    requires
        plans(request, p),
        request.allow_host_fs_access != Some(true) || !request.restrict_host_fs,
    ensures
        p.makes_archive <==> !request.has_archive,
        p.from_code <==> p.makes_archive && request.has_module_code && request.entrypoint is None,
        request.no_module_cache ==> p.cache == CacheSetting::ReloadAll,
        !request.no_module_cache ==> p.cache == CacheSetting::Use,
        request.has_inspector ==> p.include_source_map,
        !request.has_inspector ==> (p.include_source_map <==> request.source_map == Some(true)),
        p.blocks_fs <==> request.allow_host_fs_access != Some(true),
        p.disable_fs_fallback <==> request.allow_host_fs_access != Some(true)
            || request.restrict_host_fs,
        request.cpu_time_hard_limit_ms == 0 ==> p.cpu_threshold_ms is None,
        request.cpu_time_hard_limit_ms > 0 ==> p.cpu_threshold_ms == request.cpu_share_ms,
        p.memory_threshold_bytes == request.memory_share_bytes,
        request.key is Some ==> p.execution_id@ == (request.key->0)@,
        request.key is None ==> p.execution_id@.len() == 0,
        p.installs_parent_port <==> request.has_parent_port,
        p.receives_ports ==> p.installs_parent_port && request.key is Some,
        request.has_parent_port && request.key is Some ==> p.receives_ports,
{
}


/// A boot that fails over a path or a mount point names it, and passes on what was told by others.
pub proof fn law_boot_errors_name_their_cause(e: BootError, detail: Seq<char>)
    ensures
        e matches BootError::MalformedDirectory(d) ==> e.text(detail)
            == "malformed base directory: "@ + d@,
        e matches BootError::Entrypoint(b) ==> e.text(detail)
            == "failed to convert entrypoint to file URL: "@ + b.path@,
        e matches BootError::Mount(m) ==> e.text(detail) == m.text(),
        e is BadMainUrl ==> e.text(detail) == detail,
{
}

} // verus!
