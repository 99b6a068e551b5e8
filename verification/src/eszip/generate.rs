//! Deciding what goes into a new archive.

use indexmap::IndexMap;
use vstd::prelude::*;
use vstd::string::*;

use crate::eszip::lazy::is_current_version;
use crate::eszip_trait::{FLOW_ESZIP_VERSION, FLOW_ESZIP_VERSION_KEY};
use crate::flow_eszip::{copy_range, Checksum};
use crate::graph::{
    build_module_exclusion, excludes, is_glob, is_valid_glob, InvalidGlob, ModuleExclusion,
    ModuleGraph,
};
use crate::module_loader::setup::NodeModules;
use crate::paths::{absolute, is_absolute, join_path, joined, lemma_views_push, views};
use crate::text::{decimal, decimal_text, join, law_numbers_read_back, same, unsigned_number};
use crate::urls::{
    file_url, file_url_of, parse_url, set_host, set_port, set_scheme, url_parsed, url_with_host,
    url_with_port, url_with_scheme,
};

verus! {

// ---------------------------------------------------------------------------
// The entry module
// ---------------------------------------------------------------------------

/// What is known of the entry path that was asked for.
#[derive(Debug)]
pub struct EntryFacts {
    pub path: String,
    pub is_file: bool,
    pub is_dir: bool,
    /// Whether the directory holds an `index.ts`, and an `index.js`.
    pub has_index_ts: bool,
    pub has_index_js: bool,
    /// Whether packages come from a `node_modules` directory that the user keeps.
    pub use_byonm: bool,
    /// The main module that the root `package.json` names.
    pub package_main: Option<String>,
    pub workspace_root: String,
}

/// Where the module graph starts.
#[derive(Debug)]
pub enum CreateGraphArgs {
    /// At the file with this path.
    File(String),
    /// At the file with this path, which is still to be normalised.
    Unnormalized(String),
    /// At source code, which is given this path.
    Code(String),
}

#[derive(Debug, Clone, Copy, PartialEq, Eq, Structural)]
pub enum GenerateError {
    NoEntrypoint,
    NothingToBundle,
    /// A static file has no URL.
    StaticNoUrl,
}

impl GenerateError {
    pub open spec fn text(self) -> Seq<char> {
        match self {
            GenerateError::NoEntrypoint => "failed to determine entrypoint"@,
            GenerateError::NothingToBundle => "entrypoint or module code must be specified"@,
            GenerateError::StaticNoUrl => "failed to convert to file path from url"@,
        }
    }

    pub fn message(&self) -> (r: String)
        ensures
            r@ == self.text(),
    {
        match self {
            GenerateError::NoEntrypoint => "failed to determine entrypoint".to_owned(),
            GenerateError::NothingToBundle
                => "entrypoint or module code must be specified".to_owned(),
            GenerateError::StaticNoUrl => "failed to convert to file path from url".to_owned(),
        }
    }
}

/// [`CreateGraphArgs`], taken by view.
pub enum SourceView {
    File(Seq<char>),
    Unnormalized(Seq<char>),
    Code(Seq<char>),
}

impl View for CreateGraphArgs {
    type V = SourceView;

    open spec fn view(&self) -> SourceView {
        match self {
            CreateGraphArgs::File(p) => SourceView::File(p@),
            CreateGraphArgs::Unnormalized(p) => SourceView::Unnormalized(p@),
            CreateGraphArgs::Code(p) => SourceView::Code(p@),
        }
    }
}

impl CreateGraphArgs {
    /// The path of the module that the graph starts at.
    pub fn path(&self) -> (r: &str)
        ensures
            r@ == match self@ {
                SourceView::File(p) => p,
                SourceView::Unnormalized(p) => p,
                SourceView::Code(p) => p,
            },
    {
        match self {
            CreateGraphArgs::File(p) => p.as_str(),
            CreateGraphArgs::Unnormalized(p) => p.as_str(),
            CreateGraphArgs::Code(p) => p.as_str(),
        }
    }
}

/// Where the graph starts: the entry path if it is a file; the index module of a directory, or the
/// main module of its package; source code where no path was asked for.
pub open spec fn entry_choice(entry: Option<EntryFacts>, cwd: Seq<char>, has_code: bool) -> Result<
    SourceView,
    GenerateError,
> {
    match entry {
        Some(f) => if f.is_file {
            if is_absolute(f.path@) {
                Ok(SourceView::File(f.path@))
            } else {
                Ok(SourceView::Unnormalized(joined(cwd, f.path@)))
            }
        } else if f.is_dir {
            if f.has_index_ts {
                Ok(SourceView::File(joined(f.path@, "index.ts"@)))
            } else if f.has_index_js {
                Ok(SourceView::File(joined(f.path@, "index.js"@)))
            } else if f.use_byonm && f.package_main is Some {
                Ok(SourceView::File(joined(f.workspace_root@, (f.package_main->0)@)))
            } else {
                Err(GenerateError::NoEntrypoint)
            }
        } else {
            Err(GenerateError::NoEntrypoint)
        },
        None => if has_code {
            Ok(SourceView::Code("/src/index.ts"@))
        } else {
            Err(GenerateError::NothingToBundle)
        },
    }
}

/// Where the module graph starts.
pub fn choose_entrypoint(entry: Option<EntryFacts>, cwd: &str, has_code: bool) -> (r: Result<
    CreateGraphArgs,
    GenerateError,
>)
    ensures
        match r {
            Ok(s) => entry_choice(entry, cwd@, has_code) == Ok::<SourceView, GenerateError>(s@),
            Err(e) => entry_choice(entry, cwd@, has_code) == Err::<SourceView, GenerateError>(e),
        },
{
    match entry {
        Some(f) => {
            if f.is_file {
                if absolute(f.path.as_str()) {
                    Ok(CreateGraphArgs::File(f.path))
                } else {
                    Ok(CreateGraphArgs::Unnormalized(join_path(cwd, f.path.as_str())))
                }
            } else if f.is_dir {
                if f.has_index_ts {
                    Ok(CreateGraphArgs::File(join_path(f.path.as_str(), "index.ts")))
                } else if f.has_index_js {
                    Ok(CreateGraphArgs::File(join_path(f.path.as_str(), "index.js")))
                } else if f.use_byonm {
                    match &f.package_main {
                        Some(m) => Ok(
                            CreateGraphArgs::File(join_path(f.workspace_root.as_str(), m.as_str())),
                        ),
                        None => Err(GenerateError::NoEntrypoint),
                    }
                } else {
                    Err(GenerateError::NoEntrypoint)
                }
            } else {
                Err(GenerateError::NoEntrypoint)
            }
        },
        None => {
            if has_code {
                Ok(CreateGraphArgs::Code("/src/index.ts".to_owned()))
            } else {
                Err(GenerateError::NothingToBundle)
            }
        },
    }
}

// ---------------------------------------------------------------------------
// Opaque data
// ---------------------------------------------------------------------------

/// An item of the archive that is no module.
#[derive(Debug)]
pub struct OpaqueData {
    pub specifier: String,
    pub content: Vec<u8>,
}

/// An item, taken by view.
pub open spec fn item_view(d: OpaqueData) -> (Seq<char>, Seq<u8>) {
    (d.specifier@, d.content@)
}

pub open spec fn item_views(v: Seq<OpaqueData>) -> Seq<(Seq<char>, Seq<u8>)> {
    v.map_values(|d: OpaqueData| item_view(d))
}

/// The insertion-ordered map of the `indexmap` crate.
#[verifier::external_type_specification]
#[verifier::external_body]
#[verifier::reject_recursive_types(K)]
#[verifier::reject_recursive_types(V)]
#[verifier::reject_recursive_types(S)]
pub struct ExIndexMap<K, V, S>(indexmap::IndexMap<K, V, S>);

/// The keys and values of a map, in its order.
pub uninterp spec fn map_entries(m: IndexMap<String, Vec<u8>>) -> Seq<(Seq<char>, Seq<u8>)>;

/// `IndexMap::new` makes an empty map.
#[verifier::external_body]
pub(crate) fn new_map() -> (r: IndexMap<String, Vec<u8>>)
    ensures
        map_entries(r) == Seq::<(Seq<char>, Seq<u8>)>::empty(),
{
    IndexMap::new()
}

/// `IndexMap::insert` puts a key that is not there at the end of the order; the value of a key that
/// is there is replaced in its place.
#[verifier::external_body]
pub(crate) fn map_insert(m: &mut IndexMap<String, Vec<u8>>, key: String, value: Vec<u8>)
    ensures
        (forall|i: int|
            0 <= i < map_entries(*old(m)).len() ==> (#[trigger] map_entries(*old(m))[i]).0 != key@)
            ==> map_entries(*final(m)) == map_entries(*old(m)).push((key@, value@)),
        forall|i: int|
            0 <= i < map_entries(*old(m)).len() && (#[trigger] map_entries(*old(m))[i]).0 == key@
                ==> map_entries(*final(m)) == map_entries(*old(m)).update(i, (key@, value@)),
{
    m.insert(key, value);
}

/// `IndexMap::into_iter` hands the entries out in the map's order.
#[verifier::external_body]
pub(crate) fn map_into_items(m: IndexMap<String, Vec<u8>>) -> (r: Vec<OpaqueData>)
    ensures
        item_views(r@) == map_entries(m),
{
    m.into_iter().map(|(specifier, content)| OpaqueData { specifier, content }).collect()
}

/// The key of the virtual file system's `n`th content.
pub open spec fn vfs_key(n: nat) -> Seq<char> {
    "vfs://"@ + decimal_text(n)
}

/// Collects the contents of the virtual file system, each under a key of its own.
pub struct VfsContents {
    pub map: IndexMap<String, Vec<u8>>,
    pub count: u32,
}

impl VfsContents {
    /// The contents with their keys, in the order in which they were taken in.
    pub open spec fn items(self) -> Seq<(Seq<char>, Seq<u8>)> {
        map_entries(self.map)
    }

    /// The contents stand under the keys of their positions.
    pub open spec fn wf(self) -> bool {
        &&& self.items().len() == self.count
        &&& forall|i: int|
            0 <= i < self.items().len() ==> (#[trigger] self.items()[i]).0 == vfs_key(i as nat)
    }

    pub fn new() -> (r: VfsContents)
        ensures
            r.wf(),
            r.count == 0,
    {
        VfsContents { map: new_map(), count: 0 }
    }

    /// Takes in one more content and gives its key.
    pub fn insert(&mut self, content: Vec<u8>) -> (r: String)
        requires
            old(self).wf(),
            old(self).count < u32::MAX,
        ensures
            final(self).wf(),
            r@ == vfs_key(old(self).count as nat),
            final(self).count == old(self).count + 1,
            final(self).items() == old(self).items().push((r@, content@)),
    {
        let key = join("vfs://", decimal(self.count as u64).as_str());
        proof {
            assert forall|i: int| 0 <= i < self.items().len() implies (
            #[trigger] map_entries(self.map)[i]).0 != key@ by {
                assert(self.items()[i].0 == vfs_key(i as nat));
                if vfs_key(i as nat) == key@ {
                    law_vfs_keys_are_distinct(i as nat, self.count as nat);
                }
            }
        }
        map_insert(&mut self.map, key.clone(), content);
        self.count = self.count + 1;
        key
    }
}

// ---------------------------------------------------------------------------
// Packages
// ---------------------------------------------------------------------------

/// How the packages of the program that is bundled are kept.
#[derive(Debug)]
pub enum NpmState {
    /// In a cache that the runtime manages: whether it holds any, and the key of the
    /// `node_modules` directory, where there is one.
    Managed { has_packages: bool, node_modules_dir: Option<String> },
    /// In a `node_modules` directory that the user keeps, under this key.
    Byonm { root_node_modules_dir: Option<String> },
}

/// What an archive records of the packages.
#[derive(Debug)]
pub struct NpmPlan {
    pub node_modules: Option<NodeModules>,
    /// Whether the archive keeps the versions that were resolved.
    pub keeps_snapshot: bool,
    /// Whether its virtual file system is made from the packages; it is empty otherwise.
    pub embeds_packages: bool,
}

pub open spec fn npm_planned(npm: NpmState) -> NpmPlan {
    match npm {
        NpmState::Managed { has_packages, node_modules_dir } => NpmPlan {
            node_modules: if has_packages {
                Some(NodeModules::Managed { node_modules_dir })
            } else {
                None
            },
            keeps_snapshot: has_packages,
            embeds_packages: has_packages,
        },
        NpmState::Byonm { root_node_modules_dir } => NpmPlan {
            node_modules: Some(NodeModules::Byonm { root_node_modules_dir }),
            keeps_snapshot: false,
            embeds_packages: true,
        },
    }
}

/// What an archive records of the packages. Managed packages are recorded only where there are
/// any, and then with their versions.
pub fn npm_plan(npm: NpmState) -> (r: NpmPlan)
    ensures
        r == npm_planned(npm),
{
    match npm {
        NpmState::Managed { has_packages, node_modules_dir } => NpmPlan {
            node_modules: if has_packages {
                Some(NodeModules::Managed { node_modules_dir })
            } else {
                None
            },
            keeps_snapshot: has_packages,
            embeds_packages: has_packages,
        },
        NpmState::Byonm { root_node_modules_dir } => NpmPlan {
            node_modules: Some(NodeModules::Byonm { root_node_modules_dir }),
            keeps_snapshot: false,
            embeds_packages: true,
        },
    }
}

// ---------------------------------------------------------------------------
// Registries
// ---------------------------------------------------------------------------

/// A scope of the package configuration, with its registry.
#[derive(Debug)]
pub struct NpmScope {
    pub name: String,
    pub registry: String,
}

/// Where a registry is looked for in the archive: under its path on `https://localhost`. A registry
/// that is not reached over HTTP, or that has neither a port nor a path, needs no entry.
pub open spec fn archived_registry(url: Seq<char>) -> Option<Seq<char>> {
    match url_parsed(url) {
        Some(u) => if u.scheme != "http"@ && u.scheme != "https"@ {
            None
        } else if u.port is None && u.path == "/"@ {
            None
        } else {
            match url_with_port(u.text, None) {
                Some(a) => match url_with_host(a, "localhost"@) {
                    Some(b) => url_with_scheme(b, "https"@),
                    None => None,
                },
                None => None,
            }
        },
        None => None,
    }
}

/// Where the registry at `url` is looked for in the archive.
pub fn archive_registry(url: &str) -> (r: Option<String>)
    ensures
        match r {
            Some(u) => archived_registry(url@) == Some(u@),
            None => archived_registry(url@) is None,
        },
{
    match parse_url(url) {
        Some(u) => {
            if !needs_archive_entry(u.scheme.as_str(), u.port, u.path.as_str()) {
                return None;
            }
            match set_port(u.text.as_str(), None) {
                Some(a) => match set_host(a.as_str(), "localhost") {
                    Some(b) => set_scheme(b.as_str(), "https"),
                    None => None,
                },
                None => None,
            }
        },
        None => None,
    }
}

/// Whether a registry with these parts needs an entry of its own.
pub fn needs_archive_entry(scheme: &str, port: Option<u16>, path: &str) -> (r: bool)
    ensures
        r == ((scheme@ == "http"@ || scheme@ == "https"@) && !(port is None && path@ == "/"@)),
{
    (same(scheme, "http") || same(scheme, "https")) && !(port.is_none() && same(path, "/"))
}

/// A scope, taken by view.
pub open spec fn scope_view(s: NpmScope) -> (Seq<char>, Seq<char>) {
    (s.name@, s.registry@)
}

pub open spec fn scope_views(v: Seq<NpmScope>) -> Seq<(Seq<char>, Seq<char>)> {
    v.map_values(|s: NpmScope| scope_view(s))
}

/// The scopes that need an entry, with where their registries are looked for.
pub open spec fn archived_scopes(scopes: Seq<(Seq<char>, Seq<char>)>, n: int) -> Seq<
    (Seq<char>, Seq<char>),
>
    decreases n,
{
    if n <= 0 {
        Seq::empty()
    } else {
        let rest = archived_scopes(scopes, n - 1);
        match archived_registry(scopes[n - 1].1) {
            Some(u) => rest.push((scopes[n - 1].0, u)),
            None => rest,
        }
    }
}

/// The scopes that the archive records.
pub fn archive_scopes(scopes: &Vec<NpmScope>) -> (r: Vec<NpmScope>)
    ensures
        scope_views(r@) == archived_scopes(scope_views(scopes@), scopes@.len() as int),
{
    let mut out: Vec<NpmScope> = Vec::new();
    let mut i: usize = 0;
    assert(scope_views(out@) =~= Seq::<(Seq<char>, Seq<char>)>::empty());
    while i < scopes.len()
        invariant
            i <= scopes@.len(),
            scope_views(out@) == archived_scopes(scope_views(scopes@), i as int),
        decreases scopes@.len() - i,
    {
        assert(scope_views(scopes@)[i as int] == scope_view(scopes@[i as int]));
        match archive_registry(scopes[i].registry.as_str()) {
            Some(u) => {
                let s = NpmScope { name: scopes[i].name.clone(), registry: u };
                let ghost before = out@;
                out.push(s);
                assert(scope_views(out@) =~= scope_views(before).push(scope_view(s)));
            },
            None => {},
        }
        i = i + 1;
    }
    out
}

// ---------------------------------------------------------------------------
// Files of the graph
// ---------------------------------------------------------------------------

/// The kind of a module of the graph.
#[derive(Debug, Clone, Copy, PartialEq, Eq, Structural)]
pub enum GraphModuleKind {
    /// Code, which is compiled where its media type calls for it.
    Js { emittable: bool },
    Json,
    Wasm,
    Npm,
    Node,
    External,
}

/// What of a graph module is put into the virtual file system.
#[derive(Debug, Clone, Copy, PartialEq, Eq, Structural)]
pub enum VfsSource {
    /// Nothing.
    Skip,
    /// Nothing, but it must compile.
    MustCompile,
    /// What it compiles to.
    Emitted,
    /// Its source.
    Original,
    /// What the file holds on disk.
    FromDisk,
}

/// What of a graph module is put into the virtual file system: the compiled form, the source or
/// the file of a module that lies on disk, and nothing of any other. A module that is no data URL
/// is compiled even where it is not put in.
pub open spec fn vfs_source_of(scheme: Seq<char>, kind: GraphModuleKind) -> VfsSource {
    if scheme == "data"@ {
        VfsSource::Skip
    } else if scheme == "file"@ {
        match kind {
            GraphModuleKind::Js { emittable } => if emittable {
                VfsSource::Emitted
            } else {
                VfsSource::Original
            },
            GraphModuleKind::Json => VfsSource::Original,
            GraphModuleKind::Wasm => VfsSource::Original,
            _ => VfsSource::FromDisk,
        }
    } else {
        match kind {
            GraphModuleKind::Js { emittable } => if emittable {
                VfsSource::MustCompile
            } else {
                VfsSource::Skip
            },
            _ => VfsSource::Skip,
        }
    }
}

/// What of a graph module is put into the virtual file system.
pub fn vfs_source(scheme: &str, kind: GraphModuleKind) -> (r: VfsSource)
    ensures
        r == vfs_source_of(scheme@, kind),
{
    if same(scheme, "data") {
        return VfsSource::Skip;
    }
    if same(scheme, "file") {
        match kind {
            GraphModuleKind::Js { emittable } => if emittable {
                VfsSource::Emitted
            } else {
                VfsSource::Original
            },
            GraphModuleKind::Json => VfsSource::Original,
            GraphModuleKind::Wasm => VfsSource::Original,
            _ => VfsSource::FromDisk,
        }
    } else {
        match kind {
            GraphModuleKind::Js { emittable } => if emittable {
                VfsSource::MustCompile
            } else {
                VfsSource::Skip
            },
            _ => VfsSource::Skip,
        }
    }
}

/// A module of the graph, as far as the virtual file system is concerned.
#[derive(Debug)]
pub struct GraphFile {
    pub specifier: String,
    pub scheme: String,
    pub kind: GraphModuleKind,
}

/// What is done about a module of the graph for the virtual file system.
#[derive(Debug)]
pub struct VfsStep {
    pub specifier: String,
    pub source: VfsSource,
}

pub open spec fn step_view(s: VfsStep) -> (Seq<char>, VfsSource) {
    (s.specifier@, s.source)
}

pub open spec fn step_views(v: Seq<VfsStep>) -> Seq<(Seq<char>, VfsSource)> {
    v.map_values(|s: VfsStep| step_view(s))
}

/// What is done about the first `n` modules of the graph, where they are put into the virtual file
/// system.
pub open spec fn graph_steps(modules: Seq<GraphFile>, n: int) -> Seq<(Seq<char>, VfsSource)>
    decreases n,
{
    if n <= 0 {
        Seq::empty()
    } else {
        let m = modules[n - 1];
        let rest = graph_steps(modules, n - 1);
        match vfs_source_of(m.scheme@, m.kind) {
            VfsSource::Skip => rest,
            source => rest.push((m.specifier@, source)),
        }
    }
}

/// What is done about the modules of the graph: they are put into the virtual file system, in their
/// order, only where the user keeps `node_modules`.
pub fn graph_vfs_steps(use_byonm: bool, modules: &Vec<GraphFile>) -> (r: Vec<VfsStep>)
    ensures
        step_views(r@) == if use_byonm {
            graph_steps(modules@, modules@.len() as int)
        } else {
            Seq::empty()
        },
{
    let mut out: Vec<VfsStep> = Vec::new();
    assert(step_views(out@) =~= Seq::<(Seq<char>, VfsSource)>::empty());
    if !use_byonm {
        return out;
    }
    let mut i: usize = 0;
    while i < modules.len()
        invariant
            i <= modules@.len(),
            step_views(out@) == graph_steps(modules@, i as int),
        decreases modules@.len() - i,
    {
        let m = &modules[i];
        let source = vfs_source(m.scheme.as_str(), m.kind);
        if source != VfsSource::Skip {
            let step = VfsStep { specifier: m.specifier.clone(), source };
            let ghost before = out@;
            out.push(step);
            assert(step_views(out@) =~= step_views(before).push(step_view(step)));
        }
        i = i + 1;
    }
    out
}

/// A path that a static pattern matched.
#[derive(Debug)]
pub struct StaticMatch {
    /// Its key relative to the root of the archive.
    pub relative_key: String,
    pub is_file: bool,
    /// What the file holds.
    pub content: Vec<u8>,
}

/// The items for the files among the first `n` matches.
pub open spec fn static_items(matches: Seq<StaticMatch>, n: int) -> Seq<(Seq<char>, Seq<u8>)>
    decreases n,
{
    if n <= 0 {
        Seq::empty()
    } else if matches[n - 1].is_file {
        static_items(matches, n - 1).push(
            ("static:"@ + matches[n - 1].relative_key@, matches[n - 1].content@),
        )
    } else {
        static_items(matches, n - 1)
    }
}

/// The specifiers of some items.
pub open spec fn item_keys(items: Seq<(Seq<char>, Seq<u8>)>) -> Seq<Seq<char>> {
    items.map_values(|d: (Seq<char>, Seq<u8>)| d.0)
}

/// The URL of a path that a static pattern matched, by which its key is found.
pub fn static_match_url(path: &str) -> (r: Result<String, GenerateError>)
    ensures
        match r {
            Ok(u) => file_url_of(path@) == Some(u@),
            Err(e) => e == GenerateError::StaticNoUrl && file_url_of(path@) is None,
        },
        r is Ok <==> is_absolute(path@),
{
    match file_url(path) {
        Some(u) => Ok(u),
        None => Err(GenerateError::StaticNoUrl),
    }
}

/// Adds the static files to the items of an archive, and gives their specifiers.
pub fn include_glob_patterns_in_eszip(matches: &Vec<StaticMatch>, items: &mut Vec<OpaqueData>) -> (r:
    Vec<String>)
    ensures
        item_views(final(items)@) == item_views(old(items)@) + static_items(
            matches@,
            matches@.len() as int,
        ),
        views(r@) == item_keys(static_items(matches@, matches@.len() as int)),
{
    let mut out: Vec<String> = Vec::new();
    let ghost start = item_views(items@);
    let mut i: usize = 0;
    assert(views(out@) =~= item_keys(static_items(matches@, 0)));
    assert(item_views(items@) =~= start + static_items(matches@, 0));
    while i < matches.len()
        invariant
            i <= matches@.len(),
            start == item_views(old(items)@),
            item_views(items@) == start + static_items(matches@, i as int),
            views(out@) == item_keys(static_items(matches@, i as int)),
        decreases matches@.len() - i,
    {
        let m = &matches[i];
        if m.is_file {
            let specifier = join("static:", m.relative_key.as_str());
            let content = copy_range(&m.content, 0, m.content.len());
            assert(content@ =~= m.content@);
            let ghost done = static_items(matches@, i as int);
            let ghost before = items@;
            let item = OpaqueData { specifier: specifier.clone(), content };
            items.push(item);
            proof {
                lemma_views_push(out@, specifier);
                assert(item_views(items@) =~= item_views(before).push(item_view(item)));
                assert(item_keys(done.push(item_view(item))) =~= item_keys(done).push(
                    specifier@,
                ));
                assert(start + done.push(item_view(item)) =~= (start + done).push(
                    item_view(item),
                ));
            }
            out.push(specifier);
        }
        i = i + 1;
    }
    out
}

// ---------------------------------------------------------------------------
// The archive
// ---------------------------------------------------------------------------

/// The URL of the module that the graph starts at. A path that has no URL is replaced by a
/// stand-in.
pub fn entry_specifier(path: &str) -> (r: String)
    ensures
        r@ == match file_url_of(path@) {
            Some(u) => u,
            None => "http://localhost"@,
        },
{
    match file_url(path) {
        Some(u) => u,
        None => "http://localhost".to_owned(),
    }
}

/// The import map of the workspace.
#[derive(Debug)]
pub struct ImportMapFacts {
    /// The scheme of its URL, and its key relative to the root of the archive.
    pub scheme: String,
    pub key: String,
    pub json: String,
}

/// The import map as an archive records it.
#[derive(Debug)]
pub struct ArchivedImportMap {
    pub specifier: String,
    pub json: String,
}

/// A package of the workspace that is published to the registry of JSR.
#[derive(Debug)]
pub struct WorkspacePackage {
    /// The key of its directory relative to the root of the archive.
    pub relative_base: String,
    pub name: String,
    pub version: Option<String>,
    /// What it exports, by name, and the module behind each.
    pub exports: Vec<(String, String)>,
}

/// A `package.json` of the workspace.
#[derive(Debug)]
pub struct PackageFile {
    /// Its key relative to the root of the archive.
    pub key: String,
    pub json: String,
}

/// Whether the dependencies that a `package.json` names are resolved.
#[derive(Debug, Clone, Copy, PartialEq, Eq, Structural)]
pub enum PackageJsonDeps {
    Enabled,
    Disabled,
}

/// What the workspace resolves imports by, besides its import map.
#[derive(Debug)]
pub struct ResolverFacts {
    pub jsr_packages: Vec<WorkspacePackage>,
    pub package_files: Vec<PackageFile>,
    pub package_json_deps: PackageJsonDeps,
}

/// What an archive is made from, besides the modules of the graph.
pub struct ArchiveInputs {
    /// The key of the module that the graph starts at.
    pub entry_key: String,
    pub checksum: Option<Checksum>,
    pub npm: NpmState,
    pub contents: VfsContents,
    pub scopes: Vec<NpmScope>,
    pub import_map: Option<ImportMapFacts>,
    pub workspace: ResolverFacts,
    /// What the static patterns matched, where any were given.
    pub statics: Option<Vec<StaticMatch>>,
}

/// What an archive records of itself.
#[derive(Debug)]
pub struct ArchiveMetadata {
    pub entrypoint: String,
    pub npmrc_scopes: Vec<NpmScope>,
    pub node_modules: Option<NodeModules>,
    pub import_map: Option<ArchivedImportMap>,
    pub workspace: ResolverFacts,
    pub static_asset_specifiers: Vec<String>,
}

/// A new archive, besides the modules of its graph.
#[derive(Debug)]
pub struct Archive {
    /// What is added to the modules, in order.
    pub items: Vec<OpaqueData>,
    /// The checksum that is set; the default one where there is none.
    pub checksum: Option<Checksum>,
    pub keeps_snapshot: bool,
    pub metadata: ArchiveMetadata,
}

/// The static files of a request.
pub open spec fn requested_statics(statics: Option<Vec<StaticMatch>>) -> Seq<(Seq<char>, Seq<u8>)> {
    match statics {
        Some(v) => static_items(v@, v@.len() as int),
        None => Seq::empty(),
    }
}

/// The version item of an archive.
pub open spec fn version_item() -> (Seq<char>, Seq<u8>) {
    (FLOW_ESZIP_VERSION_KEY@, FLOW_ESZIP_VERSION@)
}

/// The specifier that an import map is recorded under: its key, where it is a local file, and
/// that of a local file where it is remote.
pub open spec fn import_map_key(f: ImportMapFacts) -> Seq<char> {
    if f.scheme@ == "file"@ {
        f.key@
    } else {
        "deno.json"@
    }
}

/// Whether an archive is put together as it should: the version comes first, then the contents of
/// the virtual file system, then the static files.
pub open spec fn archives(inputs: ArchiveInputs, r: Archive) -> bool {
    let statics = requested_statics(inputs.statics);
    &&& item_views(r.items@) == seq![version_item()] + inputs.contents.items() + statics
    &&& r.checksum == inputs.checksum
    &&& r.keeps_snapshot == npm_planned(inputs.npm).keeps_snapshot
    &&& r.metadata.entrypoint == inputs.entry_key
    &&& scope_views(r.metadata.npmrc_scopes@) == archived_scopes(
        scope_views(inputs.scopes@),
        inputs.scopes@.len() as int,
    )
    &&& r.metadata.node_modules == npm_planned(inputs.npm).node_modules
    &&& match inputs.import_map {
        Some(f) => r.metadata.import_map matches Some(m) && m.specifier@ == import_map_key(f)
            && m.json == f.json,
        None => r.metadata.import_map is None,
    }
    &&& r.metadata.workspace == inputs.workspace
    &&& views(r.metadata.static_asset_specifiers@) == item_keys(statics)
}

/// Puts an archive together.
pub fn generate_binary_eszip(inputs: ArchiveInputs) -> (r: Archive)
    ensures
        archives(inputs, r),
{
    let mut version: Vec<u8> = Vec::new();
    version.push(FLOW_ESZIP_VERSION[0]);
    version.push(FLOW_ESZIP_VERSION[1]);
    version.push(FLOW_ESZIP_VERSION[2]);
    assert(version@ =~= FLOW_ESZIP_VERSION@);
    let mut items: Vec<OpaqueData> = Vec::new();
    items.push(OpaqueData { specifier: FLOW_ESZIP_VERSION_KEY.to_owned(), content: version });
    assert(item_views(items@) =~= seq![version_item()]);
    let mut contents = map_into_items(inputs.contents.map);
    let ghost before = items@;
    let ghost added = contents@;
    items.append(&mut contents);
    assert(item_views(items@) =~= item_views(before) + item_views(added));
    let npm = npm_plan(inputs.npm);
    let npmrc_scopes = archive_scopes(&inputs.scopes);
    let import_map = match inputs.import_map {
        Some(f) => {
            let specifier = if same(f.scheme.as_str(), "file") {
                f.key
            } else {
                "deno.json".to_owned()
            };
            Some(ArchivedImportMap { specifier, json: f.json })
        },
        None => None,
    };
    let static_asset_specifiers: Vec<String> = match &inputs.statics {
        Some(matches) => include_glob_patterns_in_eszip(matches, &mut items),
        None => Vec::new(),
    };
    proof {
        let head = seq![version_item()] + inputs.contents.items();
        if inputs.statics is None {
            assert(head + Seq::<(Seq<char>, Seq<u8>)>::empty() =~= head);
            assert(views(static_asset_specifiers@) =~= item_keys(
                Seq::<(Seq<char>, Seq<u8>)>::empty(),
            ));
        }
    }
    Archive {
        items,
        checksum: inputs.checksum,
        keeps_snapshot: npm.keeps_snapshot,
        metadata: ArchiveMetadata {
            entrypoint: inputs.entry_key,
            npmrc_scopes,
            node_modules: npm.node_modules,
            import_map,
            workspace: inputs.workspace,
            static_asset_specifiers,
        },
    }
}

// ---------------------------------------------------------------------------
// Bundling
// ---------------------------------------------------------------------------

/// What is to be bundled.
#[derive(Debug)]
pub struct BundleRequest {
    /// The entry path that was asked for.
    pub entry: Option<EntryFacts>,
    pub cwd: String,
    /// Whether source code was given.
    pub has_code: bool,
    pub checksum: Option<Checksum>,
    /// What is left out of the bundle.
    pub exclude: Vec<String>,
}

/// A bundle that is being made.
#[derive(Debug)]
pub struct Bundling {
    pub checksum: Option<Checksum>,
    pub exclude: Vec<String>,
    /// The module graph, once it is there.
    pub graph: Option<ModuleGraph>,
}

impl Bundling {
    /// Begins a bundle: the graph is to be created first, and it starts at the module that is given
    /// back.
    pub fn begin(request: BundleRequest) -> (r: Result<(Bundling, CreateGraphArgs), GenerateError>)
        ensures
            match r {
                Ok((b, start)) => {
                    &&& entry_choice(request.entry, request.cwd@, request.has_code) == Ok::<
                        SourceView,
                        GenerateError,
                    >(start@)
                    &&& b == (Bundling {
                        checksum: request.checksum,
                        exclude: request.exclude,
                        graph: None,
                    })
                },
                Err(e) => entry_choice(request.entry, request.cwd@, request.has_code) == Err::<
                    SourceView,
                    GenerateError,
                >(e),
            },
    {
        match choose_entrypoint(request.entry, request.cwd.as_str(), request.has_code) {
            Ok(start) => Ok(
                (
                    Bundling {
                        checksum: request.checksum,
                        exclude: request.exclude,
                        graph: None,
                    },
                    start,
                ),
            ),
            Err(e) => Err(e),
        }
    }

    /// Takes in the graph, and the normalised path at which it starts. What goes into the archive
    /// besides the modules is to be collected next, with the key of the URL that is given back.
    pub fn graph_created(&mut self, graph: ModuleGraph, path: &str) -> (r: String)
        ensures
            *final(self) == (Bundling { graph: Some(graph), ..*old(self) }),
            r@ == match file_url_of(path@) {
                Some(u) => u,
                None => "http://localhost"@,
            },
    {
        self.graph = Some(graph);
        entry_specifier(path)
    }

    /// Ends the bundle: what is written beside the modules of the graph, with the checksum that was
    /// asked for, and which of the modules are left out.
    pub fn finish(self, collected: ArchiveInputs) -> (r: Result<
        (Archive, Option<ModuleExclusion>),
        InvalidGlob,
    >)
        requires
            self.graph is Some,
        ensures
            match r {
                Ok((archive, exclusion)) => {
                    &&& excludes(self.graph->0, views(self.exclude@), Ok(exclusion))
                    &&& archives((ArchiveInputs { checksum: self.checksum, ..collected }), archive)
                },
                Err(e) => excludes(self.graph->0, views(self.exclude@), Err(e)),
            },
            r is Err <==> exists|i: int|
                0 <= i < self.exclude@.len() && is_glob(#[trigger] views(self.exclude@)[i])
                    && !is_valid_glob(views(self.exclude@)[i]),
    {
        let graph = self.graph.unwrap();
        match build_module_exclusion(&graph, &self.exclude) {
            Ok(exclusion) => {
                let mut inputs = collected;
                inputs.checksum = self.checksum;
                Ok((generate_binary_eszip(inputs), exclusion))
            },
            Err(e) => Err(e),
        }
    }
}

// ---------------------------------------------------------------------------
// Laws
// ---------------------------------------------------------------------------

/// No two contents of the virtual file system share a key.
pub proof fn law_vfs_keys_are_distinct(a: nat, b: nat)
    requires
        vfs_key(a) == vfs_key(b),
    ensures
        a == b,
{
    let p = "vfs://"@;
    assert(decimal_text(a) =~= vfs_key(a).skip(p.len() as int));
    assert(decimal_text(b) =~= vfs_key(b).skip(p.len() as int));
    lemma_decimal_text_injective(a, b);
}

proof fn lemma_decimal_text_injective(a: nat, b: nat)
    requires
        decimal_text(a) == decimal_text(b),
    ensures
        a == b,
    decreases a,
{
    lemma_decimal_text_len(a);
    lemma_decimal_text_len(b);
    assert(decimal_text(a).last() == decimal_text(b).last());
    if a >= 10 && b >= 10 {
        assert(decimal_text(a).drop_last() =~= decimal_text(a / 10));
        assert(decimal_text(b).drop_last() =~= decimal_text(b / 10));
        lemma_decimal_text_injective(a / 10, b / 10);
        assert(a == (a / 10) * 10 + a % 10);
        assert(b == (b / 10) * 10 + b % 10);
    }
}

proof fn lemma_decimal_text_len(n: nat)
    ensures
        decimal_text(n).len() >= 1,
        n >= 10 <==> decimal_text(n).len() >= 2,
        decimal_text(n).last() == crate::text::digit_char(n % 10),
    decreases n,
{
    if n >= 10 {
        lemma_decimal_text_len(n / 10);
    }
}

/// The version that a new archive records is the one that readers accept: an archive made here can
/// be read here.
pub proof fn law_new_archive_is_readable(items: Seq<(Seq<char>, Seq<u8>)>)
    requires
        items.len() > 0,
        items[0] == version_item(),
    ensures
        items[0].0 == FLOW_ESZIP_VERSION_KEY@,
        is_current_version(Some(items[0].1)),
{
}

/// A bundle starts at the file that was asked for, from the working directory where that is not
/// absolute; in a directory at its `index.ts`, or else its `index.js`, or else at the main module of
/// a package whose `node_modules` the user keeps; and at code only where no path was asked for.
pub proof fn law_bundles_start_where_asked(f: EntryFacts, cwd: Seq<char>, has_code: bool)
    ensures
        f.is_file && f.path@.len() > 0 && f.path@[0] == '/' ==> entry_choice(Some(f), cwd, has_code)
            == Ok::<SourceView, GenerateError>(SourceView::File(f.path@)),
        f.is_file && !(f.path@.len() > 0 && f.path@[0] == '/') ==> entry_choice(
            Some(f),
            cwd,
            has_code,
        ) == Ok::<SourceView, GenerateError>(SourceView::Unnormalized(joined(cwd, f.path@))),
        !f.is_file && f.is_dir && f.has_index_ts ==> entry_choice(Some(f), cwd, has_code) == Ok::<
            SourceView,
            GenerateError,
        >(SourceView::File(joined(f.path@, "index.ts"@))),
        !f.is_file && f.is_dir && !f.has_index_ts && f.has_index_js ==> entry_choice(
            Some(f),
            cwd,
            has_code,
        ) == Ok::<SourceView, GenerateError>(SourceView::File(joined(f.path@, "index.js"@))),
        !f.is_file && f.is_dir && !f.has_index_ts && !f.has_index_js ==> match f.package_main {
            Some(m) if f.use_byonm => entry_choice(Some(f), cwd, has_code) == Ok::<
                SourceView,
                GenerateError,
            >(SourceView::File(joined(f.workspace_root@, m@))),
            _ => entry_choice(Some(f), cwd, has_code) == Err::<SourceView, GenerateError>(
                GenerateError::NoEntrypoint,
            ),
        },
        !f.is_file && !f.is_dir ==> entry_choice(Some(f), cwd, has_code) == Err::<
            SourceView,
            GenerateError,
        >(GenerateError::NoEntrypoint),
        entry_choice(None, cwd, true) == Ok::<SourceView, GenerateError>(
            SourceView::Code("/src/index.ts"@),
        ),
        entry_choice(None, cwd, false) == Err::<SourceView, GenerateError>(
            GenerateError::NothingToBundle,
        ),
{
}

/// Every file that a static pattern matched goes into the archive under its key, with what it holds,
/// in the order of the matches, and no directory does.
pub proof fn law_static_files_go_in(matches: Seq<StaticMatch>, n: int)
    requires
        0 <= n <= matches.len(),
    ensures
        static_items(matches, n) == matches.take(n).filter_map(
            |m: StaticMatch|
                if m.is_file {
                    Some(("static:"@ + m.relative_key@, m.content@))
                } else {
                    None
                },
        ),
    decreases n,
{
    let f = |m: StaticMatch|
        if m.is_file {
            Some(("static:"@ + m.relative_key@, m.content@))
        } else {
            None
        };
    if n > 0 {
        law_static_files_go_in(matches, n - 1);
        matches.lemma_filter_map_take_succ(f, n - 1);
        assert(static_items(matches, n) =~= matches.take(n).filter_map(f));
    } else {
        assert(matches.take(0).filter_map(f) =~= Seq::empty());
    }
}

/// Every module of the graph that lies on disk goes into the virtual file system, compiled where it
/// can be, and no other does, though a remote module must compile; what a data URL holds is left
/// where it is.
pub proof fn law_local_modules_go_in(modules: Seq<GraphFile>, n: int)
    requires
        0 <= n <= modules.len(),
    ensures
        graph_steps(modules, n) == modules.take(n).filter_map(
            |m: GraphFile|
                if m.scheme@ == "file"@ {
                    Some(
                        (
                            m.specifier@,
                            match m.kind {
                                GraphModuleKind::Js { emittable: true } => VfsSource::Emitted,
                                GraphModuleKind::Js { emittable: false } => VfsSource::Original,
                                GraphModuleKind::Json | GraphModuleKind::Wasm => VfsSource::Original,
                                GraphModuleKind::Npm
                                | GraphModuleKind::Node
                                | GraphModuleKind::External => VfsSource::FromDisk,
                            },
                        ),
                    )
                } else if m.scheme@ != "data"@ && m.kind == (GraphModuleKind::Js {
                    emittable: true,
                }) {
                    Some((m.specifier@, VfsSource::MustCompile))
                } else {
                    None
                },
        ),
    decreases n,
{
    let f = |m: GraphFile|
        if m.scheme@ == "file"@ {
            Some(
                (
                    m.specifier@,
                    match m.kind {
                        GraphModuleKind::Js { emittable: true } => VfsSource::Emitted,
                        GraphModuleKind::Js { emittable: false } => VfsSource::Original,
                        GraphModuleKind::Json | GraphModuleKind::Wasm => VfsSource::Original,
                        GraphModuleKind::Npm
                        | GraphModuleKind::Node
                        | GraphModuleKind::External => VfsSource::FromDisk,
                    },
                ),
            )
        } else if m.scheme@ != "data"@ && m.kind == (GraphModuleKind::Js { emittable: true }) {
            Some((m.specifier@, VfsSource::MustCompile))
        } else {
            None
        };
    reveal_strlit("file");
    reveal_strlit("data");
    assert("file"@[0] == 'f' && "data"@[0] == 'd');
    if n > 0 {
        law_local_modules_go_in(modules, n - 1);
        modules.lemma_filter_map_take_succ(f, n - 1);
        assert(graph_steps(modules, n) =~= modules.take(n).filter_map(f));
    } else {
        assert(modules.take(0).filter_map(f) =~= Seq::empty());
    }
}

/// The archive records every scope whose registry is a web address with a port or a path of its own,
/// under its name and with that address on this machine, and no other.
pub proof fn law_scopes_are_kept(scopes: Seq<(Seq<char>, Seq<char>)>, n: int)
    requires
        0 <= n <= scopes.len(),
    ensures
        archived_scopes(scopes, n) == scopes.take(n).filter_map(
            |s: (Seq<char>, Seq<char>)|
                match url_parsed(s.1) {
                    Some(u) => if (u.scheme == "http"@ || u.scheme == "https"@) && (u.port is Some
                        || u.path != "/"@) {
                        match url_with_port(u.text, None) {
                            Some(a) => match url_with_host(a, "localhost"@) {
                                Some(b) => match url_with_scheme(b, "https"@) {
                                    Some(c) => Some((s.0, c)),
                                    None => None,
                                },
                                None => None,
                            },
                            None => None,
                        }
                    } else {
                        None
                    },
                    None => None,
                },
        ),
    decreases n,
{
    let f = |s: (Seq<char>, Seq<char>)|
        match url_parsed(s.1) {
            Some(u) => if (u.scheme == "http"@ || u.scheme == "https"@) && (u.port is Some || u.path
                != "/"@) {
                match url_with_port(u.text, None) {
                    Some(a) => match url_with_host(a, "localhost"@) {
                        Some(b) => match url_with_scheme(b, "https"@) {
                            Some(c) => Some((s.0, c)),
                            None => None,
                        },
                        None => None,
                    },
                    None => None,
                }
            } else {
                None
            },
            None => None,
        };
    if n > 0 {
        law_scopes_are_kept(scopes, n - 1);
        scopes.lemma_filter_map_take_succ(f, n - 1);
        assert(archived_scopes(scopes, n) =~= scopes.take(n).filter_map(f));
    } else {
        assert(scopes.take(0).filter_map(f) =~= Seq::empty());
    }
}

/// An archive records packages exactly where there are any: those of a cache with the snapshot of
/// their versions, and a `node_modules` directory that the user keeps without one.
pub proof fn law_packages_are_recorded(dir: Option<String>)
    ensures
        ({
            let none = npm_planned(NpmState::Managed { has_packages: false, node_modules_dir: dir });
            none.node_modules is None && !none.keeps_snapshot && !none.embeds_packages
        }),
        ({
            let some = npm_planned(NpmState::Managed { has_packages: true, node_modules_dir: dir });
            &&& some.node_modules == Some(NodeModules::Managed { node_modules_dir: dir })
            &&& some.keeps_snapshot && some.embeds_packages
        }),
        ({
            let own = npm_planned(NpmState::Byonm { root_node_modules_dir: dir });
            &&& own.node_modules == Some(NodeModules::Byonm { root_node_modules_dir: dir })
            &&& !own.keeps_snapshot && own.embeds_packages
        }),
{
}

/// An archive holds what it was made from: its version first, then the contents of the virtual file
/// system, then the static files, in their order; and it records where it starts, its packages, its
/// scopes, its import map and which of its items are static.
pub proof fn law_archives_hold_what_they_are_made_from(inputs: ArchiveInputs, r: Archive)
    requires
        archives(inputs, r),
    ensures
        r.items@.len() == 1 + inputs.contents.items().len() + r.metadata.static_asset_specifiers@.len(),
        r.items@[0].specifier@ == "---FLOW-ESZIP-VERSION-ESZIP---"@,
        r.items@[0].content@ == seq![50u8, 46u8, 48u8],
        forall|i: int|
            0 <= i < inputs.contents.items().len() ==> {
                &&& (#[trigger] inputs.contents.items()[i]).0 == r.items@[1 + i].specifier@
                &&& inputs.contents.items()[i].1 == r.items@[1 + i].content@
            },
        forall|i: int|
            0 <= i < r.metadata.static_asset_specifiers@.len() ==> (
            #[trigger] r.metadata.static_asset_specifiers@[i])@ == r.items@[1
                + inputs.contents.items().len() + i].specifier@,
        inputs.statics is None ==> r.metadata.static_asset_specifiers@.len() == 0,
        inputs.statics matches Some(v) ==> forall|i: int|
            0 <= i < v@.len() && (#[trigger] v@[i]).is_file ==> exists|k: int|
                1 <= k < r.items@.len() && (#[trigger] r.items@[k]).specifier@ == "static:"@
                    + v@[i].relative_key@ && r.items@[k].content@ == v@[i].content@,
        r.checksum == inputs.checksum,
        r.keeps_snapshot <==> inputs.npm is Managed && inputs.npm->has_packages,
        r.metadata.node_modules is None <==> inputs.npm is Managed && !inputs.npm->has_packages,
        r.metadata.node_modules matches Some(n) ==> (n is Byonm <==> inputs.npm is Byonm),
        r.metadata.npmrc_scopes@.map_values(|s: NpmScope| (s.name@, s.registry@))
            == archived_scopes(
            inputs.scopes@.map_values(|s: NpmScope| (s.name@, s.registry@)),
            inputs.scopes@.len() as int,
        ),
        r.metadata.entrypoint@ == inputs.entry_key@,
        r.metadata.workspace == inputs.workspace,
        inputs.import_map is None <==> r.metadata.import_map is None,
        inputs.import_map matches Some(f) ==> (r.metadata.import_map->0).json@ == f.json@ && (
        r.metadata.import_map->0).specifier@ == if f.scheme@ == "file"@ {
            f.key@
        } else {
            "deno.json"@
        },
{
    assert(r.metadata.npmrc_scopes@.map_values(|s: NpmScope| (s.name@, s.registry@)) =~= scope_views(
        r.metadata.npmrc_scopes@,
    ));
    assert(inputs.scopes@.map_values(|s: NpmScope| (s.name@, s.registry@)) =~= scope_views(
        inputs.scopes@,
    ));
    let statics = requested_statics(inputs.statics);
    let all = item_views(r.items@);
    let c = inputs.contents.items();
    assert(all.len() == r.items@.len());
    assert(views(r.metadata.static_asset_specifiers@).len() == statics.len());
    assert(all == seq![version_item()] + c + statics);
    assert(all[0] == item_view(r.items@[0]));
    assert(all[0] == version_item());
    assert(FLOW_ESZIP_VERSION@ =~= seq![50u8, 46u8, 48u8]);
    assert forall|i: int| 0 <= i < c.len() implies {
        &&& (#[trigger] c[i]).0 == r.items@[1 + i].specifier@
        &&& c[i].1 == r.items@[1 + i].content@
    } by {
        assert(all[1 + i] == item_view(r.items@[1 + i]));
        assert(all[1 + i] == c[i]);
    }
    assert forall|i: int| 0 <= i < r.metadata.static_asset_specifiers@.len() implies (
    #[trigger] r.metadata.static_asset_specifiers@[i])@ == r.items@[1 + c.len() + i].specifier@ by {
        let k = 1 + c.len() + i;
        assert(all[k] == item_view(r.items@[k]));
        assert(all[k] == statics[i]);
        assert(views(r.metadata.static_asset_specifiers@)[i] == item_keys(statics)[i]);
    }
    if let Some(v) = inputs.statics {
        assert forall|i: int| 0 <= i < v@.len() && (#[trigger] v@[i]).is_file implies exists|k: int|
            1 <= k < r.items@.len() && (#[trigger] r.items@[k]).specifier@ == "static:"@
                + v@[i].relative_key@ && r.items@[k].content@ == v@[i].content@ by {
            let j = lemma_static_listed(v@, v@.len() as int, i);
            let k = 1 + c.len() + j;
            assert(all[k] == item_view(r.items@[k]));
            assert(all[k] == statics[j]);
        }
    }
}

proof fn lemma_static_listed(matches: Seq<StaticMatch>, n: int, i: int) -> (k: int)
    requires
        0 <= i < n <= matches.len(),
        matches[i].is_file,
    ensures
        0 <= k < static_items(matches, n).len(),
        static_items(matches, n)[k] == ("static:"@ + matches[i].relative_key@, matches[i].content@),
    decreases n,
{
    if i == n - 1 {
        static_items(matches, n - 1).len() as int
    } else {
        lemma_static_listed(matches, n - 1, i)
    }
}


/// Files without a name of their own are numbered, from zero, under a scheme of their own.
pub proof fn law_vfs_keys_are_numbers(n: nat)
    ensures
        "vfs://"@.is_prefix_of(vfs_key(n)),
        unsigned_number(vfs_key(n).skip("vfs://"@.len() as int), n as int) == Some(n as int),
{
    assert(vfs_key(n).take("vfs://"@.len() as int) =~= "vfs://"@);
    assert(vfs_key(n).skip("vfs://"@.len() as int) =~= decimal_text(n));
    law_numbers_read_back(n, n as int, Seq::empty());
}

} // verus!
