//! Putting the runtime of a worker together: what is to be done next, given what has been found out
//! so far.

use vstd::prelude::*;

use crate::byte_path::{text_units, BytePath};
use crate::paths::{
    absolute, components, is_absolute, join_path, joined, law_joining_adds_a_component,
    law_parent_drops_the_last_component, lemma_views_push, parent, parent_path, views,
};
use crate::runtime::boot::{
    archived_main, base_dir, build_settings, builds_with, choose_main_module, compile_base_dir,
    entrypoint_url, fs_blocked, get_runtime_context, host_root, index_files, index_names,
    is_first_existing, lacks_entrypoint, plan_boot, plans, source_root, text_view, uses_virtual_fs,
    ArchivedMain, BootError, BootPlan, BootRequest, BuildSettings, DenoRuntime, Entrypoint,
    MainModule, RuntimeContext,
};
use crate::runtime::mounts::{is_mount_set, is_mountable, refuses, MountKind, MountTable};
use crate::urls::{join_url, named_path, named_units, parse_url, url_joined, url_parsed};

verus! {

/// The file system under the mounts of a worker.
#[derive(Debug)]
pub enum BaseFs {
    /// The files of the archive alone, counted from a directory. The paths of the host below
    /// `source_root` stand for those below `compile_root`.
    Static { compile_base_dir: BytePath, compile_root: BytePath, source_root: Option<String> },
    /// The files of the archive over those of the host.
    Compiled,
}

/// What is to be done next.
#[derive(Debug)]
pub enum BootAction {
    /// Find out which of these files exist.
    LookForIndex(Vec<String>),
    /// Make the options of a build that starts at this module.
    MakeOptions { main: MainModule, settings: BuildSettings },
    /// Make the archive, from the worker's code alone or from its main module.
    MakeArchive { from_code: bool },
    /// Open the archive and create the loader of its modules, which falls back on the files of the
    /// service. An archive of an older form is brought up with the import map, where there is one.
    CreateLoader {
        include_source_map: bool,
        disable_fs_fallback: bool,
        import_map_path: Option<String>,
        service_path: String,
    },
    /// Make the temporary file system and the one under the mounts. The static files are looked up
    /// below `static_root`, where there is one.
    BuildBase { static_root: Option<BytePath>, base: BaseFs },
    /// Mount a file system. From the first one on, calls that block are checked for.
    AddMount { kind: MountKind, mount_point: String, check_sync_api: bool },
    /// Create the engine, with the file system that was put together or with the host's.
    CreateEngine { virtual_fs: bool, context: RuntimeContext },
    /// The runtime stands.
    Done(DenoRuntime),
    /// It cannot be put together.
    Fail(BootError),
}

/// What has happened.
#[derive(Debug)]
pub enum BootEvent {
    /// Which of the files exist.
    IndexFound(Vec<bool>),
    /// The options are made, and this is whether the package names a main module.
    OptionsMade { package_has_main: bool },
    ArchiveMade,
    /// The loader is there. The archive is rooted at `base_url` and records where it starts;
    /// `migrated` is whether it was of an older form.
    LoaderCreated { base_url: String, entrypoint: Option<Entrypoint>, migrated: bool },
    BaseBuilt,
    MountAdded,
    EngineCreated,
}

/// How far a runtime has been put together.
#[derive(Debug, Clone, Copy, PartialEq, Eq, Structural)]
pub enum BootStage {
    LookingForIndex,
    /// Whether only the package in the directory is left to name a main module.
    MakingOptions { directory_only: bool },
    MakingArchive,
    CreatingLoader,
    BuildingBase,
    Mounting,
    CreatingEngine,
    Over,
}

/// A runtime that is being put together.
#[derive(Debug)]
pub struct Boot {
    pub request: BootRequest,
    pub stage: BootStage,
    /// How it is put together, once the archive is there.
    pub plan: Option<BootPlan>,
    /// Where its main module is, once the loader is there, and what the archive records of it.
    pub main_module_url: String,
    pub entrypoint: Option<Entrypoint>,
    /// Whether the archive was of an older form.
    pub migrated: bool,
    /// What has been mounted.
    pub mounts: MountTable,
}

/// The mount points that a worker asks for, in the order in which they are layered.
pub open spec fn wanted_mounts(request: BootRequest) -> Seq<Seq<char>> {
    views(request.s3_mounts@) + views(request.http_mounts@)
}

/// An optional path, taken by view.
pub open spec fn path_view(p: Option<BytePath>) -> Option<Seq<char>> {
    match p {
        Some(p) => Some(p@),
        None => None,
    }
}

/// Where the main module of an archive is: under the key that it records, or at the entry point
/// that was asked for.
pub open spec fn main_url(
    base_url: Seq<char>,
    recorded: Option<Entrypoint>,
    asked: Option<Seq<char>>,
) -> Result<Seq<char>, BootError> {
    let url = match recorded {
        Some(Entrypoint::Key(k)) => Some(url_joined(base_url, k@)),
        _ => match asked {
            Some(e) => Some(
                match url_parsed(e) {
                    Some(u) => Some(u.text),
                    None => None,
                },
            ),
            None => None,
        },
    };
    match url {
        Some(Some(u)) => Ok(u),
        Some(None) => Err(BootError::BadMainUrl),
        None => Err(BootError::NoEntrypointKey),
    }
}

/// Where the static files of a worker are looked up: in the directory of the entry point that was
/// asked for.
pub open spec fn static_root(has_entrypoint: bool, main: Seq<char>) -> Result<
    Option<Seq<char>>,
    BootError,
> {
    if !has_entrypoint {
        Ok(None)
    } else {
        match named_units(main) {
            Some(p) => match parent(p) {
                Some(d) => Ok(Some(d)),
                None => Err(BootError::EntrypointNoParent),
            },
            None => Err(BootError::EntrypointNoFile),
        }
    }
}

/// [`BaseFs`], taken by view.
pub enum BaseFsView {
    Static { compile_base_dir: Seq<char>, compile_root: Seq<char>, source_root: Option<Seq<char>> },
    Compiled,
}

impl View for BaseFs {
    type V = BaseFsView;

    open spec fn view(&self) -> BaseFsView {
        match *self {
            BaseFs::Static { compile_base_dir, compile_root, source_root } => BaseFsView::Static {
                compile_base_dir: compile_base_dir@,
                compile_root: compile_root@,
                source_root: text_view(source_root),
            },
            BaseFs::Compiled => BaseFsView::Compiled,
        }
    }
}

/// The file system under the mounts: a worker that is kept from the host's sees the files of its
/// archive alone.
pub open spec fn base_fs(
    request: BootRequest,
    blocked: bool,
    base_url: Seq<char>,
    recorded: Option<Entrypoint>,
    main: Seq<char>,
) -> Result<BaseFsView, BootError> {
    if !blocked {
        Ok(BaseFsView::Compiled)
    } else {
        match base_dir(
            recorded matches Some(Entrypoint::Key(_)),
            request.entrypoint is Some,
            base_url,
            main,
        ) {
            Ok(dir) => match named_units(base_url) {
                Some(root) => Ok(
                    BaseFsView::Static {
                        compile_base_dir: dir,
                        compile_root: root,
                        source_root: host_root(main, root, request.directory@),
                    },
                ),
                None => Err(BootError::NoCompileRoot),
            },
            Err(e) => Err(e),
        }
    }
}

impl Boot {
    /// The plan is the one that the request asks for, and what is mounted is the first of what it
    /// asks for.
    pub open spec fn wf(self) -> bool {
        let n = self.mounts.points@.len() as int;
        &&& self.mounts.wf()
        &&& n <= wanted_mounts(self.request).len()
        &&& views(self.mounts.points@) == wanted_mounts(self.request).take(n)
        &&& self.mounts.s3_count == if n < self.request.s3_mounts@.len() {
            n
        } else {
            self.request.s3_mounts@.len() as int
        }
        &&& self.stage != BootStage::Mounting && self.stage != BootStage::CreatingEngine
            && self.stage != BootStage::Over ==> n == 0
        &&& match self.stage {
            BootStage::CreatingLoader
            | BootStage::BuildingBase
            | BootStage::Mounting
            | BootStage::CreatingEngine => {
                &&& self.plan matches Some(p) && plans(self.request, p)
                &&& fs_blocked(self.request.allow_host_fs_access, self.request.restrict_host_fs)
                    is Some
            },
            _ => true,
        }
        &&& self.stage == BootStage::CreatingEngine ==> n == wanted_mounts(self.request).len()
    }

    /// Whether an event can happen at this stage.
    pub open spec fn expects(self, event: BootEvent) -> bool {
        match event {
            BootEvent::IndexFound(e) => self.stage == BootStage::LookingForIndex && e@.len()
                == index_names().len(),
            BootEvent::OptionsMade { .. } => self.stage is MakingOptions,
            BootEvent::ArchiveMade => self.stage == BootStage::MakingArchive,
            BootEvent::LoaderCreated { .. } => self.stage == BootStage::CreatingLoader,
            BootEvent::BaseBuilt => self.stage == BootStage::BuildingBase,
            BootEvent::MountAdded => self.stage == BootStage::Mounting,
            BootEvent::EngineCreated => self.stage == BootStage::CreatingEngine,
        }
    }

    /// How many events are still to come at most.
    pub open spec fn left(self) -> int {
        let mounts = wanted_mounts(self.request).len() - self.mounts.points@.len();
        match self.stage {
            BootStage::LookingForIndex => mounts + 7,
            BootStage::MakingOptions { .. } => mounts + 6,
            BootStage::MakingArchive => mounts + 5,
            BootStage::CreatingLoader => mounts + 4,
            BootStage::BuildingBase => mounts + 3,
            BootStage::Mounting => mounts + 2,
            BootStage::CreatingEngine => 1,
            BootStage::Over => 0,
        }
    }
}

/// The files of a directory that can be its index module, in the order in which they are looked for.
pub open spec fn index_paths(directory: Seq<char>) -> Seq<Seq<char>> {
    index_names().map_values(|n: Seq<char>| joined(directory, n))
}

/// Whether the build starts at the right module: see [`choose_main_module`].
pub open spec fn starts_at(
    request: BootRequest,
    existing: Seq<bool>,
    stage: BootStage,
    r: BootAction,
) -> bool {
    match request.entrypoint {
        Some(e) => match entrypoint_url(e@, request.directory@) {
            Some(u) => {
                &&& r matches BootAction::MakeOptions { main: MainModule::Url(s), settings } && s@
                    == u && builds_with(request, settings)
                &&& stage == BootStage::MakingOptions { directory_only: false }
            },
            None => {
                &&& r matches BootAction::Fail(BootError::Entrypoint(b)) && b.path@ == joined(
                    request.directory@,
                    e@,
                )
                &&& stage == BootStage::Over
            },
        },
        None => if request.has_module_code {
            &&& r matches BootAction::MakeOptions { main: MainModule::Code, settings }
                && builds_with(request, settings)
            &&& stage == BootStage::MakingOptions { directory_only: false }
        } else {
            match r {
                BootAction::MakeOptions { main: MainModule::Index(name), settings } => {
                    &&& builds_with(request, settings)
                    &&& exists|i: int| #[trigger]
                        is_first_existing(existing, i) && name@ == index_names()[i]
                    &&& stage == BootStage::MakingOptions { directory_only: false }
                },
                BootAction::MakeOptions { main: MainModule::Directory, settings } => {
                    &&& builds_with(request, settings)
                    &&& forall|i: int| 0 <= i < existing.len() ==> !#[trigger] existing[i]
                    &&& stage == BootStage::MakingOptions { directory_only: true }
                },
                _ => false,
            }
        },
    }
}

/// Whether the loader is created as the request asks, or the worker is refused what is denied to
/// all.
pub open spec fn goes_on_to_loader(b: Boot, r: BootAction) -> bool {
    let request = b.request;
    match fs_blocked(request.allow_host_fs_access, request.restrict_host_fs) {
        Some(blocked) => {
            &&& r matches BootAction::CreateLoader {
                include_source_map,
                disable_fs_fallback,
                import_map_path,
                service_path,
            } && include_source_map == (request.has_inspector || request.source_map == Some(true))
                && disable_fs_fallback == (blocked || request.restrict_host_fs) && text_view(
                import_map_path,
            ) == text_view(request.import_map_path) && service_path@ == request.directory@
            &&& b.stage == BootStage::CreatingLoader
        },
        None => r == BootAction::Fail(BootError::HostFsDenied) && b.stage == BootStage::Over,
    }
}

/// Whether the file system under the mounts is built as it should once the loader is there.
pub open spec fn goes_on_to_base(
    b: Boot,
    base_url: Seq<char>,
    recorded: Option<Entrypoint>,
    migrated: bool,
    r: BootAction,
) -> bool {
    let request = b.request;
    let blocked = fs_blocked(request.allow_host_fs_access, request.restrict_host_fs)->0;
    match main_url(base_url, recorded, text_view(request.entrypoint)) {
        Ok(main) => match static_root(request.entrypoint is Some, main) {
            Ok(root) => match base_fs(request, blocked, base_url, recorded, main) {
                Ok(fs) => {
                    &&& r matches BootAction::BuildBase { static_root: s, base } && path_view(s)
                        == root && base@ == fs
                    &&& b.stage == BootStage::BuildingBase
                    &&& b.main_module_url@ == main
                    &&& b.entrypoint == recorded
                    &&& b.migrated == migrated
                },
                Err(e) => r == BootAction::Fail(e) && b.stage == BootStage::Over,
            },
            Err(e) => r == BootAction::Fail(e) && b.stage == BootStage::Over,
        },
        Err(e) => r == BootAction::Fail(e) && b.stage == BootStage::Over,
    }
}

/// What the runtime is told of itself.
pub open spec fn told(b: Boot) -> RuntimeContext {
    RuntimeContext {
        inspector: b.request.has_inspector,
        migrated: b.migrated,
        disable_deprecated_api_warning: b.request.cells.disable_deprecated_api_warning == Some(
            true,
        ),
        verbose_deprecated_api_warning: b.request.cells.verbose_deprecated_api_warning == Some(
            true,
        ),
    }
}

/// Whether the next mount point is mounted, or refused, or the engine is created where none is
/// left.
pub open spec fn goes_on_to_mount(before: Boot, b: Boot, r: BootAction) -> bool {
    let wanted = wanted_mounts(before.request);
    let k = before.mounts.points@.len() as int;
    let blocked = fs_blocked(before.request.allow_host_fs_access, before.request.restrict_host_fs)->0;
    &&& b.plan == before.plan
    &&& b.main_module_url == before.main_module_url
    &&& b.entrypoint == before.entrypoint
    &&& b.migrated == before.migrated
    &&& if k == wanted.len() {
        &&& r == BootAction::CreateEngine {
            virtual_fs: blocked || k > 0 || before.request.restrict_host_fs,
            context: told(before),
        }
        &&& b.stage == BootStage::CreatingEngine
        &&& b.mounts == before.mounts
    } else {
        match r {
            BootAction::AddMount { kind, mount_point, check_sync_api } => {
                &&& check_sync_api == (k == 0)
                &&& is_mountable(wanted[k], wanted.take(k))
                &&& mount_point@ == wanted[k]
                &&& kind == if k < before.request.s3_mounts@.len() {
                    MountKind::S3
                } else {
                    MountKind::Http
                }
                &&& b.stage == BootStage::Mounting
                &&& b.mounts.points@.len() == k + 1
            },
            BootAction::Fail(BootError::Mount(e)) => refuses(e, wanted[k], wanted.take(k))
                && b.stage == BootStage::Over,
            _ => false,
        }
    }
}

/// Whether an event is answered as it should be.
pub open spec fn answers(before: Boot, event: BootEvent, b: Boot, r: BootAction) -> bool {
    match event {
        BootEvent::IndexFound(existing) => starts_at(before.request, existing@, b.stage, r),
        BootEvent::OptionsMade { package_has_main } => if before.stage == (
        BootStage::MakingOptions { directory_only: true }) && !package_has_main {
            r == BootAction::Fail(BootError::NoEntrypoint) && b.stage == BootStage::Over
        } else {
            &&& r == BootAction::MakeArchive {
                from_code: before.request.has_module_code && before.request.entrypoint is None,
            }
            &&& b.stage == BootStage::MakingArchive
        },
        BootEvent::ArchiveMade => goes_on_to_loader(b, r),
        BootEvent::LoaderCreated { base_url, entrypoint, migrated } => goes_on_to_base(
            b,
            base_url@,
            entrypoint,
            migrated,
            r,
        ),
        BootEvent::BaseBuilt | BootEvent::MountAdded => goes_on_to_mount(before, b, r),
        BootEvent::EngineCreated => {
            &&& r matches BootAction::Done(runtime) && runtime.main_module_url@
                == before.main_module_url@ && runtime.entrypoint == before.entrypoint
                && runtime.main_module_id is None
            &&& b.plan == before.plan
            &&& b.stage == BootStage::Over
        },
    }
}

/// The main module is at a URL that names no file.
#[derive(Debug, Clone, Copy, PartialEq, Eq, Structural)]
pub struct MainIsNoFile;

/// The path that a build starts at: there is none where it starts at source code.
pub fn start_path(main: &MainModule, directory: &str) -> (r: Result<
    Option<BytePath>,
    MainIsNoFile,
>)
    ensures
        match *main {
            MainModule::Code => r == Ok::<Option<BytePath>, MainIsNoFile>(None),
            MainModule::Url(u) => match named_units(u@) {
                Some(p) => r matches Ok(Some(s)) && s@ == p,
                None => r is Err,
            },
            MainModule::Index(name) => r matches Ok(Some(s)) && s@ == text_units(
                joined(directory@, name@),
            ),
            MainModule::Directory => r matches Ok(Some(s)) && s@ == text_units(directory@),
        },
{
    match main {
        MainModule::Code => Ok(None),
        MainModule::Url(u) => match named_path(u.as_str()) {
            Some(p) => Ok(Some(p)),
            None => Err(MainIsNoFile),
        },
        MainModule::Index(name) => Ok(
            Some(BytePath::of_text(join_path(directory, name.as_str()).as_str())),
        ),
        MainModule::Directory => Ok(Some(BytePath::of_text(directory))),
    }
}

/// The paths of the index modules of a directory.
fn index_file_paths(directory: &str) -> (r: Vec<String>)
    ensures
        views(r@) == index_paths(directory@),
{
    let names = index_files();
    let mut out: Vec<String> = Vec::new();
    let mut i: usize = 0;
    assert(views(names@).len() == names@.len());
    while i < names.len()
        invariant
            i <= names@.len(),
            views(names@) == index_names(),
            names@.len() == index_names().len(),
            views(out@) == index_paths(directory@).take(i as int),
        decreases names@.len() - i,
    {
        let p = join_path(directory, names[i].as_str());
        proof {
            lemma_views_push(out@, p);
            assert(views(names@)[i as int] == names@[i as int]@);
            assert(index_paths(directory@).take(i + 1) =~= index_paths(directory@).take(
                i as int,
            ).push(p@));
        }
        out.push(p);
        i = i + 1;
    }
    assert(index_paths(directory@).take(i as int) =~= index_paths(directory@));
    out
}

impl DenoRuntime {
    /// Begins to put the runtime of a worker together. One that comes without an archive has one
    /// made first.
    pub fn new(request: BootRequest) -> (r: (Boot, BootAction))
        ensures
            r.0.wf(),
            r.0.request == request,
            request.has_archive ==> goes_on_to_loader(r.0, r.1),
            !request.has_archive ==> if !is_absolute(request.directory@) {
                &&& r.1 matches BootAction::Fail(BootError::MalformedDirectory(d)) && d@
                    == request.directory@
                &&& r.0.stage == BootStage::Over
            } else if request.entrypoint is None && !request.has_module_code {
                &&& r.1 matches BootAction::LookForIndex(files) && views(files@) == index_paths(
                    request.directory@,
                )
                &&& r.0.stage == BootStage::LookingForIndex
            } else {
                starts_at(request, Seq::empty(), r.0.stage, r.1)
            },
    {
        let mut boot = Boot {
            request,
            stage: BootStage::Over,
            plan: None,
            main_module_url: String::new(),
            entrypoint: None,
            migrated: false,
            mounts: MountTable::new(),
        };
        assert(views(boot.mounts.points@) =~= wanted_mounts(boot.request).take(0));
        if boot.request.has_archive {
            let action = boot.open_archive();
            return (boot, action);
        }
        if !absolute(boot.request.directory.as_str()) {
            let action = BootAction::Fail(
                BootError::MalformedDirectory(boot.request.directory.clone()),
            );
            return (boot, action);
        }
        if boot.request.entrypoint.is_none() && !boot.request.has_module_code {
            boot.stage = BootStage::LookingForIndex;
            let files = index_file_paths(boot.request.directory.as_str());
            return (boot, BootAction::LookForIndex(files));
        }
        let names = index_files();
        let mut none: Vec<bool> = Vec::new();
        let mut i: usize = 0;
        assert(views(names@).len() == names@.len());
        while i < names.len()
            invariant
                i <= names@.len(),
                none@.len() == i,
            decreases names@.len() - i,
        {
            none.push(false);
            i = i + 1;
        }
        let action = boot.start_build(&none);
        (boot, action)
    }
}

impl Boot {
    /// Takes in what has happened, and says what is to be done next.
    pub fn step(&mut self, event: BootEvent) -> (r: BootAction)
        requires
            old(self).wf(),
            old(self).expects(event),
        ensures
            final(self).wf(),
            final(self).request == old(self).request,
            final(self).left() < old(self).left(),
            answers(*old(self), event, *final(self), r),
    {
        match event {
            BootEvent::IndexFound(existing) => self.start_build(&existing),
            BootEvent::OptionsMade { package_has_main } => {
                let directory_only = match self.stage {
                    BootStage::MakingOptions { directory_only } => directory_only,
                    _ => false,
                };
                if directory_only && lacks_entrypoint(&MainModule::Directory, package_has_main) {
                    self.stage = BootStage::Over;
                    return BootAction::Fail(BootError::NoEntrypoint);
                }
                self.stage = BootStage::MakingArchive;
                BootAction::MakeArchive {
                    from_code: self.request.has_module_code && self.request.entrypoint.is_none(),
                }
            },
            BootEvent::ArchiveMade => self.open_archive(),
            BootEvent::LoaderCreated { base_url, entrypoint, migrated } => self.plan_base(
                base_url.as_str(),
                entrypoint,
                migrated,
            ),
            BootEvent::BaseBuilt => self.mount_next(),
            BootEvent::MountAdded => self.mount_next(),
            BootEvent::EngineCreated => {
                self.stage = BootStage::Over;
                BootAction::Done(
                    DenoRuntime::unloaded(self.main_module_url.clone(), self.entrypoint.take()),
                )
            },
        }
    }

    /// Decides where the build starts.
    fn start_build(&mut self, existing: &Vec<bool>) -> (r: BootAction)
        requires
            old(self).wf(),
            old(self).mounts.points@.len() == 0,
            existing@.len() == index_names().len(),
        ensures
            final(self).wf(),
            final(self).request == old(self).request,
            final(self).mounts == old(self).mounts,
            starts_at(old(self).request, existing@, final(self).stage, r),
    {
        let entrypoint: Option<&str> = match &self.request.entrypoint {
            Some(e) => Some(e.as_str()),
            None => None,
        };
        match choose_main_module(
            entrypoint,
            self.request.has_module_code,
            self.request.directory.as_str(),
            existing,
        ) {
            Ok(main) => {
                let directory_only = match &main {
                    MainModule::Directory => true,
                    _ => false,
                };
                self.stage = BootStage::MakingOptions { directory_only };
                BootAction::MakeOptions { main, settings: build_settings(&self.request) }
            },
            Err(e) => {
                self.stage = BootStage::Over;
                BootAction::Fail(BootError::Entrypoint(e))
            },
        }
    }

    /// Decides how the archive is opened.
    fn open_archive(&mut self) -> (r: BootAction)
        requires
            old(self).wf(),
            old(self).mounts.points@.len() == 0,
        ensures
            final(self).wf(),
            final(self).request == old(self).request,
            final(self).mounts == old(self).mounts,
            goes_on_to_loader(*final(self), r),
    {
        match plan_boot(&self.request) {
            Ok(plan) => {
                let action = BootAction::CreateLoader {
                    include_source_map: plan.include_source_map,
                    disable_fs_fallback: plan.disable_fs_fallback,
                    import_map_path: match &self.request.import_map_path {
                        Some(p) => Some(p.clone()),
                        None => None,
                    },
                    service_path: self.request.directory.clone(),
                };
                self.plan = Some(plan);
                self.stage = BootStage::CreatingLoader;
                action
            },
            Err(_) => {
                self.stage = BootStage::Over;
                BootAction::Fail(BootError::HostFsDenied)
            },
        }
    }

    /// Decides what lies under the mounts.
    fn plan_base(&mut self, base_url: &str, recorded: Option<Entrypoint>, migrated: bool) -> (r:
        BootAction)
        requires
            old(self).wf(),
            old(self).stage == BootStage::CreatingLoader,
        ensures
            final(self).wf(),
            final(self).request == old(self).request,
            final(self).mounts == old(self).mounts,
            goes_on_to_base(*final(self), base_url@, recorded, migrated, r),
    {
        let blocked = match &self.plan {
            Some(p) => p.blocks_fs,
            None => true,
        };
        self.stage = BootStage::Over;
        let main = match find_main(base_url, &recorded, &self.request.entrypoint) {
            Ok(m) => m,
            Err(e) => {
                return BootAction::Fail(e);
            },
        };
        let static_root = match find_static_root(self.request.entrypoint.is_some(), main.as_str()) {
            Ok(s) => s,
            Err(e) => {
                return BootAction::Fail(e);
            },
        };
        let base = match find_base_fs(&self.request, blocked, base_url, &recorded, main.as_str()) {
            Ok(b) => b,
            Err(e) => {
                return BootAction::Fail(e);
            },
        };
        self.stage = BootStage::BuildingBase;
        self.main_module_url = main;
        self.entrypoint = recorded;
        self.migrated = migrated;
        BootAction::BuildBase { static_root, base }
    }

    /// Mounts the next file system, if one is left.
    fn mount_next(&mut self) -> (r: BootAction)
        requires
            old(self).wf(),
            old(self).stage == BootStage::BuildingBase || old(self).stage == BootStage::Mounting,
        ensures
            final(self).wf(),
            final(self).request == old(self).request,
            final(self).left() < old(self).left(),
            goes_on_to_mount(*old(self), *final(self), r),
    {
        let k: usize = self.mounts.points.len();
        let s3: usize = self.request.s3_mounts.len();
        let ghost wanted = wanted_mounts(self.request);
        assert(views(self.request.s3_mounts@).len() == s3);
        assert(views(self.request.http_mounts@).len() == self.request.http_mounts@.len());
        let (kind, point): (MountKind, String) = if k < s3 {
            assert(wanted[k as int] == views(self.request.s3_mounts@)[k as int]);
            (MountKind::S3, self.request.s3_mounts[k].clone())
        } else if k - s3 < self.request.http_mounts.len() {
            assert(wanted[k as int] == views(self.request.http_mounts@)[k - s3]);
            (MountKind::Http, self.request.http_mounts[k - s3].clone())
        } else {
            let blocked = match &self.plan {
                Some(p) => p.blocks_fs,
                None => true,
            };
            self.stage = BootStage::CreatingEngine;
            return BootAction::CreateEngine {
                virtual_fs: uses_virtual_fs(blocked, k > 0, self.request.restrict_host_fs),
                context: get_runtime_context(
                    self.request.has_inspector,
                    self.migrated,
                    &self.request.cells,
                ),
            };
        };
        assert(point@ == wanted[k as int]);
        match self.mounts.add(kind, point.as_str()) {
            Ok(()) => {
                assert(views(self.mounts.points@).len() == self.mounts.points@.len());
                assert(wanted.take(k + 1) =~= wanted.take(k as int).push(point@));
                self.stage = BootStage::Mounting;
                BootAction::AddMount { kind, mount_point: point, check_sync_api: k == 0 }
            },
            Err(e) => {
                self.stage = BootStage::Over;
                BootAction::Fail(BootError::Mount(e))
            },
        }
    }
}

/// An engine is created only once every mount point that was asked for is mounted, and those never
/// nest.
pub proof fn law_engine_gets_all_mounts(b: Boot)
    requires
        b.wf(),
        b.stage == BootStage::CreatingEngine,
    ensures
        views(b.mounts.points@) == wanted_mounts(b.request),
        is_mount_set(wanted_mounts(b.request)),
{
    let wanted = wanted_mounts(b.request);
    assert(wanted.take(wanted.len() as int) =~= wanted);
}

/// Where the main module of an archive is.
fn find_main(base_url: &str, recorded: &Option<Entrypoint>, asked: &Option<String>) -> (r: Result<
    String,
    BootError,
>)
    ensures
        match r {
            Ok(u) => main_url(base_url@, *recorded, text_view(*asked)) == Ok::<
                Seq<char>,
                BootError,
            >(u@),
            Err(e) => main_url(base_url@, *recorded, text_view(*asked)) == Err::<
                Seq<char>,
                BootError,
            >(e),
        },
{
    let key: Option<String> = match recorded {
        Some(Entrypoint::Key(k)) => Some(k.clone()),
        _ => None,
    };
    let asked: Option<String> = match asked {
        Some(e) => Some(e.clone()),
        None => None,
    };
    match archived_main(key, asked) {
        Some(ArchivedMain::Key(k)) => match join_url(base_url, k.as_str()) {
            Some(u) => Ok(u),
            None => Err(BootError::BadMainUrl),
        },
        Some(ArchivedMain::Entrypoint(e)) => match parse_url(e.as_str()) {
            Some(u) => Ok(u.text),
            None => Err(BootError::BadMainUrl),
        },
        None => Err(BootError::NoEntrypointKey),
    }
}

/// Where the static files of a worker are looked up.
fn find_static_root(has_entrypoint: bool, main: &str) -> (r: Result<Option<BytePath>, BootError>)
    ensures
        match r {
            Ok(s) => static_root(has_entrypoint, main@) == Ok::<Option<Seq<char>>, BootError>(
                path_view(s),
            ),
            Err(e) => static_root(has_entrypoint, main@) == Err::<Option<Seq<char>>, BootError>(e),
        },
{
    if !has_entrypoint {
        return Ok(None);
    }
    match named_path(main) {
        Some(p) => match parent_path(p.units.as_str()) {
            Some(d) => Ok(Some(BytePath { units: d })),
            None => Err(BootError::EntrypointNoParent),
        },
        None => Err(BootError::EntrypointNoFile),
    }
}

/// The file system under the mounts.
fn find_base_fs(
    request: &BootRequest,
    blocked: bool,
    base_url: &str,
    recorded: &Option<Entrypoint>,
    main: &str,
) -> (r: Result<BaseFs, BootError>)
    ensures
        match r {
            Ok(b) => base_fs(*request, blocked, base_url@, *recorded, main@) == Ok::<
                BaseFsView,
                BootError,
            >(b@),
            Err(e) => base_fs(*request, blocked, base_url@, *recorded, main@) == Err::<
                BaseFsView,
                BootError,
            >(e),
        },
{
    if !blocked {
        return Ok(BaseFs::Compiled);
    }
    let has_key = match recorded {
        Some(Entrypoint::Key(_)) => true,
        _ => false,
    };
    let dir = match compile_base_dir(has_key, request.entrypoint.is_some(), base_url, main) {
        Ok(d) => d,
        Err(e) => {
            return Err(e);
        },
    };
    let root = match named_path(base_url) {
        Some(p) => p,
        None => {
            return Err(BootError::NoCompileRoot);
        },
    };
    let source = source_root(main, &root, request.directory.as_str());
    Ok(BaseFs::Static { compile_base_dir: dir, compile_root: root, source_root: source })
}


/// The mounts wanted are those of buckets, in their order, and behind them those over the web.
pub proof fn law_buckets_are_mounted_first(request: BootRequest, i: int)
    ensures
        wanted_mounts(request).len() == request.s3_mounts@.len() + request.http_mounts@.len(),
        0 <= i < request.s3_mounts@.len() ==> wanted_mounts(request)[i] == request.s3_mounts@[i]@,
        0 <= i < request.http_mounts@.len() ==> wanted_mounts(request)[request.s3_mounts@.len() + i]
            == request.http_mounts@[i]@,
{
}

/// The main module is the one recorded, found from the base of the archive; where none is, the
/// entrypoint asked for, which has to be a URL; and where there is neither, there is none.
pub proof fn law_recorded_entrypoints_go_first(
    base_url: Seq<char>,
    recorded: Option<Entrypoint>,
    asked: Option<Seq<char>>,
)
    ensures
        ({
            let r = main_url(base_url, recorded, asked);
            let keyed = recorded is Some && recorded->0 is Key;
            &&& r is Ok <==> (if keyed {
                url_joined(base_url, (recorded->0)->Key_0@) is Some
            } else {
                asked is Some && url_parsed(asked->0) is Some
            })
            &&& r is Ok && keyed ==> url_joined(base_url, (recorded->0)->Key_0@) == Some(r->Ok_0)
            &&& r is Ok && !keyed ==> r->Ok_0 == (url_parsed(asked->0)->0).text
            &&& r is Err && (keyed || asked is Some) ==> r->Err_0 == BootError::BadMainUrl
            &&& r is Err && !keyed && asked is None ==> r->Err_0 == BootError::NoEntrypointKey
        }),
{
}

/// Static files are counted from the directory of the main module, where an entrypoint was asked
/// for; where none was, there are none.
pub proof fn law_static_files_lie_beside_the_entrypoint(has_entrypoint: bool, main: Seq<char>)
    ensures
        ({
            let r = static_root(has_entrypoint, main);
            &&& !has_entrypoint ==> r == Ok::<Option<Seq<char>>, BootError>(None)
            &&& has_entrypoint && named_units(main) is None ==> r is Err && r->Err_0
                == BootError::EntrypointNoFile
            &&& has_entrypoint && named_units(main) is Some && r is Ok ==> r->Ok_0 is Some
                && components(r->Ok_0->0) == components(named_units(main)->0).drop_last()
            &&& has_entrypoint && named_units(main) is Some && r is Err ==> r->Err_0
                == BootError::EntrypointNoParent && components(named_units(main)->0).len() <= 1
        }),
{
    if named_units(main) is Some {
        law_parent_drops_the_last_component(named_units(main)->0);
    }
}

/// A worker that may see the host's files gets the compiled modules alone; any other gets a file
/// system of its own, rooted where the archive says.
pub proof fn law_closed_workers_get_files_of_their_own(
    request: BootRequest,
    blocked: bool,
    base_url: Seq<char>,
    recorded: Option<Entrypoint>,
    main: Seq<char>,
)
    ensures
        ({
            let r = base_fs(request, blocked, base_url, recorded, main);
            let keyed = recorded is Some && recorded->0 is Key;
            let dir = base_dir(keyed, request.entrypoint is Some, base_url, main);
            &&& !blocked ==> r == Ok::<BaseFsView, BootError>(BaseFsView::Compiled)
            &&& blocked && r is Ok ==> r->Ok_0 is Static && dir is Ok
                && r->Ok_0->compile_base_dir == dir->Ok_0 && named_units(base_url) == Some(
                r->Ok_0->compile_root,
            ) && r->Ok_0->source_root == host_root(
                main,
                named_units(base_url)->0,
                request.directory@,
            )
            &&& blocked && r is Err && dir is Err ==> r->Err_0 == dir->Err_0
            &&& blocked && r is Err && dir is Ok ==> r->Err_0 == BootError::NoCompileRoot
                && named_units(base_url) is None
        }),
{
}

/// An entrypoint that was asked for is where the build starts, before any code or index file; code
/// that was given comes next; and an index file is looked for only where there is neither.
pub proof fn law_boots_start_at_the_entrypoint(
    request: BootRequest,
    existing: Seq<bool>,
    stage: BootStage,
    r: BootAction,
)
    requires
        starts_at(request, existing, stage, r),
    ensures
        r is Fail <==> request.entrypoint is Some && entrypoint_url(
            (request.entrypoint->0)@,
            request.directory@,
        ) is None,
        r is Fail <==> stage == BootStage::Over,
        r is Fail || r is MakeOptions,
        r is MakeOptions ==> builds_with(request, r->settings),
        r is MakeOptions && request.entrypoint is Some ==> r->main is Url && entrypoint_url(
            (request.entrypoint->0)@,
            request.directory@,
        ) == Some(r->main->Url_0@),
        r is MakeOptions && request.entrypoint is None && request.has_module_code ==> r->main
            is Code,
        r is MakeOptions && request.entrypoint is None && !request.has_module_code ==> {
            &&& r->main is Index || r->main is Directory
            &&& r->main is Directory <==> !existing.contains(true)
            &&& r->main is Index ==> exists|i: int|
                #![trigger existing[i]]
                0 <= i < existing.len() && existing[i] && r->main->Index_0@ == index_names()[i]
                    && forall|j: int| 0 <= j < i ==> !#[trigger] existing[j]
        },
        r is MakeOptions ==> stage == (BootStage::MakingOptions {
            directory_only: r->main is Directory,
        }),
{
    if r is MakeOptions && request.entrypoint is None && !request.has_module_code {
        if r->main is Index {
            let i = choose|i: int| #[trigger]
                is_first_existing(existing, i) && r->main->Index_0@ == index_names()[i];
            assert(existing[i]);
        }
    }
}

/// A service directory without a main module of any kind fails the boot; anything else goes into an
/// archive, made from code only where code was all there was.
pub proof fn law_something_is_needed_to_start(
    before: Boot,
    package_has_main: bool,
    b: Boot,
    r: BootAction,
)
    requires
        before.stage is MakingOptions,
        answers(before, BootEvent::OptionsMade { package_has_main }, b, r),
    ensures
        r is Fail <==> before.stage->directory_only && !package_has_main,
        r is Fail ==> r->Fail_0 == BootError::NoEntrypoint && b.stage == BootStage::Over,
        r !is Fail ==> r is MakeArchive && b.stage == BootStage::MakingArchive && (r->from_code
            <==> before.request.has_module_code && before.request.entrypoint is None),
{
}

/// The loader is made as the request has it, unless the request asks for the host's files where
/// they are restricted.
pub proof fn law_loaders_go_by_the_request(b: Boot, r: BootAction)
    requires
        goes_on_to_loader(b, r),
    ensures
        ({
            let request = b.request;
            let denied = request.allow_host_fs_access == Some(true) && request.restrict_host_fs;
            &&& denied ==> r is Fail && r->Fail_0 == BootError::HostFsDenied && b.stage
                == BootStage::Over
            &&& !denied ==> {
                &&& r is CreateLoader
                &&& b.stage == BootStage::CreatingLoader
                &&& r->include_source_map <==> request.has_inspector || request.source_map == Some(
                    true,
                )
                &&& r->disable_fs_fallback <==> request.allow_host_fs_access != Some(true)
                    || request.restrict_host_fs
                &&& r->import_map_path is Some == request.import_map_path is Some
                &&& request.import_map_path is Some ==> (r->import_map_path->0)@ == (
                request.import_map_path->0)@
                &&& r->service_path@ == request.directory@
            }
        }),
{
}

/// Once the loader is there, the boot goes on with the main module, the static files and the file
/// system that follow from it, or fails with what stands in their way first.
pub proof fn law_bases_follow_the_main_module(
    b: Boot,
    base_url: Seq<char>,
    recorded: Option<Entrypoint>,
    migrated: bool,
    r: BootAction,
)
    requires
        goes_on_to_base(b, base_url, recorded, migrated, r),
        b.request.allow_host_fs_access != Some(true) || !b.request.restrict_host_fs,
    ensures
        ({
            let request = b.request;
            let asked = request.entrypoint;
            let main = main_url(
                base_url,
                recorded,
                if asked is Some {
                    Some((asked->0)@)
                } else {
                    None
                },
            );
            let files = static_root(asked is Some, main->Ok_0);
            let base = base_fs(
                request,
                request.allow_host_fs_access != Some(true),
                base_url,
                recorded,
                main->Ok_0,
            );
            &&& r is Fail || r is BuildBase
            &&& r is BuildBase <==> main is Ok && files is Ok && base is Ok
            &&& r is BuildBase ==> {
                &&& b.stage == BootStage::BuildingBase
                &&& b.main_module_url@ == main->Ok_0
                &&& b.entrypoint == recorded
                &&& b.migrated == migrated
                &&& r->static_root is Some == files->Ok_0 is Some
                &&& r->static_root is Some ==> (r->static_root->0)@ == files->Ok_0->0
                &&& r->base@ == base->Ok_0
            }
            &&& r is Fail ==> b.stage == BootStage::Over
            &&& main is Err ==> r == BootAction::Fail(main->Err_0)
            &&& main is Ok && files is Err ==> r == BootAction::Fail(files->Err_0)
            &&& main is Ok && files is Ok && base is Err ==> r == BootAction::Fail(base->Err_0)
        }),
{
}

/// The mounts are added one by one, each as what it is and each where it may lie, with the
/// engine's interface looked into at the first; once all are there the engine is made, on a file
/// system of its own unless the worker sees the host's alone.
pub proof fn law_mounts_are_added_in_turn(before: Boot, b: Boot, r: BootAction)
    requires
        goes_on_to_mount(before, b, r),
        before.request.allow_host_fs_access != Some(true) || !before.request.restrict_host_fs,
        before.mounts.points@.len() <= before.request.s3_mounts@.len()
            + before.request.http_mounts@.len(),
    ensures
        ({
            let request = before.request;
            let k = before.mounts.points@.len() as int;
            let s3 = request.s3_mounts@.len() as int;
            let all = s3 + request.http_mounts@.len();
            &&& b.main_module_url == before.main_module_url
            &&& b.entrypoint == before.entrypoint
            &&& b.migrated == before.migrated
            &&& b.plan == before.plan
            &&& r is CreateEngine <==> k == all
            &&& k == all ==> {
                &&& b.stage == BootStage::CreatingEngine
                &&& b.mounts == before.mounts
                &&& r->virtual_fs <==> request.allow_host_fs_access != Some(true) || all > 0
                    || request.restrict_host_fs
                &&& r->context.inspector == request.has_inspector
                &&& r->context.migrated == before.migrated
                &&& r->context.disable_deprecated_api_warning <==> (
                request.cells.disable_deprecated_api_warning == Some(true))
                &&& r->context.verbose_deprecated_api_warning <==> (
                request.cells.verbose_deprecated_api_warning == Some(true))
            }
            &&& r is AddMount ==> {
                &&& k < all
                &&& r->check_sync_api <==> k == 0
                &&& k < s3 ==> r->kind == MountKind::S3 && r->mount_point@
                    == request.s3_mounts@[k]@
                &&& k >= s3 ==> r->kind == MountKind::Http && r->mount_point@
                    == request.http_mounts@[k - s3]@
                &&& is_mountable(r->mount_point@, wanted_mounts(request).take(k))
                &&& b.stage == BootStage::Mounting
                &&& b.mounts.points@.len() == k + 1
            }
            &&& k < all && r !is AddMount ==> r is Fail && r->Fail_0 is Mount && b.stage
                == BootStage::Over && refuses(
                r->Fail_0->Mount_0,
                wanted_mounts(request)[k],
                wanted_mounts(request).take(k),
            )
        }),
{
    law_buckets_are_mounted_first(before.request, 0);
}

/// Each step of a boot leads on to what comes next: an index to the options, an archive to the
/// loader, a loader to the base and that to the mounts; and the runtime that comes out of it has
/// the main module that was found, not loaded yet.
pub proof fn law_boots_go_on_in_order(before: Boot, event: BootEvent, b: Boot, r: BootAction)
    requires
        answers(before, event, b, r),
        before.request == b.request,
    ensures
        event matches BootEvent::IndexFound(existing) ==> starts_at(
            b.request,
            existing@,
            b.stage,
            r,
        ),
        event is ArchiveMade ==> r is CreateLoader || r is Fail,
        event is LoaderCreated ==> r is BuildBase || r is Fail,
        event is BaseBuilt || event is MountAdded ==> r is AddMount || r is CreateEngine || r
            is Fail,
        event is EngineCreated ==> {
            &&& r is Done
            &&& b.stage == BootStage::Over
            &&& r->Done_0.main_module_url@ == before.main_module_url@
            &&& r->Done_0.entrypoint == before.entrypoint
            &&& r->Done_0.main_module_id is None
        },
{
}

/// Index files are looked for in the directory of the service itself.
pub proof fn law_index_files_lie_in_the_directory(directory: Seq<char>, i: int)
    requires
        0 <= i < index_names().len(),
    ensures
        index_paths(directory).len() == index_names().len(),
        components(index_paths(directory)[i]) == components(directory).push(index_names()[i]),
{
    reveal_strlit("index.ts");
    reveal_strlit("index.tsx");
    reveal_strlit("index.js");
    reveal_strlit("index.mjs");
    reveal_strlit("index.jsx");
    law_joining_adds_a_component(directory, index_names()[i]);
}


/// Each stage of a boot waits for the outcome of what it asked for, and once it is over for none.
pub proof fn law_boot_stages_wait_for_their_outcome(b: Boot, event: BootEvent)
    ensures
        b.expects(event) ==> b.stage != BootStage::Over,
        event is OptionsMade ==> (b.expects(event) <==> b.stage is MakingOptions),
        event is ArchiveMade ==> (b.expects(event) <==> b.stage == BootStage::MakingArchive),
        event is LoaderCreated ==> (b.expects(event) <==> b.stage == BootStage::CreatingLoader),
        event is BaseBuilt ==> (b.expects(event) <==> b.stage == BootStage::BuildingBase),
        event is MountAdded ==> (b.expects(event) <==> b.stage == BootStage::Mounting),
        event is EngineCreated ==> (b.expects(event) <==> b.stage == BootStage::CreatingEngine),
        event matches BootEvent::IndexFound(existing) ==> (b.expects(event) <==> b.stage
            == BootStage::LookingForIndex && existing@.len() == 5),
{
}

} // verus!
