//! Resolving an import: which of the resolvers decides, and what becomes of its answer.

use vstd::prelude::*;

use crate::byte_path::BytePath;
use crate::text::{join, same};
use crate::urls::{parse_url, url_parsed, UrlParts};

verus! {

/// What an import is resolved for.
#[derive(Debug, Clone, Copy, PartialEq, Eq, Structural)]
pub enum ResolutionKind {
    MainModule,
    Import,
    DynamicImport,
}

/// Where an import stands.
#[derive(Debug)]
pub enum Referrer {
    /// In the root directory of the archive.
    RootDirectory,
    /// In the module with this URL.
    Module(UrlParts),
}

/// Why an import does not resolve.
#[derive(Debug)]
pub enum ResolveError {
    /// Only a main module may be imported from the root directory.
    NotMainModule(ResolutionKind),
    /// The importing module has no valid URL.
    InvalidReferrer,
    /// The package names a dependency in a way that is not supported.
    FileDependency(String),
    CatalogDependency(String),
}

impl ResolutionKind {
    pub open spec fn name(self) -> Seq<char> {
        match self {
            ResolutionKind::MainModule => "MainModule"@,
            ResolutionKind::Import => "Import"@,
            ResolutionKind::DynamicImport => "DynamicImport"@,
        }
    }
}

/// The message for an unsupported dependency.
pub open spec fn dependency_text(protocol: Seq<char>, alias: Seq<char>) -> Seq<char> {
    protocol + " protocol dependencies are not supported in package.json (dependency: "@ + alias
        + ")"@
}

fn dependency_message(protocol: &str, alias: &str) -> (r: String)
    ensures
        r@ == dependency_text(protocol@, alias@),
{
    let a = join(
        protocol,
        " protocol dependencies are not supported in package.json (dependency: ",
    );
    let b = join(a.as_str(), alias);
    join(b.as_str(), ")")
}

impl ResolveError {
    /// The message; `detail` is what is wrong with an importing module's URL.
    pub open spec fn text(self, detail: Seq<char>) -> Seq<char> {
        match self {
            ResolveError::NotMainModule(kind) => "Expected to resolve main module, got "@
                + kind.name() + " instead."@,
            ResolveError::InvalidReferrer => "Referrer uses invalid specifier: "@ + detail,
            ResolveError::FileDependency(alias) => dependency_text("file:"@, alias@),
            ResolveError::CatalogDependency(alias) => dependency_text("catalog:"@, alias@),
        }
    }

    pub fn message(&self, detail: &str) -> (r: String)
        ensures
            r@ == self.text(detail@),
    {
        match self {
            ResolveError::NotMainModule(kind) => {
                let name: &str = match kind {
                    ResolutionKind::MainModule => "MainModule",
                    ResolutionKind::Import => "Import",
                    ResolutionKind::DynamicImport => "DynamicImport",
                };
                let a = join("Expected to resolve main module, got ", name);
                join(a.as_str(), " instead.")
            },
            ResolveError::InvalidReferrer => join("Referrer uses invalid specifier: ", detail),
            ResolveError::FileDependency(alias) => dependency_message("file:", alias.as_str()),
            ResolveError::CatalogDependency(alias) => dependency_message(
                "catalog:",
                alias.as_str(),
            ),
        }
    }
}

/// Where the import stands that names `referrer` as its place.
pub fn resolve_referrer(referrer: &str, kind: ResolutionKind) -> (r: Result<Referrer, ResolveError>)
    ensures
        if referrer@ == "."@ {
            if kind == ResolutionKind::MainModule {
                r is Ok && r->Ok_0 is RootDirectory
            } else {
                r == Err::<Referrer, ResolveError>(ResolveError::NotMainModule(kind))
            }
        } else {
            match url_parsed(referrer@) {
                Some(u) => r matches Ok(Referrer::Module(m)) && m@ == u,
                None => r == Err::<Referrer, ResolveError>(ResolveError::InvalidReferrer),
            }
        },
{
    if same(referrer, ".") {
        if kind != ResolutionKind::MainModule {
            return Err(ResolveError::NotMainModule(kind));
        }
        return Ok(Referrer::RootDirectory);
    }
    match parse_url(referrer) {
        Some(u) => Ok(Referrer::Module(u)),
        None => Err(ResolveError::InvalidReferrer),
    }
}

/// How an importing module asks for others: a module that may be CommonJS requires them.
#[derive(Debug, Clone, Copy, PartialEq, Eq, Structural)]
pub enum ResolutionMode {
    Import,
    Require,
}

pub fn referrer_mode(is_maybe_cjs: bool) -> (r: ResolutionMode)
    ensures
        r == if is_maybe_cjs {
            ResolutionMode::Require
        } else {
            ResolutionMode::Import
        },
{
    if is_maybe_cjs {
        ResolutionMode::Require
    } else {
        ResolutionMode::Import
    }
}

/// An import: what it names, where it stands, and how modules there ask for others.
#[derive(Debug)]
pub struct Import {
    pub specifier: String,
    pub referrer: UrlParts,
    pub mode: ResolutionMode,
}

/// How a package names a dependency.
#[derive(Debug)]
pub enum DependencyValue {
    /// By a requirement that packages are searched for.
    Req(String),
    /// By another package of the workspace, in a version that meets this requirement.
    Workspace(String),
    File,
    Catalog,
    /// In a way that cannot be read, for which this is the message.
    Unreadable(String),
}

/// What the workspace makes of an import.
#[derive(Debug)]
pub enum Mapped {
    /// A package of the workspace, at this URL.
    WorkspaceJsrPackage(String),
    /// A module, by its path in the package, of the package of the workspace in this directory.
    WorkspaceNpmPackage { directory: BytePath, sub_path: Option<String> },
    /// An import that the package with this `package.json` maps for itself.
    PackageJsonImport(BytePath),
    /// A module, by its path in the package, of a dependency that a package names under `alias`.
    PackageJson { dependency: DependencyValue, alias: String, sub_path: Option<String> },
    /// A plain URL.
    Normal { specifier: String, scheme: String, is_npm_reference: bool },
    /// Nothing: a bare name that nothing maps, or something else, with the message.
    Failed { unmapped_bare: bool, message: String },
}

/// What is done about an import. Every search is for a module that is to be executed.
#[derive(Debug)]
pub enum ResolveAction {
    /// It is the module at this URL.
    Resolved(String),
    /// The package that imports it resolves it by the rules of Node.
    ResolveInPackage(Import),
    /// A module of the package in a directory is searched for.
    ResolvePackageSubpath { directory: BytePath, sub_path: Option<String>, import: Import },
    /// The mapping of the package with this `package.json` is applied.
    ResolvePackageImport { package_json: BytePath, import: Import },
    /// A package that meets a requirement is searched for, and a module in it.
    ResolveRequirement { requirement: String, sub_path: Option<String>, import: Import },
    /// The folder of another package of the workspace is searched for, and a module in it; see
    /// [`after_workspace_folder`].
    ResolveWorkspaceDependency {
        alias: String,
        version_req: String,
        sub_path: Option<String>,
        import: Import,
    },
    /// A package that an `npm:` URL names is searched for.
    ResolveNpmReference { reference: String, import: Import },
    /// The archive is searched for a `jsr:` module; see [`after_jsr_lookup`].
    LookUpJsr(String),
    /// A URL inside `node_modules` is brought into its normal form, and is the answer as it is
    /// where it lies elsewhere.
    NormalizeNodeModules(String),
    /// A bare name is tried as a package; where it is none, this is the message.
    TryPackage { import: Import, message: String },
    /// It does not resolve, with this message.
    Fail(String),
    Unsupported(ResolveError),
}

/// What is done about an import, given whether it stands in a package and what the workspace makes
/// of it.
pub open spec fn action_for(in_npm_package: bool, import: Import, m: Mapped) -> ResolveAction {
    if in_npm_package {
        ResolveAction::ResolveInPackage(import)
    } else {
        match m {
            Mapped::WorkspaceJsrPackage(s) => ResolveAction::Resolved(s),
            Mapped::WorkspaceNpmPackage { directory, sub_path } =>
                ResolveAction::ResolvePackageSubpath { directory, sub_path, import },
            Mapped::PackageJsonImport(package_json) => ResolveAction::ResolvePackageImport {
                package_json,
                import,
            },
            Mapped::PackageJson { dependency, alias, sub_path } => match dependency {
                DependencyValue::Req(requirement) => ResolveAction::ResolveRequirement {
                    requirement,
                    sub_path,
                    import,
                },
                DependencyValue::Workspace(version_req) =>
                    ResolveAction::ResolveWorkspaceDependency {
                        alias,
                        version_req,
                        sub_path,
                        import,
                    },
                DependencyValue::File => ResolveAction::Unsupported(
                    ResolveError::FileDependency(alias),
                ),
                DependencyValue::Catalog => ResolveAction::Unsupported(
                    ResolveError::CatalogDependency(alias),
                ),
                DependencyValue::Unreadable(msg) => ResolveAction::Fail(msg),
            },
            Mapped::Normal { specifier, scheme, is_npm_reference } => if is_npm_reference {
                ResolveAction::ResolveNpmReference { reference: specifier, import }
            } else if scheme@ == "jsr"@ {
                ResolveAction::LookUpJsr(specifier)
            } else {
                ResolveAction::NormalizeNodeModules(specifier)
            },
            Mapped::Failed { unmapped_bare, message } => if unmapped_bare && import.referrer.scheme@
                == "file"@ {
                ResolveAction::TryPackage { import, message }
            } else {
                ResolveAction::Fail(message)
            },
        }
    }
}

/// What is done about an import. The workspace is asked only for an import that does not stand in a
/// package; `mapped` is then its answer.
pub fn resolve(in_npm_package: bool, import: Import, mapped: Mapped) -> (r: ResolveAction)
    ensures
        r == action_for(in_npm_package, import, mapped),
{
    if in_npm_package {
        return ResolveAction::ResolveInPackage(import);
    }
    match mapped {
        Mapped::WorkspaceJsrPackage(s) => ResolveAction::Resolved(s),
        Mapped::WorkspaceNpmPackage { directory, sub_path } => {
            ResolveAction::ResolvePackageSubpath { directory, sub_path, import }
        },
        Mapped::PackageJsonImport(package_json) => {
            ResolveAction::ResolvePackageImport { package_json, import }
        },
        Mapped::PackageJson { dependency, alias, sub_path } => match dependency {
            DependencyValue::Req(requirement) => {
                ResolveAction::ResolveRequirement { requirement, sub_path, import }
            },
            DependencyValue::Workspace(version_req) => {
                ResolveAction::ResolveWorkspaceDependency { alias, version_req, sub_path, import }
            },
            DependencyValue::File => ResolveAction::Unsupported(ResolveError::FileDependency(alias)),
            DependencyValue::Catalog => ResolveAction::Unsupported(
                ResolveError::CatalogDependency(alias),
            ),
            DependencyValue::Unreadable(msg) => ResolveAction::Fail(msg),
        },
        Mapped::Normal { specifier, scheme, is_npm_reference } => {
            if is_npm_reference {
                ResolveAction::ResolveNpmReference { reference: specifier, import }
            } else if same(scheme.as_str(), "jsr") {
                ResolveAction::LookUpJsr(specifier)
            } else {
                ResolveAction::NormalizeNodeModules(specifier)
            }
        },
        Mapped::Failed { unmapped_bare, message } => {
            if unmapped_bare && same(import.referrer.scheme.as_str(), "file") {
                ResolveAction::TryPackage { import, message }
            } else {
                ResolveAction::Fail(message)
            }
        },
    }
}

/// What is done once the folder of a package of the workspace has been searched for: the module is
/// searched for in it, or the import fails with the message.
pub fn after_workspace_folder(
    folder: Result<BytePath, String>,
    sub_path: Option<String>,
    import: Import,
) -> (r: ResolveAction)
    ensures
        r == match folder {
            Ok(directory) => ResolveAction::ResolvePackageSubpath { directory, sub_path, import },
            Err(message) => ResolveAction::Fail(message),
        },
{
    match folder {
        Ok(directory) => ResolveAction::ResolvePackageSubpath { directory, sub_path, import },
        Err(message) => ResolveAction::Fail(message),
    }
}

/// What is done once the archive has been searched for the `jsr:` module `specifier`: the module
/// that was found is the answer.
pub fn after_jsr_lookup(specifier: String, found: Option<String>) -> (r: ResolveAction)
    ensures
        r == match found {
            Some(s) => ResolveAction::Resolved(s),
            None => ResolveAction::NormalizeNodeModules(specifier),
        },
{
    match found {
        Some(s) => ResolveAction::Resolved(s),
        None => ResolveAction::NormalizeNodeModules(specifier),
    }
}

/// The answer once a URL has been looked at for lying inside `node_modules`.
pub fn after_normalize(specifier: String, handled: Option<String>) -> (r: String)
    ensures
        r == match handled {
            Some(s) => s,
            None => specifier,
        },
{
    match handled {
        Some(s) => s,
        None => specifier,
    }
}

/// What is done once a bare name has been tried as a package: where it is none, the import does
/// not resolve, for the reason that the workspace gave.
pub fn after_package_attempt(message: String, found: Option<String>) -> (r: ResolveAction)
    ensures
        r == match found {
            Some(s) => ResolveAction::Resolved(s),
            None => ResolveAction::Fail(message),
        },
{
    match found {
        Some(s) => ResolveAction::Resolved(s),
        None => ResolveAction::Fail(message),
    }
}

/// What stands in a package resolves by the rules of packages alone: the workspace has no say.
pub proof fn law_packages_resolve_for_themselves(import: Import, a: Mapped, b: Mapped)
    ensures
        action_for(true, import, a) == action_for(true, import, b),
{
}

/// A search for a package is made for the import that asked for it, as it was asked.
pub proof fn law_searches_keep_the_import(in_npm_package: bool, import: Import, m: Mapped)
    ensures
        match action_for(in_npm_package, import, m) {
            ResolveAction::ResolveInPackage(i) => i == import,
            ResolveAction::ResolvePackageSubpath { import: i, .. } => i == import,
            ResolveAction::ResolvePackageImport { import: i, .. } => i == import,
            ResolveAction::ResolveRequirement { import: i, .. } => i == import,
            ResolveAction::ResolveWorkspaceDependency { import: i, .. } => i == import,
            ResolveAction::ResolveNpmReference { import: i, .. } => i == import,
            ResolveAction::TryPackage { import: i, .. } => i == import,
            _ => true,
        },
{
}

/// An import that stands in no package is resolved as the workspace maps it: a package of JSR and a
/// plain URL are the answer themselves, the latter through the archive where it is a `jsr:` one, and
/// everything else is searched for where the mapping says. A bare name that nothing maps is tried as
/// a package only from a file; every other failure is final.
pub proof fn law_mappings_are_followed(import: Import, m: Mapped)
    ensures
        match m {
            Mapped::WorkspaceJsrPackage(url) => action_for(false, import, m)
                == ResolveAction::Resolved(url),
            Mapped::WorkspaceNpmPackage { directory: d, sub_path: s } => action_for(
                false,
                import,
                m,
            ) matches ResolveAction::ResolvePackageSubpath { directory, sub_path, import: i }
                && directory == d && sub_path == s && i == import,
            Mapped::PackageJsonImport(p) => action_for(false, import, m) matches
                ResolveAction::ResolvePackageImport { package_json, import: i } && package_json == p
                && i == import,
            Mapped::PackageJson { dependency, alias: a, sub_path: s } => match dependency {
                DependencyValue::Req(q) => action_for(false, import, m) matches
                    ResolveAction::ResolveRequirement { requirement, sub_path, import: i }
                    && requirement == q && sub_path == s && i == import,
                DependencyValue::Workspace(v) => action_for(false, import, m) matches
                    ResolveAction::ResolveWorkspaceDependency {
                    alias,
                    version_req,
                    sub_path,
                    import: i,
                } && alias == a && version_req == v && sub_path == s && i == import,
                DependencyValue::File => action_for(false, import, m)
                    == ResolveAction::Unsupported(ResolveError::FileDependency(a)),
                DependencyValue::Catalog => action_for(false, import, m)
                    == ResolveAction::Unsupported(ResolveError::CatalogDependency(a)),
                DependencyValue::Unreadable(t) => action_for(false, import, m)
                    == ResolveAction::Fail(t),
            },
            Mapped::Normal { specifier: s, scheme, is_npm_reference: true } => action_for(
                false,
                import,
                m,
            ) matches ResolveAction::ResolveNpmReference { reference, import: i } && reference == s
                && i == import,
            Mapped::Normal { specifier: s, scheme, is_npm_reference: false } => if scheme@ == "jsr"@ {
                action_for(false, import, m) == ResolveAction::LookUpJsr(s)
            } else {
                action_for(false, import, m) == ResolveAction::NormalizeNodeModules(s)
            },
            Mapped::Failed { unmapped_bare: b, message: t } => if b && import.referrer.scheme@
                == "file"@ {
                action_for(false, import, m) matches ResolveAction::TryPackage { import: i, message }
                    && message == t && i == import
            } else {
                action_for(false, import, m) == ResolveAction::Fail(t)
            },
        },
        action_for(true, import, m) == ResolveAction::ResolveInPackage(import),
{
}


/// A dependency that is not supported is named in the message, with the protocol that it asks for.
pub proof fn law_unsupported_dependencies_are_named(alias: String, detail: Seq<char>)
    ensures
        ResolveError::FileDependency(alias).text(detail)
            == "file: protocol dependencies are not supported in package.json (dependency: "@ + alias@
            + ")"@,
        ResolveError::CatalogDependency(alias).text(detail)
            == "catalog: protocol dependencies are not supported in package.json (dependency: "@
            + alias@ + ")"@,
        ResolveError::InvalidReferrer.text(detail) == "Referrer uses invalid specifier: "@ + detail,
{
    reveal_strlit("file:");
    reveal_strlit("catalog:");
    reveal_strlit(" protocol dependencies are not supported in package.json (dependency: ");
    reveal_strlit("file: protocol dependencies are not supported in package.json (dependency: ");
    reveal_strlit("catalog: protocol dependencies are not supported in package.json (dependency: ");
    assert("file:"@ + " protocol dependencies are not supported in package.json (dependency: "@
        =~= "file: protocol dependencies are not supported in package.json (dependency: "@);
    assert("catalog:"@ + " protocol dependencies are not supported in package.json (dependency: "@
        =~= "catalog: protocol dependencies are not supported in package.json (dependency: "@);
}

} // verus!
