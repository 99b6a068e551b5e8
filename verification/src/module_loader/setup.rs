//! Setting up the loader of an archive: where its modules and packages are looked for.

use vstd::prelude::*;

use crate::eszip::lazy::EszipPayloadKind;
use crate::paths::{components, join_path, joined, law_joining_adds_a_component};
use crate::text::join;

verus! {

/// How the packages of an archive are kept.
#[derive(Debug)]
pub enum NodeModules {
    /// In a cache that the runtime manages; the key of the `node_modules` directory beside it,
    /// where there is one.
    Managed { node_modules_dir: Option<String> },
    /// In a `node_modules` directory that the user keeps, at this place in the archive.
    Byonm { root_node_modules_dir: Option<String> },
}

/// Where package versions come from.
#[derive(Debug, Clone, Copy, PartialEq, Eq, Structural)]
pub enum Resolution {
    /// Nothing is resolved in advance.
    Empty,
    /// The snapshot that the archive holds, if any.
    FromArchive,
}

/// How packages are found.
#[derive(Debug)]
pub enum PackageResolver {
    Managed(Resolution),
    /// In a `node_modules` directory, whose path is this.
    Byonm(Option<String>),
}

/// Where the modules and packages of an archive are looked for.
#[derive(Debug)]
pub struct LoaderPlan {
    pub root_path: String,
    pub root_node_modules_path: String,
    pub npm_registry_url: String,
    /// Whether packages are read from the file system and not from the archive.
    pub use_real_fs: bool,
    pub resolver: PackageResolver,
}

/// The directory that an archive is mounted at: below `/var/tmp`, as far as that resolves.
pub open spec fn loader_root(var_tmp: Option<Seq<char>>) -> Seq<char> {
    joined(
        match var_tmp {
            Some(p) => p,
            None => "/var/tmp"@,
        },
        "sb-compile-trex"@,
    )
}

/// The directory that an archive is mounted at. `var_tmp` is the canonical form of `/var/tmp`,
/// where there is one.
pub fn root_path(var_tmp: Option<&str>) -> (r: String)
    ensures
        r@ == loader_root(
            match var_tmp {
                Some(p) => Some(p@),
                None => None,
            },
        ),
{
    match var_tmp {
        Some(p) => join_path(p, "sb-compile-trex"),
        None => join_path("/var/tmp", "sb-compile-trex"),
    }
}

/// Decides where packages are looked for. An archive that embeds its packages serves them itself,
/// from a registry that does not exist; without embedded packages they come from the global cache
/// and the public registry. `npm_folder` is the global cache, asked for only in that case; without
/// it there is no plan.
pub fn create_module_loader_for_eszip(
    root: String,
    has_embedded_npm: bool,
    node_modules: &Option<NodeModules>,
    npm_folder: Option<String>,
) -> (r: Option<LoaderPlan>)
    ensures
        r is None <==> !has_embedded_npm && npm_folder is None,
        r matches Some(p) ==> {
            &&& p.root_path == root
            &&& p.use_real_fs == !has_embedded_npm
            &&& p.npm_registry_url@ == if has_embedded_npm {
                "https://localhost/"@
            } else {
                "https://registry.npmjs.org/"@
            }
            &&& p.root_node_modules_path@ == if !has_embedded_npm {
                (npm_folder->0)@
            } else if *node_modules matches Some(NodeModules::Byonm { .. }) {
                root@
            } else {
                joined(root@, "node_modules"@)
            }
            &&& match *node_modules {
                Some(NodeModules::Byonm { root_node_modules_dir }) => p.resolver matches
                    PackageResolver::Byonm(d) && match root_node_modules_dir {
                    Some(dir) => d matches Some(x) && x@ == joined(
                        p.root_node_modules_path@,
                        dir@,
                    ),
                    None => d is None,
                },
                _ => p.resolver == PackageResolver::Managed(
                    if has_embedded_npm {
                        Resolution::FromArchive
                    } else {
                        Resolution::Empty
                    },
                ),
            }
        },
{
    let is_byonm = matches!(node_modules, Some(NodeModules::Byonm { .. }));
    let modules_path: String = if has_embedded_npm {
        if is_byonm {
            root.clone()
        } else {
            join_path(root.as_str(), "node_modules")
        }
    } else {
        match npm_folder {
            Some(f) => f,
            None => {
                return None;
            },
        }
    };
    let registry: String = if has_embedded_npm {
        "https://localhost/".to_owned()
    } else {
        "https://registry.npmjs.org/".to_owned()
    };
    let resolver = match node_modules {
        Some(NodeModules::Byonm { root_node_modules_dir }) => match root_node_modules_dir {
            Some(dir) => PackageResolver::Byonm(
                Some(join_path(modules_path.as_str(), dir.as_str())),
            ),
            None => PackageResolver::Byonm(None),
        },
        _ => PackageResolver::Managed(
            if has_embedded_npm {
                Resolution::FromArchive
            } else {
                Resolution::Empty
            },
        ),
    };
    Some(
        LoaderPlan {
            root_path: root,
            root_node_modules_path: modules_path,
            npm_registry_url: registry,
            use_real_fs: !has_embedded_npm,
            resolver,
        },
    )
}

/// What is done with an archive before it is loaded from.
#[derive(Debug, Clone, Copy, PartialEq, Eq, Structural)]
pub enum Preparation {
    /// Its version must be the current one: a file-backed archive is never changed in place.
    CheckVersion,
    /// It is brought up to the current version where it is older.
    Migrate,
}

/// What is done with an archive before a loader is made for it.
pub fn create_module_loader_for_standalone_from_eszip_kind<E>(payload: &EszipPayloadKind<E>) -> (r:
    Preparation)
    ensures
        r == if *payload is File {
            Preparation::CheckVersion
        } else {
            Preparation::Migrate
        },
{
    if payload.is_file_backed() {
        Preparation::CheckVersion
    } else {
        Preparation::Migrate
    }
}

/// The message for a file-backed archive of another version, of which `error` says what is wrong.
pub fn unsupported_format_message(error: &str) -> (r: String)
    ensures
        r@ == error@ + unsupported_format(),
{
    join(
        error,
        ": this eszip uses an unsupported format for file-backed loading; re-bundle it with `flow eszip bundle` (old bundles can still be unpacked with `flow eszip unbundle`)",
    )
}

/// What is advised for a file-backed archive of another version.
pub open spec fn unsupported_format() -> Seq<char> {
    ": this eszip uses an unsupported format for file-backed loading; re-bundle it with `flow eszip bundle` (old bundles can still be unpacked with `flow eszip unbundle`)"@
}

/// Archives are mounted in one directory below `/var/tmp`, wherever that really is.
pub proof fn law_archives_are_mounted_below_var_tmp(var_tmp: Seq<char>)
    ensures
        components(loader_root(Some(var_tmp))) == components(var_tmp).push("sb-compile-trex"@),
        loader_root(None) == loader_root(Some("/var/tmp"@)),
{
    reveal_strlit("sb-compile-trex");
    let name = "sb-compile-trex"@;
    assert(name.len() == 15);
    assert(!name.contains('/'));
    law_joining_adds_a_component(var_tmp, name);
}

} // verus!
