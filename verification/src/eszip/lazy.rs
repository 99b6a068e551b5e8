//! An archive whose data are read when they are asked for.

use vstd::prelude::*;

use crate::eszip::section::ModuleKind;
use crate::eszip_trait::FLOW_ESZIP_VERSION;

verus! {

/// What an archive is made from.
#[derive(Debug)]
pub enum EszipPayloadKind<E> {
    /// An archive that is in memory as a whole.
    Eszip(E),
    /// The bytes of an archive.
    Bytes(Vec<u8>),
    /// The file of an archive at this path, which is served from there.
    File(String),
}

impl<E> EszipPayloadKind<E> {
    /// Whether the archive is served from its file.
    pub fn is_file_backed(&self) -> (r: bool)
        ensures
            r == (*self is File),
    {
        match self {
            EszipPayloadKind::File(_) => true,
            _ => false,
        }
    }
}

/// What the archive holds where its version should be.
#[derive(Debug)]
pub struct UnsupportedVersion {
    pub found: Option<Vec<u8>>,
}

/// Whether what an archive holds where its version should be is the version that is read here.
pub open spec fn is_current_version(found: Option<Seq<u8>>) -> bool {
    found == Some(FLOW_ESZIP_VERSION@)
}

/// An archive with its data section (`S`), from which its modules are filled. One that is in memory
/// as a whole has none.
#[derive(Debug)]
pub struct LazyLoadableEszip<S> {
    pub maybe_data_section: Option<S>,
    /// Whether it was brought up from an older version.
    pub migrated: bool,
}

impl<S> LazyLoadableEszip<S> {
    pub fn new(maybe_data_section: Option<S>) -> (r: LazyLoadableEszip<S>)
        ensures
            r == (LazyLoadableEszip { maybe_data_section, migrated: false }),
    {
        LazyLoadableEszip { maybe_data_section, migrated: false }
    }

    /// What a lookup of any item gives as a module: an import map is none. `found` is the kind of
    /// the item that the header has.
    pub fn ensure_module(&self, found: Option<ModuleKind>) -> (r: Option<ModuleKind>)
        ensures
            r == if found == Some(ModuleKind::Jsonc) {
                None
            } else {
                found
            },
    {
        match found {
            Some(ModuleKind::Jsonc) => None,
            other => other,
        }
    }

    /// What a lookup of any item gives as an import map: code is none.
    pub fn ensure_import_map(&self, found: Option<ModuleKind>) -> (r: Option<ModuleKind>)
        ensures
            r == if found == Some(ModuleKind::JavaScript) {
                None
            } else {
                found
            },
    {
        match found {
            Some(ModuleKind::JavaScript) => None,
            other => other,
        }
    }

    /// Whether the data of an item that was found are to be read: there is a section to read them
    /// from.
    pub fn ensure_data(&self, found: Option<ModuleKind>) -> (r: bool)
        ensures
            r == (found is Some && self.maybe_data_section is Some),
    {
        found.is_some() && self.maybe_data_section.is_some()
    }

    /// The section that is still to be read as a whole, if any. It is given out once.
    pub fn ensure_read_all(&mut self) -> (r: Option<S>)
        ensures
            r == old(self).maybe_data_section,
            *final(self) == (LazyLoadableEszip { maybe_data_section: None, ..*old(self) }),
    {
        self.maybe_data_section.take()
    }

    /// Whether the version that the archive holds is the one that is read here.
    pub fn ensure_version(&self, found: Option<Vec<u8>>) -> (r: Result<(), UnsupportedVersion>)
        ensures
            r is Ok <==> is_current_version(
                match found {
                    Some(v) => Some(v@),
                    None => None,
                },
            ),
            r matches Err(e) ==> e.found == found,
    {
        let ok = match &found {
            Some(v) => v.len() == 3 && v[0] == FLOW_ESZIP_VERSION[0] && v[1]
                == FLOW_ESZIP_VERSION[1] && v[2] == FLOW_ESZIP_VERSION[2],
            None => false,
        };
        if ok {
            assert(found->0@ =~= FLOW_ESZIP_VERSION@);
            Ok(())
        } else {
            Err(UnsupportedVersion { found })
        }
    }

    pub fn migrated(&self) -> (r: bool)
        ensures
            r == self.migrated,
    {
        self.migrated
    }

    pub fn set_migrated(&mut self, value: bool)
        ensures
            *final(self) == (LazyLoadableEszip { migrated: value, ..*old(self) }),
    {
        self.migrated = value;
    }
}

/// Only an archive that says the very version of this program is current.
pub proof fn law_versions_match_exactly(found: Seq<u8>)
    ensures
        !is_current_version(None),
        is_current_version(Some(found)) <==> found == FLOW_ESZIP_VERSION@,
{
}

} // verus!
