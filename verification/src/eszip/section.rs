//! The data section of an archive. It holds the module sources and then the source maps, each
//! group behind its length in four bytes, and each item followed by its checksum.

use vstd::prelude::*;

use crate::flow_eszip::copy_range;
use crate::text::same;

verus! {

/// The source, or the source map, of a module.
#[derive(Debug)]
pub enum SourceSlot {
    /// It lies in the data section, at this offset within its group.
    Pending { offset: usize, length: usize },
    Ready(Vec<u8>),
    /// It is gone: it was taken, or could not be read.
    Taken,
}

#[derive(Debug, Clone, Copy, PartialEq, Eq, Structural)]
pub enum ModuleKind {
    JavaScript,
    Json,
    Jsonc,
    OpaqueData,
    Wasm,
}

/// An item of the archive's header.
#[derive(Debug)]
pub enum EszipModule {
    Module { kind: ModuleKind, source: SourceSlot, source_map: SourceSlot },
    Redirect { target: String },
}

/// A header item under its specifier.
#[derive(Debug)]
pub struct NamedModule {
    pub specifier: String,
    pub module: EszipModule,
}

/// Where the source and the source map of a module lie.
#[derive(Debug, Clone, Copy, PartialEq, Eq, Structural)]
pub struct EszipDataLoc {
    pub source_offset: usize,
    pub source_length: usize,
    pub source_map_offset: usize,
    pub source_map_length: usize,
}

#[derive(Debug, Clone, Copy, PartialEq, Eq, Structural)]
pub enum EszipDataSectionMetadata {
    HasLocation(EszipDataLoc),
    PendingOrAlreadyLoaded,
}

#[derive(Debug)]
pub enum SectionError {
    /// The specifier is not in the header.
    NoSuchSpecifier,
    /// The data end before the item does.
    UnexpectedEof,
    /// The checksum of the item of this specifier does not match.
    InvalidSourceHash(String),
    /// No item starts at this offset.
    InvalidSourceOffset(usize),
}

impl SectionError {
    /// What is said of the error, where something is.
    pub open spec fn text(self) -> Option<Seq<char>> {
        match self {
            SectionError::NoSuchSpecifier => Some(
                "given specifier does not exist in the eszip header"@,
            ),
            SectionError::InvalidSourceHash(_) => Some("invalid source hash"@),
            _ => None,
        }
    }

    pub fn message(&self) -> (r: Option<String>)
        ensures
            match r {
                Some(s) => self.text() == Some(s@),
                None => self.text() is None,
            },
    {
        match self {
            SectionError::NoSuchSpecifier => {
                Some("given specifier does not exist in the eszip header".to_owned())
            },
            SectionError::InvalidSourceHash(_) => Some("invalid source hash".to_owned()),
            _ => None,
        }
    }
}

/// The offset and the length of a slot that is pending, or zeros.
pub open spec fn pending_range(slot: SourceSlot) -> (usize, usize) {
    match slot {
        SourceSlot::Pending { offset, length } => (offset, length),
        _ => (0, 0),
    }
}

/// What is known of where a module's data lie, from the slots of its header item.
pub open spec fn metadata_of(source: SourceSlot, source_map: SourceSlot)
    -> EszipDataSectionMetadata {
    let (so, sl) = pending_range(source);
    let (mo, ml) = pending_range(source_map);
    if source_map is Pending || so != 0 || sl != 0 {
        EszipDataSectionMetadata::HasLocation(
            EszipDataLoc {
                source_offset: so,
                source_length: sl,
                source_map_offset: mo,
                source_map_length: ml,
            },
        )
    } else {
        EszipDataSectionMetadata::PendingOrAlreadyLoaded
    }
}

/// What is known of a header item. A redirect has no data.
pub open spec fn item_metadata(m: EszipModule) -> Option<EszipDataSectionMetadata> {
    match m {
        EszipModule::Module { kind, source, source_map } => Some(metadata_of(source, source_map)),
        EszipModule::Redirect { target } => None,
    }
}

fn range_of(slot: &SourceSlot) -> (r: (usize, usize))
    ensures
        r == pending_range(*slot),
{
    match slot {
        SourceSlot::Pending { offset, length } => (*offset, *length),
        _ => (0, 0),
    }
}

fn metadata_for(m: &EszipModule) -> (r: Option<EszipDataSectionMetadata>)
    ensures
        r == item_metadata(*m),
{
    match m {
        EszipModule::Module { kind: _, source, source_map } => {
            let (so, sl) = range_of(source);
            let (mo, ml) = range_of(source_map);
            let map_pending = matches!(source_map, SourceSlot::Pending { .. });
            if map_pending || so != 0 || sl != 0 {
                Some(
                    EszipDataSectionMetadata::HasLocation(
                        EszipDataLoc {
                            source_offset: so,
                            source_length: sl,
                            source_map_offset: mo,
                            source_map_length: ml,
                        },
                    ),
                )
            } else {
                Some(EszipDataSectionMetadata::PendingOrAlreadyLoaded)
            }
        },
        EszipModule::Redirect { target: _ } => None,
    }
}

/// Four bytes, the most significant first.
pub open spec fn be_u32(data: Seq<u8>, at: int) -> int {
    data[at] * 0x1000000 + data[at + 1] * 0x10000 + data[at + 2] * 0x100 + data[at + 3]
}

/// The number in the four bytes at `at`, where there are so many.
pub open spec fn u32_at(data: Seq<u8>, at: int) -> Option<int> {
    if 0 <= at && at + 4 <= data.len() {
        Some(be_u32(data, at))
    } else {
        None
    }
}

/// Reads four bytes at `at`.
pub fn read_u32(data: &Vec<u8>, at: usize) -> (r: Option<u32>)
    ensures
        match r {
            Some(n) => u32_at(data@, at as int) == Some(n as int),
            None => u32_at(data@, at as int) is None,
        },
{
    let n: usize = data.len();
    if at > n || n - at < 4 {
        return None;
    }
    Some(
        data[at] as u32 * 0x1000000 + data[at + 1] as u32 * 0x10000 + data[at + 2] as u32 * 0x100
            + data[at + 3] as u32,
    )
}

/// Whether an item of `length` bytes and its checksum lie within the data from `at` on.
pub open spec fn item_fits(data: Seq<u8>, at: int, length: int, checksum_size: int) -> bool {
    at + length + checksum_size <= data.len()
}

/// The position of the item, if the item and its checksum lie within the data.
fn item_start(data: &Vec<u8>, base: usize, offset: usize, length: usize, checksum_size: usize) -> (r:
    Option<usize>)
    ensures
        match r {
            Some(p) => p == base + offset && item_fits(
                data@,
                base + offset,
                length as int,
                checksum_size as int,
            ),
            None => !item_fits(data@, base + offset, length as int, checksum_size as int),
        },
{
    let n: usize = data.len();
    let p: usize = match base.checked_add(offset) {
        Some(p) => p,
        None => {
            return None;
        },
    };
    if p > n || length > n - p || checksum_size > n - p - length {
        None
    } else {
        Some(p)
    }
}

/// A header item once its source has been read, or found to be unreadable.
pub open spec fn with_source(m: EszipModule, slot: SourceSlot) -> EszipModule {
    match m {
        EszipModule::Module { kind, source, source_map } => EszipModule::Module {
            kind,
            source: slot,
            source_map,
        },
        _ => m,
    }
}

/// A header item once its source map has been read, or found to be unreadable.
pub open spec fn with_source_map(m: EszipModule, slot: SourceSlot) -> EszipModule {
    match m {
        EszipModule::Module { kind, source, source_map } => EszipModule::Module {
            kind,
            source,
            source_map: slot,
        },
        _ => m,
    }
}

/// A slot, with its bytes taken by view.
pub enum SlotView {
    Pending { offset: usize, length: usize },
    Ready(Seq<u8>),
    Taken,
}

/// A header item, taken by view.
pub enum ModuleView {
    Module { kind: ModuleKind, source: SlotView, source_map: SlotView },
    Redirect { target: Seq<char> },
}

pub open spec fn slot_view(s: SourceSlot) -> SlotView {
    match s {
        SourceSlot::Pending { offset, length } => SlotView::Pending { offset, length },
        SourceSlot::Ready(v) => SlotView::Ready(v@),
        SourceSlot::Taken => SlotView::Taken,
    }
}

pub open spec fn module_view(m: EszipModule) -> ModuleView {
    match m {
        EszipModule::Module { kind, source, source_map } => ModuleView::Module {
            kind,
            source: slot_view(source),
            source_map: slot_view(source_map),
        },
        EszipModule::Redirect { target } => ModuleView::Redirect { target: target@ },
    }
}

pub open spec fn set_source(m: ModuleView, slot: SlotView) -> ModuleView {
    match m {
        ModuleView::Module { kind, source, source_map } => ModuleView::Module {
            kind,
            source: slot,
            source_map,
        },
        _ => m,
    }
}

pub open spec fn set_source_map(m: ModuleView, slot: SlotView) -> ModuleView {
    match m {
        ModuleView::Module { kind, source, source_map } => ModuleView::Module {
            kind,
            source,
            source_map: slot,
        },
        _ => m,
    }
}

/// The data section with the header items that it serves.
pub struct EszipDataSection {
    pub data: Vec<u8>,
    /// Where the section starts within the data.
    pub initial_offset: usize,
    /// How many bytes of checksum follow each item.
    pub checksum_size: usize,
    pub modules: Vec<NamedModule>,
    /// For each header item, what is known of where its data lie.
    pub locs: Vec<Option<EszipDataSectionMetadata>>,
    /// For each header item, where its data were when it was asked for.
    pub loaded: Vec<Option<EszipDataLoc>>,
}

pub open spec fn distinct_specifiers(modules: Seq<NamedModule>) -> bool {
    forall|i: int, j: int|
        0 <= i < j < modules.len() ==> (#[trigger] modules[i]).specifier@ != (
        #[trigger] modules[j]).specifier@
}

/// What one read request does to a header item, and how it ends.
pub struct ReadResult {
    pub module: ModuleView,
    pub error: Option<ReadFault>,
}

pub enum ReadFault {
    Eof,
    Hash,
}

impl EszipDataSection {
    pub open spec fn wf(self) -> bool {
        &&& self.locs@.len() == self.modules@.len()
        &&& self.loaded@.len() == self.modules@.len()
        &&& distinct_specifiers(self.modules@)
        &&& forall|i: int|
            0 <= i < self.modules@.len() ==> {
                &&& (#[trigger] self.locs@[i]) is Some <==> self.modules@[i].module is Module
                &&& self.locs@[i] matches Some(EszipDataSectionMetadata::HasLocation(l))
                    ==> item_metadata(self.modules@[i].module) == self.locs@[i]
            }
    }

    /// A section whose items have not been asked for.
    pub fn new(
        data: Vec<u8>,
        initial_offset: usize,
        checksum_size: usize,
        modules: Vec<NamedModule>,
    ) -> (r: EszipDataSection)
        requires
            distinct_specifiers(modules@),
        ensures
            r.wf(),
            r.data == data,
            r.initial_offset == initial_offset,
            r.checksum_size == checksum_size,
            r.modules == modules,
            forall|i: int|
                0 <= i < modules@.len() ==> #[trigger] r.locs@[i] == item_metadata(
                    modules@[i].module,
                ),
            forall|i: int| 0 <= i < modules@.len() ==> #[trigger] r.loaded@[i] is None,
    {
        let mut locs: Vec<Option<EszipDataSectionMetadata>> = Vec::new();
        let mut loaded: Vec<Option<EszipDataLoc>> = Vec::new();
        let mut i: usize = 0;
        while i < modules.len()
            invariant
                i <= modules@.len(),
                locs@.len() == i,
                loaded@.len() == i,
                forall|j: int|
                    0 <= j < i ==> #[trigger] locs@[j] == item_metadata(modules@[j].module),
                forall|j: int| 0 <= j < i ==> #[trigger] loaded@[j] is None,
            decreases modules@.len() - i,
        {
            locs.push(metadata_for(&modules[i].module));
            loaded.push(None);
            i = i + 1;
        }
        EszipDataSection { data, initial_offset, checksum_size, modules, locs, loaded }
    }

    /// The position of the header item under `specifier`.
    pub fn find(&self, specifier: &str) -> (r: Option<usize>)
        requires
            distinct_specifiers(self.modules@),
        ensures
            match r {
                Some(i) => i < self.modules@.len() && self.modules@[i as int].specifier@
                    == specifier@,
                None => forall|i: int|
                    0 <= i < self.modules@.len() ==> (#[trigger] self.modules@[i]).specifier@
                        != specifier@,
            },
    {
        let mut i: usize = 0;
        while i < self.modules.len()
            invariant
                i <= self.modules@.len(),
                forall|j: int|
                    0 <= j < i ==> (#[trigger] self.modules@[j]).specifier@ != specifier@,
            decreases self.modules@.len() - i,
        {
            if same(self.modules[i].specifier.as_str(), specifier) {
                return Some(i);
            }
            i = i + 1;
        }
        None
    }

    /// Where the source of an item lies in the data.
    pub open spec fn source_at(self, loc: EszipDataLoc) -> int {
        self.initial_offset + 4 + loc.source_offset
    }

    /// The length of the group of sources.
    pub open spec fn sources_len(self) -> Option<int> {
        u32_at(self.data@, self.initial_offset as int)
    }

    /// Where the source map of an item lies in the data.
    pub open spec fn source_map_at(self, loc: EszipDataLoc) -> int {
        self.initial_offset + 4 + self.sources_len()->0 + 4 + loc.source_map_offset
    }

    pub open spec fn source_fits(self, loc: EszipDataLoc) -> bool {
        item_fits(
            self.data@,
            self.source_at(loc),
            loc.source_length as int,
            self.checksum_size as int,
        )
    }

    pub open spec fn source_map_fits(self, loc: EszipDataLoc) -> bool {
        item_fits(
            self.data@,
            self.source_map_at(loc),
            loc.source_map_length as int,
            self.checksum_size as int,
        )
    }

    /// What a read request makes of the source. An empty source is never read.
    pub open spec fn source_result(self, m: ModuleView, loc: EszipDataLoc, valid: bool)
        -> ReadResult {
        if loc.source_length == 0 {
            ReadResult { module: m, error: None }
        } else if !self.source_fits(loc) {
            ReadResult { module: set_source(m, SlotView::Taken), error: Some(ReadFault::Eof) }
        } else if !valid {
            ReadResult { module: set_source(m, SlotView::Taken), error: Some(ReadFault::Hash) }
        } else {
            let p = self.source_at(loc);
            ReadResult {
                module: set_source(
                    m,
                    SlotView::Ready(self.data@.subrange(p, p + loc.source_length)),
                ),
                error: None,
            }
        }
    }

    /// What a read request makes of the source map.
    pub open spec fn source_map_result(self, m: ModuleView, loc: EszipDataLoc, valid: bool)
        -> ReadResult {
        if loc.source_map_length == 0 {
            ReadResult { module: m, error: None }
        } else if self.sources_len() is None {
            ReadResult { module: m, error: Some(ReadFault::Eof) }
        } else if !self.source_map_fits(loc) {
            ReadResult { module: set_source_map(m, SlotView::Taken), error: Some(ReadFault::Eof) }
        } else if !valid {
            ReadResult { module: set_source_map(m, SlotView::Taken), error: Some(ReadFault::Hash) }
        } else {
            let p = self.source_map_at(loc);
            ReadResult {
                module: set_source_map(
                    m,
                    SlotView::Ready(self.data@.subrange(p, p + loc.source_map_length)),
                ),
                error: None,
            }
        }
    }

    /// What a read request makes of both. The source map is not read where the source failed.
    pub open spec fn read_result(
        self,
        m: ModuleView,
        loc: EszipDataLoc,
        source_valid: bool,
        source_map_valid: bool,
    ) -> ReadResult {
        let s = self.source_result(m, loc, source_valid);
        if s.error is Some {
            s
        } else {
            self.source_map_result(s.module, loc, source_map_valid)
        }
    }

    /// Where the source that a request would read lies in the data, if it reads one: its bytes
    /// and, behind them, its checksum.
    pub fn source_range(&self, i: usize) -> (r: Option<(usize, usize)>)
        requires
            self.wf(),
            i < self.modules@.len(),
        ensures
            match self.locs@[i as int] {
                Some(EszipDataSectionMetadata::HasLocation(loc)) => if loc.source_length > 0
                    && self.source_fits(loc) {
                    r == Some((self.source_at(loc) as usize, loc.source_length))
                        && self.source_at(loc) <= self.data@.len()
                } else {
                    r is None
                },
                _ => r is None,
            },
    {
        let total: usize = self.data.len();
        match self.locs[i] {
            Some(EszipDataSectionMetadata::HasLocation(loc)) => {
                if loc.source_length == 0 {
                    return None;
                }
                match self.initial_offset.checked_add(4) {
                    Some(base) => match item_start(
                        &self.data,
                        base,
                        loc.source_offset,
                        loc.source_length,
                        self.checksum_size,
                    ) {
                        Some(p) => Some((p, loc.source_length)),
                        None => None,
                    },
                    None => None,
                }
            },
            _ => None,
        }
    }

    /// Where the source map that a request would read lies in the data, if it reads one.
    pub fn source_map_range(&self, i: usize) -> (r: Option<(usize, usize)>)
        requires
            self.wf(),
            i < self.modules@.len(),
        ensures
            match self.locs@[i as int] {
                Some(EszipDataSectionMetadata::HasLocation(loc)) => if loc.source_map_length > 0
                    && self.sources_len() is Some && self.source_map_fits(loc) {
                    r == Some((self.source_map_at(loc) as usize, loc.source_map_length))
                        && self.source_map_at(loc) <= self.data@.len()
                } else {
                    r is None
                },
                _ => r is None,
            },
    {
        match self.locs[i] {
            Some(EszipDataSectionMetadata::HasLocation(loc)) => {
                if loc.source_map_length == 0 {
                    return None;
                }
                match self.map_base() {
                    Some(base) => match item_start(
                        &self.data,
                        base,
                        loc.source_map_offset,
                        loc.source_map_length,
                        self.checksum_size,
                    ) {
                        Some(p) => Some((p, loc.source_map_length)),
                        None => None,
                    },
                    None => None,
                }
            },
            _ => None,
        }
    }

    /// Where the group of source maps starts, behind its length, if that lies within the data or
    /// just behind it.
    fn map_base(&self) -> (r: Option<usize>)
        ensures
            match r {
                Some(b) => self.sources_len() is Some && b == self.initial_offset + 4
                    + self.sources_len()->0 + 4,
                None => self.sources_len() is None || self.initial_offset + 4
                    + self.sources_len()->0 + 4 > self.data@.len(),
            },
    {
        let n: usize = self.data.len();
        match read_u32(&self.data, self.initial_offset) {
            Some(len) => {
                let first: usize = self.initial_offset + 4;
                if len as usize > n - first {
                    return None;
                }
                let end: usize = first + len as usize;
                if n - end < 4 {
                    return None;
                }
                Some(end + 4)
            },
            None => None,
        }
    }

    /// Puts `slot` in the place of the source of item `i`.
    pub(crate) fn put_source(&mut self, i: usize, slot: SourceSlot)
        requires
            i < old(self).modules@.len(),
        ensures
            final(self).data == old(self).data,
            final(self).initial_offset == old(self).initial_offset,
            final(self).checksum_size == old(self).checksum_size,
            final(self).locs == old(self).locs,
            final(self).loaded == old(self).loaded,
            final(self).modules@.len() == old(self).modules@.len(),
            final(self).modules@[i as int].specifier == old(self).modules@[i as int].specifier,
            final(self).modules@[i as int].module == with_source(
                old(self).modules@[i as int].module,
                slot,
            ),
            forall|j: int|
                0 <= j < old(self).modules@.len() && j != i ==> #[trigger] final(self).modules@[j]
                    == old(self).modules@[j],
    {
        let m = &mut self.modules[i];
        match &mut m.module {
            EszipModule::Module { kind: _, source, source_map: _ } => {
                *source = slot;
            },
            EszipModule::Redirect { target: _ } => {},
        }
    }

    /// Puts `slot` in the place of the source map of item `i`.
    pub(crate) fn put_source_map(&mut self, i: usize, slot: SourceSlot)
        requires
            i < old(self).modules@.len(),
        ensures
            final(self).data == old(self).data,
            final(self).initial_offset == old(self).initial_offset,
            final(self).checksum_size == old(self).checksum_size,
            final(self).locs == old(self).locs,
            final(self).loaded == old(self).loaded,
            final(self).modules@.len() == old(self).modules@.len(),
            final(self).modules@[i as int].specifier == old(self).modules@[i as int].specifier,
            final(self).modules@[i as int].module == with_source_map(
                old(self).modules@[i as int].module,
                slot,
            ),
            forall|j: int|
                0 <= j < old(self).modules@.len() && j != i ==> #[trigger] final(self).modules@[j]
                    == old(self).modules@[j],
    {
        let m = &mut self.modules[i];
        match &mut m.module {
            EszipModule::Module { kind: _, source: _, source_map } => {
                *source_map = slot;
            },
            EszipModule::Redirect { target: _ } => {},
        }
    }

    /// Whether two states of a section differ in item `i` alone.
    pub open spec fn same_but(self, other: EszipDataSection, i: int) -> bool {
        &&& self.data == other.data
        &&& self.initial_offset == other.initial_offset
        &&& self.checksum_size == other.checksum_size
        &&& self.modules@.len() == other.modules@.len()
        &&& self.locs@.len() == other.locs@.len()
        &&& self.loaded@.len() == other.loaded@.len()
        &&& forall|j: int|
            0 <= j < self.modules@.len() ==> (#[trigger] self.modules@[j]).specifier
                == other.modules@[j].specifier
        &&& forall|j: int|
            0 <= j < self.modules@.len() && j != i ==> #[trigger] self.modules@[j]
                == other.modules@[j]
        &&& forall|j: int|
            0 <= j < self.locs@.len() && j != i ==> #[trigger] self.locs@[j] == other.locs@[j]
        &&& forall|j: int|
            0 <= j < self.loaded@.len() && j != i ==> #[trigger] self.loaded@[j]
                == other.loaded@[j]
    }

    /// Reads the data of the module under `specifier`, on the first request for it; later requests
    /// change nothing. `source_valid` and `source_map_valid` say whether the checksums that follow
    /// the ranges of [`Self::source_range`] and [`Self::source_map_range`] match.
    pub fn read_data_section_by_specifier(
        &mut self,
        specifier: &str,
        source_valid: bool,
        source_map_valid: bool,
    ) -> (r: Result<(), SectionError>)
        requires
            old(self).wf(),
        ensures
            final(self).wf(),
            match r {
                Err(SectionError::NoSuchSpecifier) => *final(self) == *old(self) && forall|i: int|
                    0 <= i < old(self).modules@.len() && (
                    #[trigger] old(self).modules@[i]).specifier@ == specifier@ ==> old(
                        self,
                    ).modules@[i].module is Redirect,
                _ => exists|i: int|
                    {
                        &&& 0 <= i < old(self).modules@.len()
                        &&& (#[trigger] old(self).modules@[i]).specifier@ == specifier@
                        &&& final(self).same_but(*old(self), i)
                        &&& match old(self).locs@[i] {
                            Some(EszipDataSectionMetadata::HasLocation(loc)) => {
                                let x = old(self).read_result(
                                    module_view(old(self).modules@[i].module),
                                    loc,
                                    source_valid,
                                    source_map_valid,
                                );
                                &&& module_view(final(self).modules@[i].module) == x.module
                                &&& final(self).locs@[i] == Some(
                                    EszipDataSectionMetadata::PendingOrAlreadyLoaded,
                                )
                                &&& final(self).loaded@[i] == Some(loc)
                                &&& match x.error {
                                    None => r is Ok,
                                    Some(ReadFault::Eof) => r is Err && r->Err_0 is UnexpectedEof,
                                    Some(ReadFault::Hash) => r is Err
                                        && r->Err_0 is InvalidSourceHash && (
                                    r->Err_0->InvalidSourceHash_0)@ == specifier@,
                                }
                            },
                            Some(EszipDataSectionMetadata::PendingOrAlreadyLoaded) => r is Ok
                                && *final(self) == *old(self),
                            None => false,
                        }
                    },
            },
    {
        let i: usize = match self.find(specifier) {
            Some(i) => i,
            None => {
                return Err(SectionError::NoSuchSpecifier);
            },
        };
        let ghost before = *self;
        let loc = match self.locs[i] {
            None => {
                proof {
                    assert forall|j: int|
                        0 <= j < before.modules@.len() && (
                        #[trigger] before.modules@[j]).specifier@
                            == specifier@ implies before.modules@[j].module is Redirect by {
                        if j < i {
                            assert(before.modules@[j].specifier@ != before.modules@[i as int].specifier@);
                        } else if i < j {
                            assert(before.modules@[i as int].specifier@ != before.modules@[j].specifier@);
                        }
                        assert(before.locs@[j] is None);
                    }
                }
                return Err(SectionError::NoSuchSpecifier);
            },
            Some(EszipDataSectionMetadata::PendingOrAlreadyLoaded) => {
                assert(self.same_but(before, i as int));
                return Ok(());
            },
            Some(EszipDataSectionMetadata::HasLocation(loc)) => loc,
        };
        let total: usize = self.data.len();
        let source_range = self.source_range(i);
        let map_range = self.source_map_range(i);
        let has_map_base = read_u32(&self.data, self.initial_offset).is_some();
        self.loaded.set(i, Some(loc));
        self.locs.set(i, Some(EszipDataSectionMetadata::PendingOrAlreadyLoaded));
        let ghost old_view = module_view(before.modules@[i as int].module);
        assert(before.locs@[i as int] is Some);
        assert(before.modules@[i as int].module is Module);
        if loc.source_length > 0 {
            match source_range {
                None => {
                    self.put_source(i, SourceSlot::Taken);
                    assert(module_view(self.modules@[i as int].module) == set_source(
                        old_view,
                        SlotView::Taken,
                    ));
                    assert(self.same_but(before, i as int));
                    return Err(SectionError::UnexpectedEof);
                },
                Some((p, n)) => {
                    if !source_valid {
                        self.put_source(i, SourceSlot::Taken);
                        assert(self.same_but(before, i as int));
                        return Err(SectionError::InvalidSourceHash(specifier.to_owned()));
                    }
                    let bytes = copy_range(&self.data, p, p + n);
                    self.put_source(i, SourceSlot::Ready(bytes));
                },
            }
        }
        let ghost mid = *self;
        assert(module_view(self.modules@[i as int].module) == before.source_result(
            old_view,
            loc,
            source_valid,
        ).module);
        if loc.source_map_length > 0 {
            if !has_map_base {
                assert(self.same_but(before, i as int));
                return Err(SectionError::UnexpectedEof);
            }
            match map_range {
                None => {
                    self.put_source_map(i, SourceSlot::Taken);
                    assert(self.same_but(before, i as int));
                    return Err(SectionError::UnexpectedEof);
                },
                Some((p, n)) => {
                    if !source_map_valid {
                        self.put_source_map(i, SourceSlot::Taken);
                        assert(self.same_but(before, i as int));
                        return Err(SectionError::InvalidSourceHash(specifier.to_owned()));
                    }
                    let bytes = copy_range(&self.data, p, p + n);
                    self.put_source_map(i, SourceSlot::Ready(bytes));
                },
            }
        }
        assert(self.same_but(before, i as int));
        Ok(())
    }
}

// ---------------------------------------------------------------------------
// Redirects
// ---------------------------------------------------------------------------

/// Whether the first item under `specifier` is at `i`.
pub open spec fn is_first_named(modules: Seq<NamedModule>, specifier: Seq<char>, i: int) -> bool {
    &&& 0 <= i < modules.len()
    &&& modules[i].specifier@ == specifier
    &&& forall|j: int| 0 <= j < i ==> (#[trigger] modules[j]).specifier@ != specifier
}

/// The position of the first item under `specifier`.
pub open spec fn item_named(modules: Seq<NamedModule>, specifier: Seq<char>) -> Option<int> {
    if exists|i: int| is_first_named(modules, specifier, i) {
        Some(choose|i: int| is_first_named(modules, specifier, i))
    } else {
        None
    }
}

/// The position of the module that `specifier` leads to, through fewer than `hops` redirects.
pub open spec fn lands_at(modules: Seq<NamedModule>, specifier: Seq<char>, hops: nat) -> Option<int>
    decreases hops,
{
    if hops == 0 {
        None
    } else {
        match item_named(modules, specifier) {
            Some(i) => match modules[i].module {
                EszipModule::Redirect { target } => lands_at(modules, target@, (hops - 1) as nat),
                EszipModule::Module { .. } => Some(i),
            },
            None => None,
        }
    }
}

/// The position of the module that `specifier` leads to, through redirects. One that leads around
/// in a circle leads to none: there are not more redirects on the way than items.
pub fn item_behind(modules: &Vec<NamedModule>, specifier: &str) -> (r: Option<usize>)
    ensures
        match r {
            Some(i) => lands_at(modules@, specifier@, modules@.len()) == Some(i as int) && i
                < modules@.len() && modules@[i as int].module is Module,
            None => lands_at(modules@, specifier@, modules@.len()) is None,
        },
{
    let mut name: String = specifier.to_owned();
    let mut left: usize = modules.len();
    while left > 0
        invariant
            left <= modules@.len(),
            lands_at(modules@, name@, left as nat) == lands_at(
                modules@,
                specifier@,
                modules@.len(),
            ),
        decreases left,
    {
        let mut i: usize = 0;
        while i < modules.len() && !same(modules[i].specifier.as_str(), name.as_str())
            invariant
                i <= modules@.len(),
                forall|j: int| 0 <= j < i ==> (#[trigger] modules@[j]).specifier@ != name@,
            decreases modules@.len() - i,
        {
            i = i + 1;
        }
        if i >= modules.len() {
            assert(forall|k: int| !is_first_named(modules@, name@, k));
            return None;
        }
        proof {
            assert(is_first_named(modules@, name@, i as int));
            let k = choose|k: int| is_first_named(modules@, name@, k);
            assert(is_first_named(modules@, name@, k));
            if k < i {
                assert(modules@[k].specifier@ != name@);
            } else if i < k {
                assert(modules@[i as int].specifier@ != name@);
            }
        }
        match &modules[i].module {
            EszipModule::Redirect { target } => {
                name = target.clone();
            },
            EszipModule::Module { .. } => {
                return Some(i);
            },
        }
        left = left - 1;
    }
    None
}

// ---------------------------------------------------------------------------
// Laws
// ---------------------------------------------------------------------------

/// A number in four bytes has its most significant byte first.
pub proof fn law_numbers_are_big_endian(head: Seq<u8>, a: u8, b: u8, c: u8, d: u8, tail: Seq<u8>)
    ensures
        u32_at(head + seq![a, b, c, d] + tail, head.len() as int) == Some(
            ((a as int * 256 + b) * 256 + c) * 256 + d,
        ),
        forall|data: Seq<u8>, at: int|
            0 <= at && data.len() < at + 4 ==> (#[trigger] u32_at(data, at)) is None,
{
    let data = head + seq![a, b, c, d] + tail;
    let n = head.len() as int;
    assert(data[n] == a && data[n + 1] == b && data[n + 2] == c && data[n + 3] == d);
}

/// The place of an item is the one that its slots hold; an item with nothing to read has none.
pub proof fn law_places_are_those_of_the_slots(source: SourceSlot, source_map: SourceSlot)
    ensures
        match metadata_of(source, source_map) {
            EszipDataSectionMetadata::HasLocation(l) => {
                &&& match source {
                    SourceSlot::Pending { offset, length } => l.source_offset == offset
                        && l.source_length == length,
                    _ => l.source_offset == 0 && l.source_length == 0,
                }
                &&& match source_map {
                    SourceSlot::Pending { offset, length } => l.source_map_offset == offset
                        && l.source_map_length == length,
                    _ => l.source_map_offset == 0 && l.source_map_length == 0,
                }
            },
            EszipDataSectionMetadata::PendingOrAlreadyLoaded => !(source_map is Pending) && match source {
                SourceSlot::Pending { offset, length } => offset == 0 && length == 0,
                _ => true,
            },
        },
        source matches SourceSlot::Pending { offset, length } && length > 0 ==> metadata_of(
            source,
            source_map,
        ) is HasLocation,
{
}

/// A source comes back as it was written: behind the length of the sources, after what comes before
/// it, and in front of its checksum. A section that ends too early, and a checksum that does not
/// match, are errors that leave nothing to read, and nothing is read of an empty source.
pub proof fn law_sources_come_back(
    s: EszipDataSection,
    kind: ModuleKind,
    source: SlotView,
    source_map: SlotView,
    loc: EszipDataLoc,
    head: Seq<u8>,
    length: Seq<u8>,
    before: Seq<u8>,
    item: Seq<u8>,
    sum: Seq<u8>,
    rest: Seq<u8>,
)
    requires
        head.len() == s.initial_offset,
        length.len() == 4,
        before.len() == loc.source_offset,
        item.len() == loc.source_length,
        sum.len() == s.checksum_size,
    ensures
        ({
            let m = ModuleView::Module { kind, source, source_map };
            let read = |valid: bool| s.source_result(m, loc, valid);
            &&& item.len() == 0 ==> read(true) == (ReadResult { module: m, error: None })
                && read(false) == read(true)
            &&& item.len() > 0 && s.data@ == head + length + before + item + sum + rest ==> {
                &&& read(true) == (ReadResult {
                    module: ModuleView::Module { kind, source: SlotView::Ready(item), source_map },
                    error: None,
                })
                &&& read(false) == (ReadResult {
                    module: ModuleView::Module { kind, source: SlotView::Taken, source_map },
                    error: Some(ReadFault::Hash),
                })
            }
            &&& item.len() > 0 && s.data@.len() < head.len() + 4 + before.len() + item.len()
                + sum.len() ==> read(true) == (ReadResult {
                module: ModuleView::Module { kind, source: SlotView::Taken, source_map },
                error: Some(ReadFault::Eof),
            })
        }),
{
    let p = s.initial_offset + 4 + loc.source_offset;
    if s.data@ == head + length + before + item + sum + rest {
        assert(s.data@.subrange(p, p + loc.source_length) =~= item);
    }
}

/// A source map comes back as it was written: behind all the sources, whose length stands in front
/// of them, and the length of the maps.
pub proof fn law_source_maps_come_back(
    s: EszipDataSection,
    kind: ModuleKind,
    source: SlotView,
    source_map: SlotView,
    loc: EszipDataLoc,
    head: Seq<u8>,
    sources: Seq<u8>,
    a: u8,
    b: u8,
    c: u8,
    d: u8,
    length: Seq<u8>,
    before: Seq<u8>,
    item: Seq<u8>,
    sum: Seq<u8>,
    rest: Seq<u8>,
)
    requires
        head.len() == s.initial_offset,
        sources.len() == ((a as int * 256 + b) * 256 + c) * 256 + d,
        length.len() == 4,
        before.len() == loc.source_map_offset,
        item.len() == loc.source_map_length,
        sum.len() == s.checksum_size,
        s.data@ == head + seq![a, b, c, d] + sources + length + before + item + sum + rest,
        item.len() > 0,
    ensures
        ({
            let m = ModuleView::Module { kind, source, source_map };
            &&& s.source_map_result(m, loc, true) == (ReadResult {
                module: ModuleView::Module { kind, source, source_map: SlotView::Ready(item) },
                error: None,
            })
            &&& s.source_map_result(m, loc, false) == (ReadResult {
                module: ModuleView::Module { kind, source, source_map: SlotView::Taken },
                error: Some(ReadFault::Hash),
            })
        }),
{
    let tail = sources + length + before + item + sum + rest;
    assert(s.data@ =~= head + seq![a, b, c, d] + tail);
    law_numbers_are_big_endian(head, a, b, c, d, tail);
    let p = s.initial_offset + 4 + sources.len() + 4 + loc.source_map_offset;
    assert(s.source_map_at(loc) == p);
    assert(s.data@.subrange(p, p + loc.source_map_length) =~= item);
}

/// The source is read first; where that fails, the map is not looked at, and where it does not, the
/// map decides.
pub proof fn law_source_is_read_before_its_map(
    s: EszipDataSection,
    m: ModuleView,
    loc: EszipDataLoc,
    source_valid: bool,
    map_valid: bool,
)
    ensures
        s.source_result(m, loc, source_valid).error is Some ==> s.read_result(
            m,
            loc,
            source_valid,
            map_valid,
        ) == s.source_result(m, loc, source_valid),
        s.source_result(m, loc, source_valid).error is None ==> s.read_result(
            m,
            loc,
            source_valid,
            map_valid,
        ) == s.source_map_result(s.source_result(m, loc, source_valid).module, loc, map_valid),
        loc.source_map_length == 0 && s.source_result(m, loc, source_valid).error is None
            ==> s.read_result(m, loc, source_valid, map_valid).error is None,
{
}

/// Reading one item changes no other, and nothing of the data.
pub proof fn law_reading_touches_one_item(a: EszipDataSection, b: EszipDataSection, i: int, j: int)
    requires
        a.same_but(b, i),
        0 <= j < a.modules@.len(),
        j < a.locs@.len(),
        j < a.loaded@.len(),
        j != i,
    ensures
        a.data@ == b.data@,
        a.initial_offset == b.initial_offset,
        a.checksum_size == b.checksum_size,
        a.modules@.len() == b.modules@.len(),
        a.modules@[j] == b.modules@[j],
        a.locs@[j] == b.locs@[j],
        a.loaded@[j] == b.loaded@[j],
        0 <= i < a.modules@.len() ==> a.modules@[i].specifier == b.modules@[i].specifier,
{
}

/// A name leads to the module under it, and through a redirect to where the redirect's target leads.
pub proof fn law_redirects_lead_on(modules: Seq<NamedModule>, i: int, hops: nat)
    requires
        0 <= i < modules.len(),
        forall|j: int| 0 <= j < i ==> (#[trigger] modules[j]).specifier@ != modules[i].specifier@,
    ensures
        match modules[i].module {
            EszipModule::Module { .. } => lands_at(modules, modules[i].specifier@, hops + 1) == Some(
                i,
            ),
            EszipModule::Redirect { target } => lands_at(modules, modules[i].specifier@, hops + 1)
                == lands_at(modules, target@, hops),
        },
{
    let name = modules[i].specifier@;
    assert(is_first_named(modules, name, i));
    let k = choose|k: int| is_first_named(modules, name, k);
    assert(is_first_named(modules, name, k));
    if k < i {
        assert(modules[k].specifier@ != name);
    } else if i < k {
        assert(modules[i].specifier@ != name);
    }
}

/// A name that no item has leads nowhere.
pub proof fn law_unknown_names_lead_nowhere(modules: Seq<NamedModule>, name: Seq<char>, hops: nat)
    requires
        forall|j: int| 0 <= j < modules.len() ==> (#[trigger] modules[j]).specifier@ != name,
    ensures
        lands_at(modules, name, hops) is None,
{
    assert forall|k: int| !is_first_named(modules, name, k) by {}
}

} // verus!
