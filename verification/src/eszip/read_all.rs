//! Reading a whole data section, item by item in the order in which the items lie in it.

use std::collections::HashMap;

use vstd::prelude::*;
use vstd::std_specs::hash::*;

use crate::eszip::section::{
    distinct_specifiers, item_fits, item_metadata, module_view, read_u32, set_source,
    set_source_map, u32_at, EszipDataLoc, EszipDataSection, EszipDataSectionMetadata, EszipModule,
    NamedModule, SectionError, SlotView, SourceSlot,
};
use crate::flow_eszip::copy_range;

verus! {

/// The item that starts at some offset of its group.
#[derive(Debug, Clone, Copy, PartialEq, Eq, Structural)]
pub struct OffsetEntry {
    pub length: usize,
    /// The header item that it belongs to.
    pub index: usize,
    /// Whether it is still to be loaded; one that was asked for before is only passed over.
    pub need_load: bool,
}

/// The offset and the item that a header item contributes to the sources.
pub open spec fn source_entry(m: EszipModule, loaded: Option<EszipDataLoc>, i: int) -> Option<
    (usize, OffsetEntry),
> {
    match m {
        EszipModule::Module {
            kind,
            source: SourceSlot::Pending { offset, length },
            source_map,
        } => Some((offset, OffsetEntry { length, index: i as usize, need_load: true })),
        _ => match loaded {
            Some(loc) => Some(
                (
                    loc.source_offset,
                    OffsetEntry { length: loc.source_length, index: i as usize, need_load: false },
                ),
            ),
            None => None,
        },
    }
}

/// The offset and the item that a header item contributes to the source maps. A location that
/// stood for a source is used up.
pub open spec fn source_map_entry(m: EszipModule, loaded: Option<EszipDataLoc>, i: int) -> Option<
    (usize, OffsetEntry),
> {
    match m {
        EszipModule::Module {
            kind,
            source,
            source_map: SourceSlot::Pending { offset, length },
        } => Some((offset, OffsetEntry { length, index: i as usize, need_load: true })),
        EszipModule::Module {
            kind,
            source: SourceSlot::Pending { offset, length },
            source_map,
        } => match loaded {
            Some(loc) => Some(
                (
                    loc.source_map_offset,
                    OffsetEntry {
                        length: loc.source_map_length,
                        index: i as usize,
                        need_load: false,
                    },
                ),
            ),
            None => None,
        },
        _ => None,
    }
}

pub open spec fn group_entry(maps: bool, m: EszipModule, loaded: Option<EszipDataLoc>, i: int)
    -> Option<(usize, OffsetEntry)> {
    if maps {
        source_map_entry(m, loaded, i)
    } else {
        source_entry(m, loaded, i)
    }
}

/// The items of a group by offset, from the first `n` header items. Where two of them give the
/// same offset, the later one stands.
pub open spec fn offset_table(
    maps: bool,
    modules: Seq<NamedModule>,
    loaded: Seq<Option<EszipDataLoc>>,
    n: int,
) -> Map<usize, OffsetEntry>
    decreases n,
{
    if n <= 0 {
        Map::empty()
    } else {
        let t = offset_table(maps, modules, loaded, n - 1);
        match group_entry(maps, modules[n - 1].module, loaded[n - 1], n - 1) {
            Some((offset, e)) => t.insert(offset, e),
            None => t,
        }
    }
}

/// The slot of a group.
pub open spec fn group_slot(maps: bool, m: EszipModule) -> SourceSlot {
    match m {
        EszipModule::Module { kind, source, source_map } => if maps {
            source_map
        } else {
            source
        },
        EszipModule::Redirect { target } => SourceSlot::Taken,
    }
}

/// An item that is to be loaded belongs to the header item whose slot points at its offset.
pub open spec fn table_ok(
    maps: bool,
    table: Map<usize, OffsetEntry>,
    modules: Seq<NamedModule>,
) -> bool {
    forall|k: usize| #[trigger]
        table.contains_key(k) ==> {
            &&& table[k].index < modules.len()
            &&& table[k].need_load ==> modules[table[k].index as int].module is Module
                && group_slot(maps, modules[table[k].index as int].module) == (
            SourceSlot::Pending { offset: k, length: table[k].length })
        }
}

/// No two items of a table belong to the same header item.
pub open spec fn table_distinct(table: Map<usize, OffsetEntry>) -> bool {
    forall|a: usize, b: usize|
        #![trigger table.contains_key(a), table.contains_key(b)]
        table.contains_key(a) && table.contains_key(b) && a != b ==> table[a].index
            != table[b].index
}

proof fn lemma_offset_table(
    maps: bool,
    modules: Seq<NamedModule>,
    loaded: Seq<Option<EszipDataLoc>>,
    n: int,
)
    requires
        0 <= n <= modules.len() <= usize::MAX,
    ensures
        table_ok(maps, offset_table(maps, modules, loaded, n), modules),
        table_distinct(offset_table(maps, modules, loaded, n)),
        forall|k: usize| #[trigger]
            offset_table(maps, modules, loaded, n).contains_key(k) ==> offset_table(
                maps,
                modules,
                loaded,
                n,
            )[k].index < n,
    decreases n,
{
    if n > 0 {
        lemma_offset_table(maps, modules, loaded, n - 1);
    }
}

fn entry_for(maps: bool, m: &EszipModule, loaded: &Option<EszipDataLoc>, i: usize) -> (r: Option<
    (usize, OffsetEntry),
>)
    ensures
        r == group_entry(maps, *m, *loaded, i as int),
{
    match m {
        EszipModule::Module { kind: _, source, source_map } => {
            let slot = if maps {
                source_map
            } else {
                source
            };
            match slot {
                SourceSlot::Pending { offset, length } => Some(
                    (*offset, OffsetEntry { length: *length, index: i, need_load: true }),
                ),
                _ => {
                    if maps && !matches!(source, SourceSlot::Pending { .. }) {
                        return None;
                    }
                    match loaded {
                        Some(loc) => {
                            let (offset, length) = if maps {
                                (loc.source_map_offset, loc.source_map_length)
                            } else {
                                (loc.source_offset, loc.source_length)
                            };
                            Some((offset, OffsetEntry { length, index: i, need_load: false }))
                        },
                        None => None,
                    }
                },
            }
        },
        EszipModule::Redirect { target: _ } => {
            if maps {
                return None;
            }
            match loaded {
                Some(loc) => Some(
                    (
                        loc.source_offset,
                        OffsetEntry { length: loc.source_length, index: i, need_load: false },
                    ),
                ),
                None => None,
            }
        },
    }
}

fn build_table(maps: bool, modules: &Vec<NamedModule>, loaded: &Vec<Option<EszipDataLoc>>) -> (r:
    HashMap<usize, OffsetEntry>)
    requires
        loaded@.len() == modules@.len(),
    ensures
        r@ == offset_table(maps, modules@, loaded@, modules@.len() as int),
        table_ok(maps, r@, modules@),
        table_distinct(r@),
{
    broadcast use vstd::std_specs::hash::group_hash_axioms;

    let mut table: HashMap<usize, OffsetEntry> = HashMap::new();
    let mut i: usize = 0;
    while i < modules.len()
        invariant
            i <= modules@.len(),
            loaded@.len() == modules@.len(),
            table@ == offset_table(maps, modules@, loaded@, i as int),
        decreases modules@.len() - i,
    {
        match entry_for(maps, &modules[i].module, &loaded[i], i) {
            Some((offset, e)) => {
                table.insert(offset, e);
            },
            None => {},
        }
        i = i + 1;
    }
    proof {
        lemma_offset_table(maps, modules@, loaded@, modules@.len() as int);
    }
    table
}

/// What comes next in reading a section.
#[derive(Debug, Clone, Copy, PartialEq, Eq, Structural)]
pub enum Progress {
    /// An item that needs no loading was passed over.
    Skipped,
    /// The item of `length` bytes at `start` is next; whether its checksum matches is to be
    /// reported.
    Check { start: usize, length: usize },
    /// The sources are through; the source maps follow.
    SourcesRead,
    /// Everything has been read.
    Done,
}

/// Reading a whole section.
pub struct ReadAll {
    pub section: EszipDataSection,
    /// Whether the source maps are being read.
    pub maps: bool,
    /// Where the current group starts, behind its length.
    pub base: usize,
    /// The length of the current group.
    pub group_len: usize,
    /// How much of the group has been read.
    pub read: usize,
    /// The items of the current group that have not been passed yet, by offset.
    pub table: HashMap<usize, OffsetEntry>,
    /// The source maps, as they stood when the reading began.
    pub map_table: HashMap<usize, OffsetEntry>,
    /// The item whose checksum is to be reported.
    pub current: Option<OffsetEntry>,
}

impl EszipDataSection {
    /// Begins to read the whole section, if the length of its sources is there.
    pub fn read_data_section_all(self) -> (r: Result<ReadAll, SectionError>)
        requires
            self.wf(),
        ensures
            match self.sources_len() {
                None => r is Err && r->Err_0 is UnexpectedEof,
                Some(n) => r matches Ok(x) && {
                    &&& x.wf()
                    &&& x.section == self
                    &&& !x.maps
                    &&& x.base == self.initial_offset + 4
                    &&& x.group_len == n
                    &&& x.read == 0
                    &&& x.current is None
                    &&& x.table@ == offset_table(
                        false,
                        self.modules@,
                        self.loaded@,
                        self.modules@.len() as int,
                    )
                    &&& x.map_table@ == offset_table(
                        true,
                        self.modules@,
                        self.loaded@,
                        self.modules@.len() as int,
                    )
                },
            },
    {
        let total: usize = self.data.len();
        match read_u32(&self.data, self.initial_offset) {
            None => Err(SectionError::UnexpectedEof),
            Some(n) => {
                let table = build_table(false, &self.modules, &self.loaded);
                let map_table = build_table(true, &self.modules, &self.loaded);
                let base: usize = self.initial_offset + 4;
                Ok(
                    ReadAll {
                        section: self,
                        maps: false,
                        base,
                        group_len: n as usize,
                        read: 0,
                        table,
                        map_table,
                        current: None,
                    },
                )
            },
        }
    }
}

impl ReadAll {
    pub open spec fn wf(self) -> bool {
        &&& distinct_specifiers(self.section.modules@)
        &&& !self.maps ==> self.base == self.section.initial_offset + 4
        &&& table_ok(self.maps, self.table@, self.section.modules@)
        &&& table_distinct(self.table@)
        &&& !self.maps ==> table_ok(true, self.map_table@, self.section.modules@)
            && table_distinct(self.map_table@)
        &&& self.current matches Some(e) ==> {
            &&& e.need_load
            &&& e.index < self.section.modules@.len()
            &&& self.section.modules@[e.index as int].module is Module
            &&& group_slot(self.maps, self.section.modules@[e.index as int].module) == (
            SourceSlot::Pending { offset: self.read, length: e.length })
            &&& item_fits(
                self.section.data@,
                self.base + self.read,
                e.length as int,
                self.section.checksum_size as int,
            )
            &&& forall|k: usize| #[trigger]
                self.table@.contains_key(k) ==> self.table@[k].index != e.index
        }
    }

    /// Where the next item starts.
    pub open spec fn at(self) -> int {
        self.base + self.read
    }

    /// One step. Where an item starts that is to be loaded, the step stops there for its checksum
    /// to be reported. It fails where no item starts, and where the data end.
    pub fn next(&mut self) -> (r: Result<Progress, SectionError>)
        requires
            old(self).wf(),
            old(self).current is None,
        ensures
            final(self).wf(),
            final(self).section == old(self).section,
            old(self).read < old(self).group_len ==> {
                &&& final(self).maps == old(self).maps
                &&& final(self).base == old(self).base
                &&& final(self).group_len == old(self).group_len
                &&& final(self).map_table@ == old(self).map_table@
                &&& final(self).table@ == old(self).table@.remove(old(self).read)
                &&& if !old(self).table@.contains_key(old(self).read) {
                    &&& r == Err::<Progress, SectionError>(
                        SectionError::InvalidSourceOffset(old(self).read),
                    )
                    &&& final(self).read == old(self).read
                    &&& final(self).current is None
                } else {
                    let e = old(self).table@[old(self).read];
                    let size = e.length + old(self).section.checksum_size;
                    if !e.need_load {
                        &&& final(self).current is None
                        &&& if old(self).read + size <= usize::MAX {
                            r == Ok::<Progress, SectionError>(Progress::Skipped)
                                && final(self).read == old(self).read + size
                        } else {
                            r is Err && r->Err_0 is UnexpectedEof && final(self).read == old(
                                self,
                            ).read
                        }
                    } else {
                        &&& final(self).read == old(self).read
                        &&& if item_fits(
                            old(self).section.data@,
                            old(self).at(),
                            e.length as int,
                            old(self).section.checksum_size as int,
                        ) {
                            r == Ok::<Progress, SectionError>(
                                Progress::Check { start: old(self).at() as usize, length: e.length },
                            ) && final(self).current == Some(e)
                        } else {
                            r is Err && r->Err_0 is UnexpectedEof && final(self).current is None
                        }
                    }
                }
            },
            old(self).read >= old(self).group_len && old(self).maps ==> r == Ok::<
                Progress,
                SectionError,
            >(Progress::Done) && *final(self) == *old(self),
            old(self).read >= old(self).group_len && !old(self).maps ==> match u32_at(
                old(self).section.data@,
                old(self).at(),
            ) {
                None => r is Err && r->Err_0 is UnexpectedEof && *final(self) == *old(self),
                Some(n) => {
                    &&& r == Ok::<Progress, SectionError>(Progress::SourcesRead)
                    &&& final(self).maps
                    &&& final(self).base == old(self).at() + 4
                    &&& final(self).group_len == n
                    &&& final(self).read == 0
                    &&& final(self).table@ == old(self).map_table@
                    &&& final(self).current is None
                },
            },
    {
        broadcast use vstd::std_specs::hash::group_hash_axioms;

        let total: usize = self.section.data.len();
        if self.read >= self.group_len {
            if self.maps {
                return Ok(Progress::Done);
            }
            let at: usize = match self.base.checked_add(self.read) {
                Some(at) => at,
                None => {
                    return Err(SectionError::UnexpectedEof);
                },
            };
            match read_u32(&self.section.data, at) {
                None => {
                    return Err(SectionError::UnexpectedEof);
                },
                Some(n) => {
                    self.maps = true;
                    self.base = at + 4;
                    self.group_len = n as usize;
                    self.read = 0;
                    let mut t: HashMap<usize, OffsetEntry> = HashMap::new();
                    core::mem::swap(&mut t, &mut self.map_table);
                    self.table = t;
                    return Ok(Progress::SourcesRead);
                },
            }
        }
        let ghost before = self.table@;
        let read: usize = self.read;
        let e = match self.table.remove(&read) {
            None => {
                assert(self.table@ =~= before.remove(read));
                return Err(SectionError::InvalidSourceOffset(read));
            },
            Some(e) => e,
        };
        assert(before.contains_key(read) && before[read] == e);
        if !e.need_load {
            let size: usize = match e.length.checked_add(self.section.checksum_size) {
                Some(s) => s,
                None => {
                    return Err(SectionError::UnexpectedEof);
                },
            };
            match read.checked_add(size) {
                Some(next) => {
                    self.read = next;
                    Ok(Progress::Skipped)
                },
                None => Err(SectionError::UnexpectedEof),
            }
        } else {
            let at: usize = match self.base.checked_add(read) {
                Some(at) => at,
                None => {
                    return Err(SectionError::UnexpectedEof);
                },
            };
            if at > total || e.length > total - at || self.section.checksum_size > total - at
                - e.length {
                return Err(SectionError::UnexpectedEof);
            }
            self.current = Some(e);
            Ok(Progress::Check { start: at, length: e.length })
        }
    }

    /// Takes in whether the checksum of the item that was stopped at matches. Its bytes then fill
    /// the slot that pointed at them.
    pub fn report(&mut self, valid: bool) -> (r: Result<(), SectionError>)
        requires
            old(self).wf(),
            old(self).current is Some,
        ensures
            final(self).current is None,
            final(self).maps == old(self).maps,
            final(self).base == old(self).base,
            final(self).group_len == old(self).group_len,
            final(self).table@ == old(self).table@,
            final(self).map_table@ == old(self).map_table@,
            ({
                let e = old(self).current->0;
                let i = e.index as int;
                &&& r is Ok <==> valid
                &&& !valid ==> {
                    &&& r->Err_0 is InvalidSourceHash
                    &&& (r->Err_0->InvalidSourceHash_0)@ == old(self).section.modules@[i].specifier@
                    &&& final(self).section == old(self).section
                }
                &&& valid ==> {
                    let bytes = old(self).section.data@.subrange(
                        old(self).at(),
                        old(self).at() + e.length,
                    );
                    let m = module_view(old(self).section.modules@[i].module);
                    &&& final(self).wf()
                    &&& final(self).read == old(self).read + e.length + old(
                        self,
                    ).section.checksum_size
                    &&& final(self).section.data == old(self).section.data
                    &&& final(self).section.checksum_size == old(self).section.checksum_size
                    &&& final(self).section.same_but(old(self).section, i)
                    &&& module_view(final(self).section.modules@[i].module) == if old(self).maps {
                        set_source_map(m, SlotView::Ready(bytes))
                    } else {
                        set_source(m, SlotView::Ready(bytes))
                    }
                }
            }),
    {
        let total: usize = self.section.data.len();
        let e = match self.current.take() {
            Some(e) => e,
            None => {
                return Ok(());
            },
        };
        let i: usize = e.index;
        if !valid {
            return Err(
                SectionError::InvalidSourceHash(self.section.modules[i].specifier.clone()),
            );
        }
        let at: usize = self.base + self.read;
        let bytes = copy_range(&self.section.data, at, at + e.length);
        let ghost before = self.section;
        if self.maps {
            self.section.put_source_map(i, SourceSlot::Ready(bytes));
        } else {
            self.section.put_source(i, SourceSlot::Ready(bytes));
        }
        self.read = self.read + e.length + self.section.checksum_size;
        assert(self.section.same_but(before, i as int));
        Ok(())
    }
}

/// Reading a whole section fills a source with the bytes that asking for that module alone would
/// fill it with.
pub proof fn law_sources_read_alike(r: ReadAll, loc: EszipDataLoc)
    requires
        r.wf(),
        !r.maps,
        r.current is Some,
        item_metadata(r.section.modules@[(r.current->0).index as int].module) == Some(
            EszipDataSectionMetadata::HasLocation(loc),
        ),
        loc.source_length > 0,
    ensures
        ({
            let m = module_view(r.section.modules@[(r.current->0).index as int].module);
            let bytes = r.section.data@.subrange(r.at(), r.at() + (r.current->0).length);
            let one = r.section.source_result(m, loc, true);
            one.error is None && one.module == set_source(m, SlotView::Ready(bytes))
        }),
{
}

/// The same of source maps, in a section whose sources fill their group to its end.
pub proof fn law_source_maps_read_alike(r: ReadAll, loc: EszipDataLoc)
    requires
        r.wf(),
        r.maps,
        r.current is Some,
        r.section.sources_len() is Some,
        r.base == r.section.initial_offset + 4 + r.section.sources_len()->0 + 4,
        item_metadata(r.section.modules@[(r.current->0).index as int].module) == Some(
            EszipDataSectionMetadata::HasLocation(loc),
        ),
        loc.source_map_length > 0,
    ensures
        ({
            let m = module_view(r.section.modules@[(r.current->0).index as int].module);
            let bytes = r.section.data@.subrange(r.at(), r.at() + (r.current->0).length);
            let one = r.section.source_map_result(m, loc, true);
            one.error is None && one.module == set_source_map(m, SlotView::Ready(bytes))
        }),
{
}

/// A table of a group holds every item of it that is still to be read, at its place and with its
/// length, unless a later item lies at the same place; and one that has been read already is passed
/// over.
pub proof fn law_everything_unread_is_read(
    modules: Seq<NamedModule>,
    loaded: Seq<Option<EszipDataLoc>>,
    n: int,
    i: int,
    offset: usize,
    length: usize,
)
    requires
        0 <= i < n <= modules.len() <= usize::MAX,
        modules[i].module matches EszipModule::Module { source, .. } && source == (
        SourceSlot::Pending { offset, length }),
        forall|j: int|
            #![trigger modules[j]]
            i < j < n ==> (group_entry(false, modules[j].module, loaded[j], j) matches Some((o, e))
                ==> o != offset),
    ensures
        offset_table(false, modules, loaded, n).contains_key(offset),
        offset_table(false, modules, loaded, n)[offset] == (OffsetEntry {
            length,
            index: i as usize,
            need_load: true,
        }),
    decreases n,
{
    if i < n - 1 {
        law_everything_unread_is_read(modules, loaded, n - 1, i, offset, length);
        assert(modules[n - 1] == modules[n - 1]);
    }
}

/// The same holds of source maps.
pub proof fn law_every_unread_map_is_read(
    modules: Seq<NamedModule>,
    loaded: Seq<Option<EszipDataLoc>>,
    n: int,
    i: int,
    offset: usize,
    length: usize,
)
    requires
        0 <= i < n <= modules.len() <= usize::MAX,
        modules[i].module matches EszipModule::Module { source_map, .. } && source_map == (
        SourceSlot::Pending { offset, length }),
        forall|j: int|
            #![trigger modules[j]]
            i < j < n ==> (group_entry(true, modules[j].module, loaded[j], j) matches Some((o, e))
                ==> o != offset),
    ensures
        offset_table(true, modules, loaded, n).contains_key(offset),
        offset_table(true, modules, loaded, n)[offset] == (OffsetEntry {
            length,
            index: i as usize,
            need_load: true,
        }),
    decreases n,
{
    if i < n - 1 {
        law_every_unread_map_is_read(modules, loaded, n - 1, i, offset, length);
        assert(modules[n - 1] == modules[n - 1]);
    }
}

/// A source that was read before is passed over at the place that is recorded of it, and a redirect
/// that was never read has no place.
pub proof fn law_read_items_are_passed_over(m: EszipModule, loc: EszipDataLoc, i: int)
    requires
        !(m matches EszipModule::Module { source: SourceSlot::Pending { .. }, .. }),
        0 <= i <= usize::MAX,
    ensures
        group_entry(false, m, Some(loc), i) matches Some((offset, e)) && offset == loc.source_offset
            && e.length == loc.source_length && e.index == i && !e.need_load,
        group_entry(false, m, None, i) is None,
        m is Redirect ==> group_entry(true, m, Some(loc), i) is None,
{
}

} // verus!
