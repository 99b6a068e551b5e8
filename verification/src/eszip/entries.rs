//! The files that an archive unpacks to, and where each of them lands.

use std::collections::VecDeque;

use vstd::prelude::*;
use vstd::string::*;

use crate::paths::{
    components, is_absolute, is_component_list, is_plain_name, join_components, join_path, joined,
    joined_all, law_components_make_their_path, law_joining_adds_a_component,
    law_parent_drops_the_last_component, lemma_components_are_a_list, lies_under, parent,
    parent_path, pieces, split_components, views,
};
use crate::urls::{parse_url, url_parsed};
use crate::text::{
    after_prefix, begins_with, chars_of, find_char, first_index, join, lemma_first_index, same,
};

verus! {

// ---------------------------------------------------------------------------
// Specifiers
// ---------------------------------------------------------------------------

/// Whether a specifier starts with a scheme: a colon in front of any slash.
pub open spec fn has_scheme(s: Seq<char>) -> bool {
    match (first_index(s, ':'), first_index(s, '/')) {
        (Some(c), Some(p)) => c < p,
        (Some(c), None) => true,
        _ => false,
    }
}

/// Whether `s` starts with a scheme.
pub fn is_schema(s: &str) -> (r: bool)
    ensures
        r == has_scheme(s@),
{
    let v = chars_of(s);
    match find_char(&v, ':') {
        Some(c) => match find_char(&v, '/') {
            Some(p) => c < p,
            None => true,
        },
        None => false,
    }
}

/// Whether a path has no leading, trailing or doubled slash, and is not empty.
pub open spec fn is_plain_path(s: Seq<char>) -> bool {
    forall|i: int| 0 <= i < pieces(s).len() ==> (#[trigger] pieces(s)[i]).len() > 0
}

fn plain_path(s: &str) -> (r: bool)
    ensures
        r == is_plain_path(s@),
{
    let v = chars_of(s);
    let mut i: usize = 0;
    let mut open = true;
    proof {
        assert(s@.take(0) =~= Seq::<char>::empty());
    }
    while i < v.len()
        invariant
            v@ == s@,
            i <= v@.len(),
            pieces(s@.take(i as int)).len() > 0,
            open == (pieces(s@.take(i as int)).last().len() == 0),
            forall|j: int|
                0 <= j < pieces(s@.take(i as int)).len() - 1 ==> (
                #[trigger] pieces(s@.take(i as int))[j]).len() > 0,
        decreases v@.len() - i,
    {
        let ghost a = pieces(s@.take(i as int));
        let ghost b = pieces(s@.take(i + 1));
        assert(s@.take(i + 1).drop_last() =~= s@.take(i as int));
        if v[i] == '/' {
            if open {
                proof {
                    lemma_pieces_prefix(s@, i as int, i + 1);
                    lemma_closed_piece_stays(s@, i + 1, a.len() - 1);
                }
                return false;
            }
            open = true;
            assert(b == a.push(Seq::empty()));
        } else {
            open = false;
            assert(b == a.drop_last().push(a.last().push(v@[i as int])));
        }
        i = i + 1;
    }
    assert(s@.take(i as int) =~= s@);
    if open {
        assert(pieces(s@)[pieces(s@).len() - 1].len() == 0);
    }
    !open
}

/// Reading on never changes a piece that a slash has closed.
proof fn lemma_closed_piece_stays(s: Seq<char>, n: int, k: int)
    requires
        0 <= n <= s.len(),
        0 <= k < pieces(s.take(n)).len() - 1,
    ensures
        k < pieces(s).len(),
        pieces(s)[k] == pieces(s.take(n))[k],
    decreases s.len() - n,
{
    if n < s.len() {
        lemma_pieces_prefix(s, n, n + 1);
        lemma_closed_piece_stays(s, n + 1, k);
    } else {
        assert(s.take(n) =~= s);
    }
}

proof fn lemma_pieces_prefix(s: Seq<char>, n: int, m: int)
    requires
        0 <= n < s.len(),
        m == n + 1,
    ensures
        pieces(s.take(n)).len() > 0,
        pieces(s.take(m)).len() >= pieces(s.take(n)).len(),
        forall|k: int|
            0 <= k < pieces(s.take(n)).len() - 1 ==> #[trigger] pieces(s.take(m))[k] == pieces(
                s.take(n),
            )[k],
        s[n] == '/' ==> pieces(s.take(m)) == pieces(s.take(n)).push(Seq::empty()),
{
    assert(s.take(m).drop_last() =~= s.take(n));
    crate::paths::lemma_pieces_nonempty(s.take(n));
}

/// Whether a specifier names a file of the archive: a `file:` URL, or a plain relative path that
/// is no internal key.
pub open spec fn is_file_specifier(s: Seq<char>) -> bool {
    "file:"@.is_prefix_of(s) || (!has_scheme(s) && !"---"@.is_prefix_of(s) && is_plain_path(s))
}

fn file_specifier(s: &str) -> (r: bool)
    ensures
        r == is_file_specifier(s@),
{
    begins_with(s, "file:") || (!is_schema(s) && !begins_with(s, "---") && plain_path(s))
}

/// The specifiers that name files, in order.
pub fn extract_file_specifiers(specifiers: &Vec<String>) -> (r: Vec<String>)
    ensures
        views(r@) == views(specifiers@).filter(|s: Seq<char>| is_file_specifier(s)),
{
    let mut out: Vec<String> = Vec::new();
    let mut i: usize = 0;
    let ghost pred = |s: Seq<char>| is_file_specifier(s);
    assert(views(specifiers@).take(0).filter(pred) =~= Seq::<Seq<char>>::empty()) by {
        reveal(Seq::filter);
    }
    assert(views(out@) =~= Seq::<Seq<char>>::empty());
    while i < specifiers.len()
        invariant
            i <= specifiers@.len(),
            pred == (|s: Seq<char>| is_file_specifier(s)),
            views(out@) == views(specifiers@).take(i as int).filter(pred),
        decreases specifiers@.len() - i,
    {
        let ghost seen = views(specifiers@).take(i as int);
        assert(views(specifiers@).take(i + 1) =~= seen.push(specifiers@[i as int]@));
        proof {
            seen.lemma_filter_push(specifiers@[i as int]@, pred);
        }
        if file_specifier(specifiers[i].as_str()) {
            let s = specifiers[i].clone();
            proof {
                crate::paths::lemma_views_push(out@, s);
            }
            out.push(s);
        }
        i = i + 1;
    }
    assert(views(specifiers@).take(i as int) =~= views(specifiers@));
    out
}

/// A specifier without its `file://` scheme.
pub open spec fn schemeless(s: Seq<char>) -> Seq<char> {
    if "file://"@.is_prefix_of(s) {
        s.skip("file://"@.len() as int)
    } else {
        s
    }
}

/// `input` without its `file://` scheme.
pub fn strip_file_scheme(input: &str) -> (r: String)
    ensures
        r@ == schemeless(input@),
{
    match after_prefix(input, "file://") {
        Some(rest) => rest.to_owned(),
        None => input.to_owned(),
    }
}

// ---------------------------------------------------------------------------
// The common root
// ---------------------------------------------------------------------------

/// Whether the path at `k` is the first of those with the fewest components.
pub open spec fn is_lowest(paths: Seq<Seq<char>>, k: int) -> bool {
    &&& 0 <= k < paths.len()
    &&& forall|i: int|
        0 <= i < paths.len() ==> components(paths[k]).len() <= components(
            #[trigger] paths[i],
        ).len()
    &&& forall|i: int|
        0 <= i < k ==> components(paths[k]).len() < components(#[trigger] paths[i]).len()
}

/// The path with the fewest components, the first of them where there are several.
pub fn find_lowest_path(paths: &Vec<String>) -> (r: Option<String>)
    ensures
        match r {
            Some(p) => exists|k: int| #[trigger] is_lowest(views(paths@), k) && p@ == paths@[k]@,
            None => paths@.len() == 0,
        },
{
    if paths.len() == 0 {
        return None;
    }
    let mut best: usize = 0;
    let mut fewest: usize = split_components(paths[0].as_str()).len();
    let mut i: usize = 1;
    while i < paths.len()
        invariant
            best < i <= paths@.len(),
            fewest == components(views(paths@)[best as int]).len(),
            forall|j: int|
                0 <= j < i ==> components(views(paths@)[best as int]).len() <= components(
                    #[trigger] views(paths@)[j],
                ).len(),
            forall|j: int|
                0 <= j < best ==> components(views(paths@)[best as int]).len() < components(
                    #[trigger] views(paths@)[j],
                ).len(),
        decreases paths@.len() - i,
    {
        let c = split_components(paths[i].as_str());
        let n: usize = c.len();
        assert(views(c@) == components(views(paths@)[i as int]));
        if n < fewest {
            best = i;
            fewest = n;
        }
        i = i + 1;
    }
    assert(is_lowest(views(paths@), best as int));
    Some(paths[best].clone())
}

// ---------------------------------------------------------------------------
// Where a module lands
// ---------------------------------------------------------------------------

/// The way from one path to another, as `pathdiff` finds it.
pub uninterp spec fn path_difference(path: Seq<char>, base: Seq<char>) -> Option<Seq<char>>;

/// `pathdiff::diff_paths` gives the relative path from `base` to `path`. It depends on the two
/// texts alone. An absolute path is its own difference from a relative base, a relative path has
/// none from an absolute base, and a path under `base` gives its components past those of `base`.
#[verifier::external_body]
pub(crate) fn diff_paths(path: &str, base: &str) -> (r: Option<String>)
    ensures
        match r {
            Some(d) => path_difference(path@, base@) == Some(d@),
            None => path_difference(path@, base@) is None,
        },
        is_absolute(path@) && !is_absolute(base@) ==> r is Some && (r->0)@ == path@,
        !is_absolute(path@) && is_absolute(base@) ==> r is None,
        is_absolute(path@) == is_absolute(base@) && lies_under(path@, base@) ==> r is Some && (
        r->0)@ == joined_all(components(path@).skip(components(base@).len() as int)),
{
    pathdiff::diff_paths(path, base).map(|p| p.to_string_lossy().into_owned())
}

/// Why a module has no place to land.
#[derive(Debug)]
pub enum PlaceError {
    /// There is no relative path from the root to it.
    NoRelativePath(String),
    /// Its path is not a Unix path.
    NotUnix(String),
}

/// A relative path that is not one of Unix starts with a backslash.
pub open spec fn is_unix_relative(path: Seq<char>) -> bool {
    !is_absolute(path) && !(path.len() > 0 && path[0] == '\\')
}

/// `path`, which must be a relative Unix path.
pub fn ensure_unix_relative_path(path: &str) -> (r: &str)
    requires
        is_unix_relative(path@),
    ensures
        r@ == path@,
{
    path
}

/// Whether `path` is a relative Unix path.
fn unix_relative(path: &str) -> (r: bool)
    ensures
        r == is_unix_relative(path@),
{
    let v = chars_of(path);
    v.len() == 0 || (v[0] != '/' && v[0] != '\\')
}

/// A path that starts at the root, taken relative to it. A relative path must be a Unix path.
pub open spec fn landing(path: Seq<char>) -> Option<Seq<char>> {
    if is_absolute(path) {
        Some(joined_all(components(path).drop_first()))
    } else if is_unix_relative(path) {
        Some(path)
    } else {
        None
    }
}

/// Where a path lands relative to the extraction root, if it can.
pub fn land(path: &str) -> (r: Option<String>)
    ensures
        match r {
            Some(p) => landing(path@) == Some(p@),
            None => landing(path@) is None,
        },
{
    let v = chars_of(path);
    if v.len() > 0 && v[0] == '/' {
        let c = split_components(path);
        let n: usize = c.len();
        assert(views(c@)[0] == seq!['/']);
        assert(views(c@).subrange(1, n as int) =~= views(c@).drop_first());
        return Some(join_components(&c, 1, n));
    }
    if unix_relative(path) {
        Some(ensure_unix_relative_path(path).to_owned())
    } else {
        None
    }
}

/// Where the module lands, in terms of the difference between the paths.
pub open spec fn module_landing(specifier: Seq<char>, entry_path: Seq<char>) -> Option<Seq<char>> {
    match path_difference(schemeless(specifier), entry_path) {
        Some(d) => landing(d),
        None => None,
    }
}

/// Whether a module has no place, and this error says why.
pub open spec fn misplaced(e: PlaceError, specifier: Seq<char>, entry_path: Seq<char>) -> bool {
    match e {
        PlaceError::NoRelativePath(s) => s@ == specifier && path_difference(
            schemeless(specifier),
            entry_path,
        ) is None,
        PlaceError::NotUnix(s) => s@ == specifier && path_difference(
            schemeless(specifier),
            entry_path,
        ) is Some && module_landing(specifier, entry_path) is None,
    }
}

/// Where a module lands relative to the extraction root, given the directory of the archive's
/// lowest file.
pub fn module_relative_path(specifier: &str, entry_path: &str) -> (r: Result<String, PlaceError>)
    ensures
        match r {
            Ok(p) => module_landing(specifier@, entry_path@) == Some(p@),
            Err(e) => misplaced(e, specifier@, entry_path@),
        },
        is_absolute(schemeless(specifier@)) == is_absolute(entry_path@) && lies_under(
            schemeless(specifier@),
            entry_path@,
        ) ==> path_difference(schemeless(specifier@), entry_path@) == Some(
            joined_all(
                components(schemeless(specifier@)).skip(components(entry_path@).len() as int),
            ),
        ),
{
    let cleaned = strip_file_scheme(specifier);
    match diff_paths(cleaned.as_str(), entry_path) {
        Some(d) => match land(d.as_str()) {
            Some(p) => Ok(p),
            None => Err(PlaceError::NotUnix(specifier.to_owned())),
        },
        None => Err(PlaceError::NoRelativePath(specifier.to_owned())),
    }
}

// ---------------------------------------------------------------------------
// Entries
// ---------------------------------------------------------------------------

/// What an entry holds.
#[derive(Debug, Clone, Copy, PartialEq, Eq, Structural)]
pub enum EszipEntryKind {
    /// A module of the bundled graph.
    Module,
    /// A `static:` asset.
    StaticAsset,
    /// A file of the virtual file system.
    VfsFile,
}

impl EszipEntryKind {
    pub open spec fn name(self) -> Seq<char> {
        match self {
            EszipEntryKind::Module => "module"@,
            EszipEntryKind::StaticAsset => "static"@,
            EszipEntryKind::VfsFile => "vfs"@,
        }
    }

    pub fn as_str(&self) -> (r: &'static str)
        ensures
            r@ == self.name(),
    {
        match self {
            EszipEntryKind::Module => "module",
            EszipEntryKind::StaticAsset => "static",
            EszipEntryKind::VfsFile => "vfs",
        }
    }
}

/// One extractable file of an archive.
#[derive(Debug)]
pub struct EszipEntry {
    pub specifier: String,
    /// Where the entry lands relative to the extraction root.
    pub relative_path: String,
    pub kind: EszipEntryKind,
    pub data: Vec<u8>,
}

/// An entry whose data have not been read.
#[derive(Debug)]
pub struct PendingEntry {
    pub specifier: String,
    pub relative_path: String,
    pub kind: EszipEntryKind,
}

/// An entry, taken by view.
pub struct PendingView {
    pub specifier: Seq<char>,
    pub relative_path: Seq<char>,
    pub kind: EszipEntryKind,
}

impl View for PendingEntry {
    type V = PendingView;

    open spec fn view(&self) -> PendingView {
        PendingView {
            specifier: self.specifier@,
            relative_path: self.relative_path@,
            kind: self.kind,
        }
    }
}

pub open spec fn pending_views(v: Seq<PendingEntry>) -> Seq<PendingView> {
    v.map_values(|e: PendingEntry| e@)
}

proof fn lemma_pending_push(v: Seq<PendingEntry>, e: PendingEntry)
    ensures
        pending_views(v.push(e)) == pending_views(v).push(e@),
{
    assert(pending_views(v.push(e)) =~= pending_views(v).push(e@));
}

/// An item of the virtual file system.
#[derive(Debug)]
pub enum VfsEntry {
    Dir { name: String, entries: Vec<VfsEntry> },
    File { name: String, key: String },
    Symlink { name: String },
}

/// The files of the virtual file system, with their paths, in depth-first order. A symbolic link
/// has no place in it: the name of the first one is the error.
pub open spec fn vfs_files(e: VfsEntry, base: Seq<char>) -> Result<Seq<PendingView>, Seq<char>>
    decreases e, 1nat, 0nat,
{
    match e {
        VfsEntry::Dir { name, entries } => vfs_list(e, entries@, joined(base, name@), entries@.len()),
        VfsEntry::File { name, key } => Ok(
            seq![
                PendingView {
                    specifier: key@,
                    relative_path: joined(base, name@),
                    kind: EszipEntryKind::VfsFile,
                },
            ],
        ),
        VfsEntry::Symlink { name } => Err(name@),
    }
}

/// The files of the first `n` items of a directory.
pub open spec fn vfs_list(dir: VfsEntry, entries: Seq<VfsEntry>, base: Seq<char>, n: nat) -> Result<
    Seq<PendingView>,
    Seq<char>,
>
    decreases dir, 0nat, n,
    when dir is Dir && dir->entries@ == entries && n <= entries.len()
{
    if n == 0 {
        Ok(Seq::empty())
    } else {
        match (
            vfs_list(dir, entries, base, (n - 1) as nat),
            vfs_files(entries[n - 1], base),
        ) {
            (Ok(a), Ok(b)) => Ok(a + b),
            (Err(e), _) => Err(e),
            (_, Err(e)) => Err(e),
        }
    }
}

/// Appends the files of the directory `dir`, whose path is `base`, to `out`. A symbolic link is an
/// error: the name of the first one.
pub fn collect_vfs_entries(dir: &VfsEntry, base: &str, out: &mut Vec<PendingEntry>) -> (r: Result<
    (),
    String,
>)
    requires
        *dir is Dir,
    ensures
        match vfs_list(*dir, dir->entries@, base@, dir->entries@.len()) {
            Ok(files) => r is Ok && pending_views(final(out)@) == pending_views(old(out)@)
                + files,
            Err(name) => r is Err && (r->Err_0)@ == name,
        },
    decreases *dir,
{
    match dir {
        VfsEntry::Dir { name: _, entries } => {
            let mut i: usize = 0;
            let ghost start = pending_views(out@);
            assert(start + Seq::<PendingView>::empty() =~= start);
            while i < entries.len()
                invariant
                    i <= entries@.len(),
                    *dir is Dir,
                    dir->entries == *entries,
                    start == pending_views(old(out)@),
                    vfs_list(*dir, entries@, base@, i as nat) is Ok,
                    pending_views(out@) == start + vfs_list(*dir, entries@, base@, i as nat)->Ok_0,
                decreases entries@.len() - i,
            {
                let ghost so_far = vfs_list(*dir, entries@, base@, i as nat)->Ok_0;
                assert(decreases_to!(*dir => entries@[i as int]));
                match &entries[i] {
                    VfsEntry::Dir { name, entries: inner } => {
                        let path = join_path(base, name.as_str());
                        match collect_vfs_entries(&entries[i], path.as_str(), out) {
                            Ok(()) => {},
                            Err(e) => {
                                proof {
                                    lemma_vfs_list_stops(*dir, entries@, base@, i + 1);
                                }
                                return Err(e);
                            },
                        }
                    },
                    VfsEntry::File { name, key } => {
                        let e = PendingEntry {
                            specifier: key.clone(),
                            relative_path: join_path(base, name.as_str()),
                            kind: EszipEntryKind::VfsFile,
                        };
                        proof {
                            lemma_pending_push(out@, e);
                        }
                        out.push(e);
                        assert(start + so_far + seq![e@] =~= (start + so_far).push(e@));
                    },
                    VfsEntry::Symlink { name } => {
                        proof {
                            lemma_vfs_list_stops(*dir, entries@, base@, i + 1);
                        }
                        return Err(name.clone());
                    },
                }
                proof {
                    let f = vfs_files(entries@[i as int], base@)->Ok_0;
                    assert(start + so_far + f =~= start + (so_far + f));
                }
                i = i + 1;
            }
            Ok(())
        },
        _ => Ok(()),
    }
}

/// Once a directory's list has failed, it stays failed.
proof fn lemma_vfs_list_stops(dir: VfsEntry, entries: Seq<VfsEntry>, base: Seq<char>, n: int)
    requires
        dir is Dir,
        dir->entries@ == entries,
        0 <= n <= entries.len(),
        vfs_list(dir, entries, base, n as nat) is Err,
    ensures
        vfs_list(dir, entries, base, entries.len()) == vfs_list(dir, entries, base, n as nat),
    decreases entries.len() - n,
{
    if n < entries.len() {
        assert(vfs_list(dir, entries, base, (n + 1) as nat) == vfs_list(dir, entries, base, n as nat));
        lemma_vfs_list_stops(dir, entries, base, n + 1);
    }
}

// ---------------------------------------------------------------------------
// Opening an archive
// ---------------------------------------------------------------------------

/// Why an archive cannot be unpacked.
#[derive(Debug)]
pub enum OpenError {
    /// It holds no file at all.
    NoFileModules,
    /// A static asset has a specifier that is no URL.
    InvalidStaticAsset(String),
    /// The lowest file lies in no directory.
    NoParent,
    Place(PlaceError),
    /// The virtual file system holds a symbolic link.
    Symlink(String),
    /// No module is recorded for an entry.
    MissingModule(String),
    /// The module of an entry has no source.
    MissingSource(String),
}

impl OpenError {
    pub open spec fn text(self) -> Seq<char> {
        match self {
            OpenError::NoFileModules => "the eszip contains no extractable file modules"@,
            OpenError::InvalidStaticAsset(s) => "invalid static asset specifier: "@ + s@,
            OpenError::NoParent => "the eszip's common root has no parent directory"@,
            OpenError::Place(PlaceError::NoRelativePath(s))
                => "failed to compute a relative path for "@ + s@,
            OpenError::Place(PlaceError::NotUnix(s)) => "not a relative Unix path: "@ + s@,
            OpenError::Symlink(s) => "found unexpected symlink: "@ + s@,
            OpenError::MissingModule(s) => "eszip is missing a module for "@ + s@,
            OpenError::MissingSource(s) => "eszip is missing the source for "@ + s@,
        }
    }

    pub fn message(&self) -> (r: String)
        ensures
            r@ == self.text(),
    {
        match self {
            OpenError::NoFileModules => {
                "the eszip contains no extractable file modules".to_owned()
            },
            OpenError::InvalidStaticAsset(s) => join(
                "invalid static asset specifier: ",
                s.as_str(),
            ),
            OpenError::NoParent => "the eszip's common root has no parent directory".to_owned(),
            OpenError::Place(PlaceError::NoRelativePath(s)) => join(
                "failed to compute a relative path for ",
                s.as_str(),
            ),
            OpenError::Place(PlaceError::NotUnix(s)) => join(
                "not a relative Unix path: ",
                s.as_str(),
            ),
            OpenError::Symlink(s) => join("found unexpected symlink: ", s.as_str()),
            OpenError::MissingModule(s) => join("eszip is missing a module for ", s.as_str()),
            OpenError::MissingSource(s) => join("eszip is missing the source for ", s.as_str()),
        }
    }
}

/// Whether a specifier is that of a static asset.
pub open spec fn is_static(s: Seq<char>) -> bool {
    "static:"@.is_prefix_of(s)
}

/// The `file:` specifier that a static asset is unpacked under.
pub open spec fn alias_of(asset: Seq<char>) -> Option<Seq<char>> {
    match url_parsed(asset) {
        Some(u) => Some("file://"@ + u.path),
        None => None,
    }
}

/// The aliases of the static assets among the first `n` specifiers.
pub open spec fn aliases(specifiers: Seq<Seq<char>>, n: int) -> Option<Seq<Seq<char>>>
    decreases n,
{
    if n <= 0 {
        Some(Seq::empty())
    } else {
        match aliases(specifiers, n - 1) {
            Some(a) => if is_static(specifiers[n - 1]) {
                match alias_of(specifiers[n - 1]) {
                    Some(x) => Some(a.push(x)),
                    None => None,
                }
            } else {
                Some(a)
            },
            None => None,
        }
    }
}

/// The first static asset whose specifier is no URL is at `i`.
pub open spec fn first_bad_asset(specifiers: Seq<Seq<char>>, i: int) -> bool {
    &&& 0 <= i < specifiers.len()
    &&& is_static(specifiers[i])
    &&& alias_of(specifiers[i]) is None
    &&& aliases(specifiers, i) is Some
}

/// The specifiers once the aliases are among them, each once.
pub open spec fn with_aliases(specifiers: Seq<Seq<char>>, names: Seq<Seq<char>>) -> Seq<Seq<char>>
    decreases names.len(),
{
    if names.len() == 0 {
        specifiers
    } else {
        let s = with_aliases(specifiers, names.drop_last());
        if s.contains(names.last()) {
            s
        } else {
            s.push(names.last())
        }
    }
}

/// The lowest of the given paths.
pub open spec fn lowest_path(paths: Seq<Seq<char>>) -> Seq<char> {
    paths[choose|k: int| is_lowest(paths, k)]
}

proof fn lemma_lowest_is_unique(paths: Seq<Seq<char>>, a: int)
    requires
        is_lowest(paths, a),
    ensures
        lowest_path(paths) == paths[a],
{
    let b = choose|k: int| is_lowest(paths, k);
    assert(is_lowest(paths, b));
    if a < b {
        assert(components(paths[b]).len() < components(paths[a]).len());
    } else if b < a {
        assert(components(paths[a]).len() < components(paths[b]).len());
    }
}

/// The entry that a specifier unpacks to, if it has a place.
pub open spec fn placed(s: Seq<char>, entry_path: Seq<char>, names: Seq<Seq<char>>) -> Option<
    PendingView,
> {
    match module_landing(s, entry_path) {
        Some(p) => Some(
            PendingView {
                specifier: s,
                relative_path: p,
                kind: if names.contains(s) {
                    EszipEntryKind::StaticAsset
                } else {
                    EszipEntryKind::Module
                },
            },
        ),
        None => None,
    }
}

/// The entries of the first `n` files.
pub open spec fn placed_all(
    files: Seq<Seq<char>>,
    entry_path: Seq<char>,
    names: Seq<Seq<char>>,
    n: int,
) -> Option<Seq<PendingView>>
    decreases n,
{
    if n <= 0 {
        Some(Seq::empty())
    } else {
        match (
            placed_all(files, entry_path, names, n - 1),
            placed(files[n - 1], entry_path, names),
        ) {
            (Some(a), Some(e)) => Some(a.push(e)),
            _ => None,
        }
    }
}

/// The first file that has no place is at `i`.
pub open spec fn first_unplaced(
    files: Seq<Seq<char>>,
    entry_path: Seq<char>,
    names: Seq<Seq<char>>,
    i: int,
) -> bool {
    &&& 0 <= i < files.len()
    &&& module_landing(files[i], entry_path) is None
    &&& placed_all(files, entry_path, names, i) is Some
}

/// The files among some specifiers.
pub open spec fn files_of(specifiers: Seq<Seq<char>>) -> Seq<Seq<char>> {
    specifiers.filter(|s: Seq<char>| is_file_specifier(s))
}

/// The directory that an archive is unpacked relative to.
pub open spec fn extraction_base(specifiers: Seq<Seq<char>>) -> Option<Seq<char>> {
    parent(schemeless(lowest_path(files_of(specifiers))))
}

/// The position of `name` among `names`.
fn text_position(names: &Vec<String>, name: &str) -> (r: bool)
    ensures
        r == views(names@).contains(name@),
{
    let mut i: usize = 0;
    while i < names.len()
        invariant
            i <= names@.len(),
            forall|j: int| 0 <= j < i ==> views(names@)[j] != name@,
        decreases names@.len() - i,
    {
        if same(names[i].as_str(), name) {
            assert(views(names@)[i as int] == name@);
            return true;
        }
        i = i + 1;
    }
    false
}

/// The `file:` specifier that the static asset `asset` is unpacked under, if it has one.
pub fn static_alias(asset: &str) -> (r: Option<String>)
    ensures
        match r {
            Some(a) => alias_of(asset@) == Some(a@),
            None => alias_of(asset@) is None,
        },
{
    match parse_url(asset) {
        Some(u) => Some(join("file://", u.path.as_str())),
        None => None,
    }
}

/// The aliases of the static assets among `specifiers`.
fn static_aliases(specifiers: &Vec<String>) -> (r: Result<Vec<String>, String>)
    ensures
        match r {
            Ok(a) => aliases(views(specifiers@), specifiers@.len() as int) == Some(views(a@)),
            Err(s) => aliases(views(specifiers@), specifiers@.len() as int) is None && exists|i: int|
                #[trigger] first_bad_asset(views(specifiers@), i) && s@ == views(specifiers@)[i],
        },
{
    let mut out: Vec<String> = Vec::new();
    let mut i: usize = 0;
    assert(views(out@) =~= Seq::<Seq<char>>::empty());
    while i < specifiers.len()
        invariant
            i <= specifiers@.len(),
            aliases(views(specifiers@), i as int) == Some(views(out@)),
        decreases specifiers@.len() - i,
    {
        let s = specifiers[i].as_str();
        assert(views(specifiers@)[i as int] == s@);
        if begins_with(s, "static:") {
            match static_alias(s) {
                Some(name) => {
                    proof {
                        crate::paths::lemma_views_push(out@, name);
                    }
                    out.push(name);
                },
                None => {
                    proof {
                        lemma_aliases_stop(views(specifiers@), i + 1);
                        assert(first_bad_asset(views(specifiers@), i as int));
                    }
                    return Err(s.to_owned());
                },
            }
        }
        i = i + 1;
    }
    Ok(out)
}

proof fn lemma_aliases_stop(specifiers: Seq<Seq<char>>, n: int)
    requires
        0 <= n <= specifiers.len(),
        aliases(specifiers, n) is None,
    ensures
        aliases(specifiers, specifiers.len() as int) is None,
    decreases specifiers.len() - n,
{
    if n < specifiers.len() {
        lemma_aliases_stop(specifiers, n + 1);
    }
}

proof fn lemma_placed_stop(
    files: Seq<Seq<char>>,
    entry_path: Seq<char>,
    names: Seq<Seq<char>>,
    n: int,
)
    requires
        0 <= n <= files.len(),
        placed_all(files, entry_path, names, n) is None,
    ensures
        placed_all(files, entry_path, names, files.len() as int) is None,
    decreases files.len() - n,
{
    if n < files.len() {
        lemma_placed_stop(files, entry_path, names, n + 1);
    }
}

/// `specifiers` with each of `names` in it once.
fn add_aliases(specifiers: &Vec<String>, names: &Vec<String>) -> (r: Vec<String>)
    ensures
        views(r@) == with_aliases(views(specifiers@), views(names@)),
{
    let mut out: Vec<String> = Vec::new();
    let mut i: usize = 0;
    while i < specifiers.len()
        invariant
            i <= specifiers@.len(),
            views(out@) =~= views(specifiers@).take(i as int),
        decreases specifiers@.len() - i,
    {
        let s = specifiers[i].clone();
        proof {
            crate::paths::lemma_views_push(out@, s);
        }
        out.push(s);
        assert(views(specifiers@).take(i + 1) =~= views(specifiers@).take(i as int).push(s@));
        i = i + 1;
    }
    assert(views(out@) =~= views(specifiers@));
    let mut k: usize = 0;
    assert(views(names@).take(0) =~= Seq::<Seq<char>>::empty());
    while k < names.len()
        invariant
            k <= names@.len(),
            views(out@) == with_aliases(views(specifiers@), views(names@).take(k as int)),
        decreases names@.len() - k,
    {
        let ghost t = views(names@).take(k + 1);
        assert(t.drop_last() =~= views(names@).take(k as int));
        assert(t.last() == names@[k as int]@);
        if !text_position(&out, names[k].as_str()) {
            let n = names[k].clone();
            proof {
                crate::paths::lemma_views_push(out@, n);
            }
            out.push(n);
        }
        k = k + 1;
    }
    assert(views(names@).take(k as int) =~= views(names@));
    out
}

/// The entries that an archive with these specifiers unpacks to, where it can be unpacked.
pub open spec fn planned(specs: Seq<Seq<char>>) -> Option<Seq<PendingView>> {
    match (aliases(specs, specs.len() as int), extraction_base(specs)) {
        (Some(names), Some(base)) => if files_of(specs).len() > 0 {
            let files = files_of(with_aliases(specs, names));
            placed_all(files, base, names, files.len() as int)
        } else {
            None
        },
        _ => None,
    }
}

/// Whether an archive with these specifiers cannot be unpacked, and this error says why: it holds
/// no file, its first bad asset, its lowest file lies in no directory, or its first file that has
/// no place.
pub open spec fn plan_refused(specs: Seq<Seq<char>>, e: OpenError) -> bool {
    let names = aliases(specs, specs.len() as int);
    let base = extraction_base(specs);
    let files = files_of(with_aliases(specs, names->0));
    match e {
        OpenError::NoFileModules => files_of(specs).len() == 0,
        OpenError::InvalidStaticAsset(s) => {
            &&& files_of(specs).len() > 0
            &&& names is None
            &&& exists|i: int| #[trigger] first_bad_asset(specs, i) && s@ == specs[i]
        },
        OpenError::NoParent => files_of(specs).len() > 0 && names is Some && base is None,
        OpenError::Place(p) => {
            &&& files_of(specs).len() > 0
            &&& names is Some
            &&& base is Some
            &&& exists|i: int|
                #![trigger first_unplaced(files, base->0, names->0, i)]
                first_unplaced(files, base->0, names->0, i) && misplaced(p, files[i], base->0)
        },
        _ => false,
    }
}

/// The entries that an archive with these specifiers unpacks to.
pub fn plan_entries(specifiers: &Vec<String>) -> (r: Result<Vec<PendingEntry>, OpenError>)
    ensures
        match r {
            Ok(p) => planned(views(specifiers@)) == Some(pending_views(p@)),
            Err(e) => planned(views(specifiers@)) is None && plan_refused(views(specifiers@), e),
        },
{
    let files = extract_file_specifiers(specifiers);
    let lowest = match find_lowest_path(&files) {
        Some(p) => p,
        None => {
            return Err(OpenError::NoFileModules);
        },
    };
    proof {
        let k = choose|k: int| #[trigger] is_lowest(views(files@), k) && lowest@ == files@[k]@;
        lemma_lowest_is_unique(views(files@), k);
    }
    let names = match static_aliases(specifiers) {
        Ok(a) => a,
        Err(s) => {
            return Err(OpenError::InvalidStaticAsset(s));
        },
    };
    let all = add_aliases(specifiers, &names);
    let main_path = strip_file_scheme(lowest.as_str());
    let entry_path = match parent_path(main_path.as_str()) {
        Some(p) => p,
        None => {
            return Err(OpenError::NoParent);
        },
    };
    let files = extract_file_specifiers(&all);
    let mut out: Vec<PendingEntry> = Vec::new();
    let mut i: usize = 0;
    assert(pending_views(out@) =~= Seq::<PendingView>::empty());
    let ghost fv = views(files@);
    while i < files.len()
        invariant
            i <= files@.len(),
            fv == views(files@),
            files_of(views(specifiers@)).len() > 0,
            aliases(views(specifiers@), specifiers@.len() as int) == Some(views(names@)),
            extraction_base(views(specifiers@)) == Some(entry_path@),
            fv == files_of(with_aliases(views(specifiers@), views(names@))),
            placed_all(fv, entry_path@, views(names@), i as int) == Some(pending_views(out@)),
        decreases files@.len() - i,
    {
        let s = files[i].as_str();
        assert(fv[i as int] == s@);
        match module_relative_path(s, entry_path.as_str()) {
            Ok(p) => {
                let kind = if text_position(&names, s) {
                    EszipEntryKind::StaticAsset
                } else {
                    EszipEntryKind::Module
                };
                let e = PendingEntry { specifier: s.to_owned(), relative_path: p, kind };
                proof {
                    lemma_pending_push(out@, e);
                }
                out.push(e);
            },
            Err(e) => {
                proof {
                    lemma_placed_stop(fv, entry_path@, views(names@), i + 1);
                    assert(first_unplaced(fv, entry_path@, views(names@), i as int));
                }
                return Err(OpenError::Place(e));
            },
        }
        i = i + 1;
    }
    Ok(out)
}

/// What the archive gives for a specifier.
pub enum ModuleData {
    Missing,
    NoSource,
    Source(Vec<u8>),
}

/// Gives out the entries of an archive one at a time.
pub struct EszipEntryReader {
    pub pending: VecDeque<PendingEntry>,
}

impl EszipEntryReader {
    /// Opens an archive: the files of its virtual file system where packages come from a
    /// `node_modules` directory that the user keeps, and otherwise its modules and assets.
    pub fn open(use_byonm: bool, vfs: Option<VfsEntry>, specifiers: &Vec<String>) -> (r: Result<
        EszipEntryReader,
        OpenError,
    >)
        requires
            vfs matches Some(d) ==> d is Dir,
        ensures
            use_byonm ==> match vfs {
                Some(d) => match vfs_list(d, d->entries@, Seq::empty(), d->entries@.len()) {
                    Ok(files) => r is Ok && pending_views((r->Ok_0).pending@) == files,
                    Err(name) => r matches Err(OpenError::Symlink(s)) && s@ == name,
                },
                None => r is Ok && (r->Ok_0).pending@.len() == 0,
            },
            !use_byonm ==> match r {
                Ok(reader) => planned(views(specifiers@)) == Some(pending_views(reader.pending@)),
                Err(e) => planned(views(specifiers@)) is None && plan_refused(
                    views(specifiers@),
                    e,
                ),
            },
    {
        if use_byonm {
            let mut out: Vec<PendingEntry> = Vec::new();
            match &vfs {
                Some(d) => {
                    assert(pending_views(out@) =~= Seq::<PendingView>::empty());
                    proof {
                        reveal_strlit("");
                        assert(""@ =~= Seq::<char>::empty());
                    }
                    match collect_vfs_entries(d, "", &mut out) {
                        Ok(()) => {},
                        Err(name) => {
                            return Err(OpenError::Symlink(name));
                        },
                    }
                    assert(Seq::<PendingView>::empty() + pending_views(out@) =~= pending_views(
                        out@,
                    ));
                },
                None => {},
            }
            let r = EszipEntryReader::new(out);
            assert(pending_views(r.pending@).len() == r.pending@.len());
            Ok(r)
        } else {
            match plan_entries(specifiers) {
                Ok(entries) => Ok(EszipEntryReader::new(entries)),
                Err(e) => Err(e),
            }
        }
    }

    /// A reader of the given entries.
    pub fn new(entries: Vec<PendingEntry>) -> (r: EszipEntryReader)
        ensures
            pending_views(r.pending@) == pending_views(entries@),
    {
        let mut pending: VecDeque<PendingEntry> = VecDeque::new();
        let mut entries = entries;
        let ghost all = entries@;
        while entries.len() > 0
            invariant
                entries@ + pending@ == all,
            decreases entries@.len(),
        {
            let ghost a = entries@;
            let ghost b = pending@;
            let e = entries.pop().unwrap();
            pending.push_front(e);
            assert(entries@ + pending@ =~= a + b);
        }
        assert(pending@ =~= all);
        EszipEntryReader { pending }
    }

    /// Number of entries not yet given out.
    pub fn remaining(&self) -> (r: usize)
        ensures
            r == self.pending@.len(),
    {
        self.pending.len()
    }

    /// The next entry, whose data are then to be looked up, or `None` once all have been given
    /// out.
    pub fn next_pending(&mut self) -> (r: Option<PendingEntry>)
        ensures
            match r {
                Some(e) => old(self).pending@.len() > 0 && e == old(self).pending@[0]
                    && final(self).pending@ == old(self).pending@.drop_first(),
                None => old(self).pending@.len() == 0 && final(self).pending@
                    == old(self).pending@,
            },
    {
        let r = self.pending.pop_front();
        match &r {
            Some(_) => {
                assert(self.pending@ =~= old(self).pending@.drop_first());
            },
            None => {},
        }
        r
    }

    /// Yields the next entry with its data, which `source` looks up by specifier, or `None` once
    /// all have been given out. An entry that fails is used up too.
    pub fn next_entry<F: Fn(&str) -> ModuleData>(&mut self, source: &F) -> (r: Result<
        Option<EszipEntry>,
        OpenError,
    >)
        requires
            forall|s: &str| source.requires((s,)),
        ensures
            old(self).pending@.len() == 0 ==> r == Ok::<Option<EszipEntry>, OpenError>(None)
                && final(self).pending@ == old(self).pending@,
            old(self).pending@.len() > 0 ==> {
                &&& final(self).pending@ == old(self).pending@.drop_first()
                &&& exists|s: &str, d: ModuleData, e: Result<EszipEntry, OpenError>|
                    {
                        &&& s@ == old(self).pending@[0].specifier@
                        &&& #[trigger] source.ensures((s,), d)
                        &&& #[trigger] completed(old(self).pending@[0], d, e)
                        &&& match e {
                            Ok(x) => r == Ok::<Option<EszipEntry>, OpenError>(Some(x)),
                            Err(x) => r == Err::<Option<EszipEntry>, OpenError>(x),
                        }
                    }
            },
    {
        match self.next_pending() {
            None => Ok(None),
            Some(pending) => {
                let data = source(pending.specifier.as_str());
                match complete_entry(pending, data) {
                    Ok(e) => Ok(Some(e)),
                    Err(e) => Err(e),
                }
            },
        }
    }
}

/// Whether `r` is what becomes of an entry for which the archive gives `data`.
pub open spec fn completed(
    pending: PendingEntry,
    data: ModuleData,
    r: Result<EszipEntry, OpenError>,
) -> bool {
    match data {
        ModuleData::Missing => r is Err && r->Err_0 is MissingModule && (
        r->Err_0->MissingModule_0)@ == pending.specifier@,
        ModuleData::NoSource => r is Err && r->Err_0 is MissingSource && (
        r->Err_0->MissingSource_0)@ == pending.specifier@,
        ModuleData::Source(d) => r == Ok::<EszipEntry, OpenError>(
            EszipEntry {
                specifier: pending.specifier,
                relative_path: pending.relative_path,
                kind: pending.kind,
                data: d,
            },
        ),
    }
}

/// An entry with its data, as the archive gives them.
pub fn complete_entry(pending: PendingEntry, data: ModuleData) -> (r: Result<EszipEntry, OpenError>)
    ensures
        completed(pending, data, r),
{
    match data {
        ModuleData::Missing => Err(OpenError::MissingModule(pending.specifier)),
        ModuleData::NoSource => Err(OpenError::MissingSource(pending.specifier)),
        ModuleData::Source(d) => Ok(
            EszipEntry {
                specifier: pending.specifier,
                relative_path: pending.relative_path,
                kind: pending.kind,
                data: d,
            },
        ),
    }
}

// ---------------------------------------------------------------------------
// Laws
// ---------------------------------------------------------------------------

/// Every file specifier, and nothing else, gets an entry, in the order of the specifiers.
pub proof fn law_every_file_is_unpacked(
    files: Seq<Seq<char>>,
    entry_path: Seq<char>,
    names: Seq<Seq<char>>,
    n: int,
)
    requires
        0 <= n <= files.len(),
        placed_all(files, entry_path, names, n) is Some,
    ensures
        (placed_all(files, entry_path, names, n)->0).len() == n,
        forall|i: int|
            0 <= i < n ==> (#[trigger] (placed_all(files, entry_path, names, n)->0)[i]).specifier
                == files[i],
    decreases n,
{
    if n > 0 {
        law_every_file_is_unpacked(files, entry_path, names, n - 1);
    }
}

/// The name of an item of the virtual file system.
pub open spec fn name_of(e: VfsEntry) -> Seq<char> {
    match e {
        VfsEntry::Dir { name, .. } => name@,
        VfsEntry::File { name, .. } => name@,
        VfsEntry::Symlink { name } => name@,
    }
}

/// The item that a way through a directory leads to, and the names on it: each number of the way is
/// the position of an item in the directory that has been reached.
pub open spec fn item_along(dir: VfsEntry, way: Seq<int>) -> Option<(Seq<Seq<char>>, VfsEntry)>
    decreases way.len(),
{
    match dir {
        VfsEntry::Dir { entries, .. } => if way.len() == 0 || !(0 <= way[0] < entries@.len()) {
            None
        } else if way.len() == 1 {
            Some((seq![name_of(entries@[way[0]])], entries@[way[0]]))
        } else {
            match item_along(entries@[way[0]], way.drop_first()) {
                Some((names, e)) => Some((seq![name_of(entries@[way[0]])] + names, e)),
                None => None,
            }
        },
        _ => None,
    }
}

/// The path that names lead to from a directory.
pub open spec fn path_along(base: Seq<char>, names: Seq<Seq<char>>) -> Seq<char>
    decreases names.len(),
{
    if names.len() == 0 {
        base
    } else {
        path_along(joined(base, names[0]), names.drop_first())
    }
}

proof fn lemma_path_along(base: Seq<char>, name: Seq<char>, rest: Seq<Seq<char>>)
    ensures
        path_along(base, seq![name] + rest) == path_along(joined(base, name), rest),
        path_along(base, seq![name]) == joined(base, name),
{
    assert((seq![name] + rest).drop_first() =~= rest);
    assert(seq![name].drop_first() =~= Seq::<Seq<char>>::empty());
    assert(path_along(joined(base, name), Seq::empty()) == joined(base, name));
    assert(path_along(base, seq![name]) == path_along(joined(base, name), seq![name].drop_first()));
}

proof fn lemma_list_holds_item(
    dir: VfsEntry,
    entries: Seq<VfsEntry>,
    base: Seq<char>,
    n: nat,
    i: int,
)
    requires
        dir is Dir,
        dir->entries@ == entries,
        0 <= i < n <= entries.len(),
        vfs_list(dir, entries, base, n) is Ok,
    ensures
        vfs_files(entries[i], base) is Ok,
        forall|k: int|
            0 <= k < (vfs_files(entries[i], base)->Ok_0).len() ==> (vfs_list(
                dir,
                entries,
                base,
                n,
            )->Ok_0).contains(#[trigger] (vfs_files(entries[i], base)->Ok_0)[k]),
    decreases n,
{
    let a = vfs_list(dir, entries, base, (n - 1) as nat);
    let b = vfs_files(entries[n - 1], base);
    let all = vfs_list(dir, entries, base, n)->Ok_0;
    assert(all == a->Ok_0 + b->Ok_0);
    if i == n - 1 {
        assert forall|k: int| 0 <= k < (b->Ok_0).len() implies all.contains(
            #[trigger] (b->Ok_0)[k],
        ) by {
            assert(all[(a->Ok_0).len() + k] == (b->Ok_0)[k]);
        }
    } else {
        lemma_list_holds_item(dir, entries, base, (n - 1) as nat, i);
        let f = vfs_files(entries[i], base)->Ok_0;
        assert forall|k: int| 0 <= k < f.len() implies all.contains(#[trigger] f[k]) by {
            assert((a->Ok_0).contains(f[k]));
            let j = (a->Ok_0).index_of(f[k]);
            assert(all[j] == f[k]);
        }
    }
}

/// Every file of the virtual file system is unpacked to the path of all the directories on the way to
/// it, one below the other, and its own name.
pub proof fn law_files_keep_their_directories(dir: VfsEntry, base: Seq<char>, way: Seq<int>)
    requires
        dir is Dir,
        vfs_list(dir, dir->entries@, base, dir->entries@.len()) is Ok,
        item_along(dir, way) is Some,
        (item_along(dir, way)->0).1 is File,
    ensures
        ({
            let files = vfs_list(dir, dir->entries@, base, dir->entries@.len())->Ok_0;
            let (names, file) = item_along(dir, way)->0;
            &&& files.contains(
                PendingView {
                    specifier: file->key@,
                    relative_path: path_along(base, names),
                    kind: EszipEntryKind::VfsFile,
                },
            )
            &&& (forall|i: int| 0 <= i < names.len() ==> is_plain_name(#[trigger] names[i]))
                ==> components(path_along(base, names)) == components(base) + names
        }),
    decreases way.len(),
{
    let entries = dir->entries@;
    let child = entries[way[0]];
    let (names, file) = item_along(dir, way)->0;
    let files = vfs_list(dir, entries, base, entries.len())->Ok_0;
    let entry = PendingView {
        specifier: file->key@,
        relative_path: path_along(base, names),
        kind: EszipEntryKind::VfsFile,
    };
    lemma_list_holds_item(dir, entries, base, entries.len(), way[0]);
    let inner = vfs_files(child, base)->Ok_0;
    if way.len() == 1 {
        lemma_path_along(base, name_of(child), Seq::empty());
        assert(inner[0] == entry);
    } else {
        let path = joined(base, name_of(child));
        let rest = (item_along(child, way.drop_first())->0).0;
        lemma_path_along(base, name_of(child), rest);
        law_files_keep_their_directories(child, path, way.drop_first());
        assert(inner.contains(entry));
        let k = inner.index_of(entry);
        assert(files.contains(inner[k]));
    }
    if forall|i: int| 0 <= i < names.len() ==> is_plain_name(#[trigger] names[i]) {
        lemma_components_along(base, names);
    }
}

proof fn lemma_components_along(base: Seq<char>, names: Seq<Seq<char>>)
    requires
        forall|i: int| 0 <= i < names.len() ==> is_plain_name(#[trigger] names[i]),
    ensures
        components(path_along(base, names)) == components(base) + names,
    decreases names.len(),
{
    if names.len() == 0 {
        assert(components(base) + names =~= components(base));
    } else {
        let rest = names.drop_first();
        assert forall|i: int| 0 <= i < rest.len() implies is_plain_name(#[trigger] rest[i]) by {
            assert(rest[i] == names[i + 1]);
        }
        lemma_components_along(joined(base, names[0]), rest);
        law_joining_adds_a_component(base, names[0]);
        assert(components(base).push(names[0]) + rest =~= components(base) + names);
    }
}

/// Nothing else is unpacked: each entry is a file that a way leads to.
pub proof fn law_entries_are_files(
    dir: VfsEntry,
    base: Seq<char>,
    n: nat,
    k: int,
) -> (way: Seq<int>)
    requires
        dir is Dir,
        n <= dir->entries@.len(),
        vfs_list(dir, dir->entries@, base, n) is Ok,
        0 <= k < (vfs_list(dir, dir->entries@, base, n)->Ok_0).len(),
    ensures
        item_along(dir, way) matches Some((names, file)) && file is File && (vfs_list(
            dir,
            dir->entries@,
            base,
            n,
        )->Ok_0)[k] == (PendingView {
            specifier: file->key@,
            relative_path: path_along(base, names),
            kind: EszipEntryKind::VfsFile,
        }),
    decreases dir, n,
{
    let entries = dir->entries@;
    let a = vfs_list(dir, entries, base, (n - 1) as nat)->Ok_0;
    let child = entries[n - 1];
    let b = vfs_files(child, base)->Ok_0;
    assert(decreases_to!(dir => child));
    if k < a.len() {
        law_entries_are_files(dir, base, (n - 1) as nat, k)
    } else if child is File {
        lemma_path_along(base, name_of(child), Seq::empty());
        seq![n - 1]
    } else {
        let path = joined(base, name_of(child));
        let rest = law_entries_are_files(child, path, child->entries@.len(), k - a.len());
        let way = seq![n - 1] + rest;
        assert(way.drop_first() =~= rest);
        assert(rest.len() > 0);
        lemma_path_along(base, name_of(child), (item_along(child, rest)->0).0);
        way
    }
}

/// The files come in the order of the directory: those of each item together, one item after the
/// other.
pub proof fn law_files_come_in_order(dir: VfsEntry, base: Seq<char>, n: nat)
    requires
        dir is Dir,
        n <= dir->entries@.len(),
        vfs_list(dir, dir->entries@, base, n) is Ok,
    ensures
        vfs_list(dir, dir->entries@, base, n)->Ok_0 == Seq::new(
            n,
            |i: int| vfs_files(dir->entries@[i], base)->Ok_0,
        ).flatten(),
    decreases n,
{
    let f = |i: int| vfs_files(dir->entries@[i], base)->Ok_0;
    if n == 0 {
        assert(Seq::new(n, f) =~= Seq::<Seq<PendingView>>::empty());
    } else {
        law_files_come_in_order(dir, base, (n - 1) as nat);
        assert(Seq::new(n, f) =~= Seq::new((n - 1) as nat, f).push(f(n - 1)));
        Seq::new((n - 1) as nat, f).lemma_flatten_push(f(n - 1));
    }
}

/// A symbolic link anywhere keeps the archive from being unpacked.
pub proof fn law_no_symlink_is_unpacked(dir: VfsEntry, base: Seq<char>, way: Seq<int>)
    requires
        dir is Dir,
        item_along(dir, way) is Some,
        (item_along(dir, way)->0).1 is Symlink,
    ensures
        vfs_list(dir, dir->entries@, base, dir->entries@.len()) is Err,
    decreases way.len(),
{
    let entries = dir->entries@;
    let child = entries[way[0]];
    if vfs_list(dir, entries, base, entries.len()) is Ok {
        lemma_list_holds_item(dir, entries, base, entries.len(), way[0]);
        if way.len() > 1 {
            law_no_symlink_is_unpacked(child, joined(base, name_of(child)), way.drop_first());
        }
    }
}

/// Where the virtual file system cannot be unpacked, a way leads to a symbolic link with the name
/// that the error gives.
pub proof fn law_errors_name_a_symlink(dir: VfsEntry, base: Seq<char>, n: nat) -> (way: Seq<int>)
    requires
        dir is Dir,
        n <= dir->entries@.len(),
        vfs_list(dir, dir->entries@, base, n) is Err,
    ensures
        item_along(dir, way) matches Some((names, link)) && link is Symlink && name_of(link)
            == vfs_list(dir, dir->entries@, base, n)->Err_0,
    decreases dir, n,
{
    let entries = dir->entries@;
    let child = entries[n - 1];
    assert(n > 0);
    assert(decreases_to!(dir => child));
    assert(vfs_list(dir, entries, base, (n - 1) as nat) is Err || vfs_files(child, base) is Err);
    if vfs_list(dir, entries, base, (n - 1) as nat) is Err {
        law_errors_name_a_symlink(dir, base, (n - 1) as nat)
    } else if child is Symlink {
        seq![n - 1]
    } else {
        let path = joined(base, name_of(child));
        let rest = law_errors_name_a_symlink(child, path, child->entries@.len());
        let way = seq![n - 1] + rest;
        assert(way.drop_first() =~= rest);
        assert(rest.len() > 0);
        way
    }
}

/// A specifier has a scheme exactly where a colon stands in front of every slash.
pub proof fn law_schemes_end_before_slashes(s: Seq<char>)
    ensures
        has_scheme(s) <==> exists|c: int|
            0 <= c < s.len() && #[trigger] s[c] == ':' && forall|j: int| 0 <= j < c ==> s[j] != '/',
{
    lemma_first_index(s, ':');
    lemma_first_index(s, '/');
    if has_scheme(s) {
        let c = first_index(s, ':')->0;
        assert(s[c] == ':');
        if first_index(s, '/') is None {
            assert forall|j: int| 0 <= j < c implies s[j] != '/' by {
                assert(s.contains(s[j]));
            }
        }
    }
    if exists|c: int|
        0 <= c < s.len() && #[trigger] s[c] == ':' && forall|j: int| 0 <= j < c ==> s[j] != '/' {
        let c = choose|c: int|
            0 <= c < s.len() && #[trigger] s[c] == ':' && forall|j: int| 0 <= j < c ==> s[j] != '/';
        assert(s.contains(s[c]));
    }
}

/// Whether no piece of a path that a slash closes is empty: it does not begin with a slash, and no
/// slash follows another.
pub open spec fn no_empty_step(s: Seq<char>) -> bool {
    &&& s.len() > 0 ==> s[0] != '/'
    &&& forall|i: int| 0 <= i < s.len() - 1 && #[trigger] s[i] == '/' ==> s[i + 1] != '/'
}

proof fn lemma_steps(s: Seq<char>)
    ensures
        pieces(s).len() > 0,
        (pieces(s).last().len() == 0) == (s.len() == 0 || s.last() == '/'),
        (forall|i: int| 0 <= i < pieces(s).len() - 1 ==> (#[trigger] pieces(s)[i]).len() > 0)
            <==> no_empty_step(s),
    decreases s.len(),
{
    if s.len() > 0 {
        let t = s.drop_last();
        lemma_steps(t);
        let a = pieces(t);
        let b = pieces(s);
        let before = forall|i: int| 0 <= i < a.len() - 1 ==> (#[trigger] a[i]).len() > 0;
        let now = forall|i: int| 0 <= i < b.len() - 1 ==> (#[trigger] b[i]).len() > 0;
        if s.last() == '/' {
            assert(b == a.push(Seq::empty()));
            if now {
                assert forall|i: int| 0 <= i < a.len() - 1 implies (#[trigger] a[i]).len() > 0 by {
                    assert(b[i] == a[i]);
                }
                assert(b[a.len() - 1].len() > 0);
            }
            if before && a.last().len() > 0 {
                assert forall|i: int| 0 <= i < b.len() - 1 implies (#[trigger] b[i]).len() > 0 by {
                    if i < a.len() - 1 {
                        assert(b[i] == a[i]);
                    }
                }
            }
            assert(now == (before && a.last().len() > 0));
        } else {
            assert(b == a.drop_last().push(a.last().push(s.last())));
            if now {
                assert forall|i: int| 0 <= i < a.len() - 1 implies (#[trigger] a[i]).len() > 0 by {
                    assert(b[i] == a[i]);
                }
            }
            if before {
                assert forall|i: int| 0 <= i < b.len() - 1 implies (#[trigger] b[i]).len() > 0 by {
                    assert(b[i] == a[i]);
                }
            }
            assert(now == before);
        }
        // The same for the slashes.
        if no_empty_step(s) {
            assert(no_empty_step(t)) by {
                assert forall|i: int| 0 <= i < t.len() - 1 && #[trigger] t[i] == '/' implies t[i + 1]
                    != '/' by {
                    assert(s[i] == '/');
                }
            }
            if t.len() > 0 {
                assert(s[t.len() - 1] == t.last());
            }
        }
        if no_empty_step(t) && (s.last() == '/' ==> t.len() > 0 && t.last() != '/') {
            assert forall|i: int| 0 <= i < s.len() - 1 && #[trigger] s[i] == '/' implies s[i + 1]
                != '/' by {
                assert(t[i] == '/');
            }
        }
    }
}

/// A specifier names a file of the archive exactly where it is a `file:` URL, or a relative path
/// without empty steps that has no scheme and does not begin with three hyphens.
pub proof fn law_file_specifiers(s: Seq<char>)
    ensures
        "file:"@.is_prefix_of(s) ==> is_file_specifier(s),
        !"file:"@.is_prefix_of(s) ==> (is_file_specifier(s) <==> {
            &&& !has_scheme(s)
            &&& !"---"@.is_prefix_of(s)
            &&& s.len() > 0
            &&& s[0] != '/'
            &&& s.last() != '/'
            &&& forall|i: int| 0 <= i < s.len() - 1 && #[trigger] s[i] == '/' ==> s[i + 1] != '/'
        }),
{
    lemma_steps(s);
    let p = pieces(s);
    if is_plain_path(s) {
        assert(p[p.len() - 1].len() > 0);
        assert forall|i: int| 0 <= i < p.len() - 1 implies (#[trigger] p[i]).len() > 0 by {}
        assert(no_empty_step(s));
    }
    if no_empty_step(s) && s.len() > 0 && s.last() != '/' {
        assert forall|i: int| 0 <= i < p.len() implies (#[trigger] p[i]).len() > 0 by {
            if i == p.len() - 1 {
                assert(p[i] == p.last());
            }
        }
    }
}

/// The scheme of a `file:` URL is taken off, and nothing of any other text.
pub proof fn law_file_scheme_is_taken_off(s: Seq<char>)
    ensures
        schemeless("file://"@ + s) == s,
        !"file://"@.is_prefix_of(s) ==> schemeless(s) == s,
{
    assert("file://"@.is_prefix_of("file://"@ + s)) by {
        assert("file://"@ =~= ("file://"@ + s).take("file://"@.len() as int));
    }
    assert(("file://"@ + s).skip("file://"@.len() as int) =~= s);
}

/// What lands at a place lands below the root: an absolute path under its own steps, and a relative
/// one as it is.
pub proof fn law_landing_is_relative(path: Seq<char>)
    ensures
        landing(path) matches Some(p) ==> components(p) == if path.len() > 0 && path[0] == '/' {
            components(path).drop_first()
        } else {
            components(path)
        },
        landing(path) is None <==> path.len() > 0 && path[0] == '\\',
{
    if is_absolute(path) {
        let c = components(path);
        lemma_components_are_a_list(path);
        assert(c[0] == seq!['/']);
        let rest = c.drop_first();
        assert(is_component_list(rest)) by {
            assert forall|i: int| 0 <= i < rest.len() implies is_plain_name(#[trigger] rest[i]) || (i
                == 0 && (rest[i] == seq!['/'] || rest[i] == seq!['.'])) by {
                assert(rest[i] == c[i + 1]);
            }
        }
        law_components_make_their_path(rest);
    }
}

proof fn lemma_alias_listed(specs: Seq<Seq<char>>, n: int, i: int)
    requires
        0 <= i < n <= specs.len(),
        aliases(specs, n) is Some,
        is_static(specs[i]),
    ensures
        alias_of(specs[i]) is Some,
        (aliases(specs, n)->0).contains(alias_of(specs[i])->0),
    decreases n,
{
    let all = aliases(specs, n)->0;
    let rest = aliases(specs, n - 1)->0;
    if i == n - 1 {
        assert(all[rest.len() as int] == alias_of(specs[i])->0);
    } else {
        lemma_alias_listed(specs, n - 1, i);
        let k = rest.index_of(alias_of(specs[i])->0);
        assert(all[k] == rest[k]);
    }
}

proof fn lemma_alias_from(specs: Seq<Seq<char>>, n: int, k: int) -> (i: int)
    requires
        0 <= n <= specs.len(),
        aliases(specs, n) is Some,
        0 <= k < (aliases(specs, n)->0).len(),
    ensures
        0 <= i < n,
        is_static(specs[i]),
        alias_of(specs[i]) == Some((aliases(specs, n)->0)[k]),
    decreases n,
{
    let rest = aliases(specs, n - 1)->0;
    if is_static(specs[n - 1]) && k == rest.len() {
        n - 1
    } else {
        lemma_alias_from(specs, n - 1, k)
    }
}

proof fn lemma_with_aliases(specs: Seq<Seq<char>>, names: Seq<Seq<char>>, x: Seq<char>)
    ensures
        with_aliases(specs, names).contains(x) <==> specs.contains(x) || names.contains(x),
    decreases names.len(),
{
    if names.len() > 0 {
        let front = names.drop_last();
        lemma_with_aliases(specs, front, x);
        let s = with_aliases(specs, front);
        let r = with_aliases(specs, names);
        if s.contains(x) {
            let k = s.index_of(x);
            assert(r[k] == x);
        }
        if r.contains(x) && !s.contains(x) {
            let k = r.index_of(x);
            if k < s.len() {
                assert(s[k] == x);
            }
        }
        if names.last() == x && !s.contains(x) {
            assert(r[s.len() as int] == x);
        }
        if front.contains(x) {
            let k = front.index_of(x);
            assert(names[k] == x);
        }
        if names.contains(x) && !front.contains(x) {
            let k = names.index_of(x);
            if k < front.len() {
                assert(front[k] == x);
            }
        }
        assert(names[names.len() - 1] == names.last());
    } else {
        assert(!names.contains(x));
    }
}

proof fn lemma_placed_at(
    files: Seq<Seq<char>>,
    entry_path: Seq<char>,
    names: Seq<Seq<char>>,
    n: int,
    k: int,
)
    requires
        0 <= k < n <= files.len(),
        placed_all(files, entry_path, names, n) is Some,
    ensures
        (placed_all(files, entry_path, names, n)->0).len() == n,
        placed(files[k], entry_path, names) == Some((placed_all(files, entry_path, names, n)->0)[k]),
    decreases n,
{
    law_every_file_is_unpacked(files, entry_path, names, n);
    law_every_file_is_unpacked(files, entry_path, names, n - 1);
    if k < n - 1 {
        lemma_placed_at(files, entry_path, names, n - 1, k);
    }
}

/// Whether `name` is what a static asset among the specifiers is unpacked as.
pub open spec fn is_asset_name(specs: Seq<Seq<char>>, name: Seq<char>) -> bool {
    exists|i: int|
        0 <= i < specs.len() && "static:"@.is_prefix_of(#[trigger] specs[i]) && (url_parsed(specs[i])
            matches Some(u) && name == "file://"@ + u.path)
}

/// An archive unpacks to all of its files and all of its static assets and to nothing else: each
/// under the path from the directory of the file with the fewest steps, the assets marked as such.
pub proof fn law_all_files_and_assets_are_unpacked(specs: Seq<Seq<char>>, name: Seq<char>)
    requires
        planned(specs) is Some,
    ensures
        ({
            let entries = planned(specs)->0;
            &&& (exists|k: int| 0 <= k < entries.len() && (#[trigger] entries[k]).specifier == name)
                <==> (specs.contains(name) && is_file_specifier(name)) || is_asset_name(specs, name)
            &&& forall|k: int|
                0 <= k < entries.len() ==> ((#[trigger] entries[k]).kind
                    == EszipEntryKind::StaticAsset <==> is_asset_name(specs, entries[k].specifier))
                    && entries[k].kind != EszipEntryKind::VfsFile
            &&& exists|low: Seq<char>, base: Seq<char>|
                {
                    &&& specs.contains(low) && is_file_specifier(low)
                    &&& forall|s: Seq<char>|
                        #![trigger specs.contains(s)]
                        specs.contains(s) && is_file_specifier(s) ==> components(low).len()
                            <= components(s).len()
                    &&& #[trigger] components(base) == #[trigger] components(
                        schemeless(low),
                    ).drop_last()
                    &&& forall|k: int|
                        0 <= k < entries.len() ==> path_difference(
                            schemeless((#[trigger] entries[k]).specifier),
                            base,
                        ) is Some && landing(
                            path_difference(schemeless(entries[k].specifier), base)->0,
                        ) == Some(entries[k].relative_path)
                }
        }),
{
    let n = specs.len() as int;
    let entries = planned(specs)->0;
    let names = aliases(specs, n)->0;
    let base = extraction_base(specs)->0;
    let pred = |s: Seq<char>| is_file_specifier(s);
    let all = with_aliases(specs, names);
    let files = files_of(all);
    law_every_file_is_unpacked(files, base, names, files.len() as int);
    assert forall|x: Seq<char>| names.contains(x) <==> #[trigger] is_asset_name(specs, x) by {
        if names.contains(x) {
            let k = names.index_of(x);
            let i = lemma_alias_from(specs, n, k);
            assert("static:"@.is_prefix_of(specs[i]));
        }
        if is_asset_name(specs, x) {
            let i = choose|i: int|
                0 <= i < specs.len() && "static:"@.is_prefix_of(#[trigger] specs[i]) && (url_parsed(
                    specs[i],
                ) matches Some(u) && x == "file://"@ + u.path);
            lemma_alias_listed(specs, n, i);
        }
    }
    // Which names there are.
    lemma_with_aliases(specs, names, name);
    if names.contains(name) {
        assert(is_asset_name(specs, name));
        assert(is_file_specifier(name)) by {
            reveal_strlit("file:");
            reveal_strlit("file://");
            let i = choose|i: int|
                0 <= i < specs.len() && "static:"@.is_prefix_of(#[trigger] specs[i]) && (url_parsed(
                    specs[i],
                ) matches Some(u) && name == "file://"@ + u.path);
            assert("file:"@ =~= name.take(5));
        }
    }
    if all.contains(name) && is_file_specifier(name) {
        let k = all.index_of(name);
        assert(pred(all[k]));
        all.lemma_filter_contains(pred, k);
        let j = files.index_of(name);
        assert(entries[j].specifier == name);
    }
    if exists|k: int| 0 <= k < entries.len() && (#[trigger] entries[k]).specifier == name {
        let k = choose|k: int| 0 <= k < entries.len() && (#[trigger] entries[k]).specifier == name;
        assert(files[k] == name);
        assert(files.contains(name));
        all.lemma_filter_contains_rev(pred, name);
        all.lemma_filter_pred(pred, k);
        if names.contains(name) {
            assert(is_asset_name(specs, name));
        }
    }
    assert forall|k: int| 0 <= k < entries.len() implies ((#[trigger] entries[k]).kind
        == EszipEntryKind::StaticAsset <==> is_asset_name(specs, entries[k].specifier))
        && entries[k].kind != EszipEntryKind::VfsFile by {
        lemma_placed_at(files, base, names, files.len() as int, k);
        assert(names.contains(entries[k].specifier) <==> is_asset_name(
            specs,
            entries[k].specifier,
        ));
    }
    // Where they land.
    let own = files_of(specs);
    lemma_some_lowest(own, own.len() as int);
    let m = choose|m: int| is_lowest(own, m);
    assert(is_lowest(own, m));
    let low = own[m];
    assert(own.contains(low));
    specs.lemma_filter_contains_rev(pred, low);
    specs.lemma_filter_pred(pred, m);
    law_parent_drops_the_last_component(schemeless(low));
    assert forall|s: Seq<char>|
        #![trigger specs.contains(s)]
        specs.contains(s) && is_file_specifier(s) implies components(low).len() <= components(
        s,
    ).len() by {
        let k = specs.index_of(s);
        assert(pred(specs[k]));
        specs.lemma_filter_contains(pred, k);
        let j = own.index_of(s);
        assert(components(own[m]).len() <= components(own[j]).len());
    }
    assert forall|k: int| 0 <= k < entries.len() implies path_difference(
        schemeless((#[trigger] entries[k]).specifier),
        base,
    ) is Some && landing(path_difference(schemeless(entries[k].specifier), base)->0) == Some(
        entries[k].relative_path,
    ) by {
        lemma_placed_at(files, base, names, files.len() as int, k);
    }
    assert(components(base) == components(schemeless(low)).drop_last());
}

proof fn lemma_some_lowest(paths: Seq<Seq<char>>, n: int) -> (k: int)
    requires
        0 < n <= paths.len(),
    ensures
        is_lowest(paths.take(n), k),
        n == paths.len() ==> is_lowest(paths, k),
    decreases n,
{
    let t = paths.take(n);
    assert(n == paths.len() ==> t =~= paths);
    if n == 1 {
        assert(is_lowest(t, 0));
        0
    } else {
        let k = lemma_some_lowest(paths, n - 1);
        let s = paths.take(n - 1);
        assert forall|i: int| 0 <= i < n - 1 implies s[i] == t[i] by {}
        if components(t[n - 1]).len() < components(t[k]).len() {
            assert forall|i: int| 0 <= i < n - 1 implies components(t[n - 1]).len() < components(
                #[trigger] t[i],
            ).len() by {
                assert(components(s[k]).len() <= components(s[i]).len());
            }
            assert(is_lowest(t, n - 1));
            n - 1
        } else {
            assert forall|i: int| 0 <= i < n implies components(t[k]).len() <= components(
                #[trigger] t[i],
            ).len() by {
                if i < n - 1 {
                    assert(components(s[k]).len() <= components(s[i]).len());
                }
            }
            assert forall|i: int| 0 <= i < k implies components(t[k]).len() < components(
                #[trigger] t[i],
            ).len() by {
                assert(components(s[k]).len() < components(s[i]).len());
            }
            assert(is_lowest(t, k));
            k
        }
    }
}


proof fn lemma_aliases_come_last(specs: Seq<Seq<char>>, names: Seq<Seq<char>>)
    ensures
        specs.len() <= with_aliases(specs, names).len(),
        with_aliases(specs, names) == specs + with_aliases(specs, names).skip(specs.len() as int),
        specs.no_duplicates() ==> with_aliases(specs, names).no_duplicates(),
    decreases names.len(),
{
    let all = with_aliases(specs, names);
    if names.len() > 0 {
        lemma_aliases_come_last(specs, names.drop_last());
        let front = with_aliases(specs, names.drop_last());
        assert forall|i: int| 0 <= i < specs.len() implies all[i] == specs[i] by {
            assert(front[i] == specs[i]);
        }
    }
    assert(all =~= specs + all.skip(specs.len() as int));
}

/// The files of an archive come out in the order in which they are listed, and behind them the
/// assets that are not among them.
pub proof fn law_entries_keep_their_order(specs: Seq<Seq<char>>, i: int)
    requires
        planned(specs) is Some,
    ensures
        ({
            let own = specs.filter(|s: Seq<char>| is_file_specifier(s));
            let entries = planned(specs)->0;
            &&& own.len() <= entries.len()
            &&& 0 <= i < own.len() ==> entries[i].specifier == own[i]
        }),
{
    let names = aliases(specs, specs.len() as int)->0;
    let base = extraction_base(specs)->0;
    let all = with_aliases(specs, names);
    let pred = |s: Seq<char>| is_file_specifier(s);
    lemma_aliases_come_last(specs, names);
    let rest = all.skip(specs.len() as int);
    Seq::filter_distributes_over_add(specs, rest, pred);
    assert(files_of(all) == specs.filter(pred) + rest.filter(pred));
    law_every_file_is_unpacked(files_of(all), base, names, files_of(all).len() as int);
}

/// An archive is refused for one of four things: it lists no file; a static asset of it is no URL;
/// its files lie in no directory; or a file has no place in it. An error names what it is about.
pub proof fn law_refused_archives(specs: Seq<Seq<char>>, e: OpenError)
    requires
        plan_refused(specs, e),
    ensures
        e is NoFileModules <==> forall|i: int|
            0 <= i < specs.len() ==> !is_file_specifier(#[trigger] specs[i]),
        e matches OpenError::InvalidStaticAsset(s) ==> specs.contains(s@)
            && "static:"@.is_prefix_of(s@) && url_parsed(s@) is None,
        e matches OpenError::Place(PlaceError::NoRelativePath(s)) ==> is_file_specifier(s@) && (
        specs.contains(s@) || is_asset_name(specs, s@)),
        e matches OpenError::Place(PlaceError::NotUnix(s)) ==> is_file_specifier(s@) && (
        specs.contains(s@) || is_asset_name(specs, s@)),
        !(e is Symlink) && !(e is MissingModule) && !(e is MissingSource),
{
    let pred = |s: Seq<char>| is_file_specifier(s);
    let own = files_of(specs);
    if own.len() > 0 {
        assert(own.contains(own[0]));
        specs.lemma_filter_contains_rev(pred, own[0]);
        specs.lemma_filter_pred(pred, 0);
        let k = specs.index_of(own[0]);
        assert(is_file_specifier(specs[k]));
    } else {
        assert forall|i: int| 0 <= i < specs.len() implies !is_file_specifier(
            #[trigger] specs[i],
        ) by {
            if is_file_specifier(specs[i]) {
                assert(pred(specs[i]));
                specs.lemma_filter_contains(pred, i);
                assert(own.len() > 0);
            }
        }
    }
    if let OpenError::Place(p) = e {
        let n = specs.len() as int;
        let names = aliases(specs, n)->0;
        let base = extraction_base(specs)->0;
        let all = with_aliases(specs, names);
        let files = files_of(all);
        let i = choose|i: int|
            #![trigger first_unplaced(files, base, names, i)]
            first_unplaced(files, base, names, i) && misplaced(p, files[i], base);
        let s = files[i];
        assert(files.contains(s));
        all.lemma_filter_contains_rev(pred, s);
        all.lemma_filter_pred(pred, i);
        lemma_with_aliases(specs, names, s);
        if names.contains(s) {
            let k = names.index_of(s);
            let j = lemma_alias_from(specs, n, k);
            assert("static:"@.is_prefix_of(specs[j]));
            assert(is_asset_name(specs, s));
        }
    }
}

/// An entry comes out as it was planned, with the bytes found for it; where nothing is found, the
/// error names what was looked for.
pub proof fn law_entries_come_out_as_planned(
    pending: PendingEntry,
    data: ModuleData,
    r: Result<EszipEntry, OpenError>,
)
    requires
        completed(pending, data, r),
    ensures
        r is Ok <==> data is Source,
        r matches Ok(e) ==> e.specifier@ == pending.specifier@ && e.relative_path@
            == pending.relative_path@ && e.kind == pending.kind && e.data@ == data->Source_0@,
        data is Missing ==> r->Err_0.text() == "eszip is missing a module for "@
            + pending.specifier@,
        data is NoSource ==> r->Err_0.text() == "eszip is missing the source for "@
            + pending.specifier@,
{
}

/// Kinds of entries are told apart by their names.
pub proof fn law_kinds_are_told_apart(a: EszipEntryKind, b: EszipEntryKind)
    ensures
        a.name() == b.name() ==> a == b,
        EszipEntryKind::Module.name() == "module"@,
        EszipEntryKind::StaticAsset.name() == "static"@,
        EszipEntryKind::VfsFile.name() == "vfs"@,
{
    reveal_strlit("module");
    reveal_strlit("static");
    reveal_strlit("vfs");
    assert(a.name()[0] == b.name()[0] || a.name() != b.name());
}

/// A module has no place where it cannot be reached from the base, and where the way there is no
/// relative path; the error is the first of these that holds.
pub proof fn law_misplaced_modules(e: PlaceError, specifier: Seq<char>, base: Seq<char>)
    requires
        misplaced(e, specifier, base),
    ensures
        module_landing(specifier, base) is None,
        e is NoRelativePath <==> path_difference(schemeless(specifier), base) is None,
        e is NotUnix ==> path_difference(schemeless(specifier), base) is Some && path_difference(
            schemeless(specifier),
            base,
        )->0.len() > 0 && path_difference(schemeless(specifier), base)->0[0] == '\\',
        e matches PlaceError::NoRelativePath(s) ==> s@ == specifier,
        e matches PlaceError::NotUnix(s) ==> s@ == specifier,
{
}


/// An archive that cannot be unpacked is complained of by the specifier or the name at fault.
pub proof fn law_open_errors_name_their_cause(e: OpenError)
    ensures
        e matches OpenError::InvalidStaticAsset(s) ==> e.text()
            == "invalid static asset specifier: "@ + s@,
        e matches OpenError::Place(PlaceError::NoRelativePath(s)) ==> e.text()
            == "failed to compute a relative path for "@ + s@,
        e matches OpenError::Place(PlaceError::NotUnix(s)) ==> e.text()
            == "not a relative Unix path: "@ + s@,
        e matches OpenError::Symlink(s) ==> e.text() == "found unexpected symlink: "@ + s@,
{
}


/// Of several static assets that are no URLs, it is the first that is complained of.
pub proof fn law_first_bad_asset_is_named(specs: Seq<Seq<char>>, e: OpenError)
    requires
        plan_refused(specs, e),
        e is InvalidStaticAsset,
    ensures
        exists|i: int|
            #![trigger specs[i]]
            0 <= i < specs.len() && specs[i] == e->InvalidStaticAsset_0@ && "static:"@.is_prefix_of(
                specs[i],
            ) && url_parsed(specs[i]) is None && forall|j: int|
                0 <= j < i && "static:"@.is_prefix_of(#[trigger] specs[j]) ==> url_parsed(specs[j])
                    is Some,
{
    let i = choose|i: int| #[trigger]
        first_bad_asset(specs, i) && e->InvalidStaticAsset_0@ == specs[i];
    assert forall|j: int|
        0 <= j < i && "static:"@.is_prefix_of(#[trigger] specs[j]) implies url_parsed(specs[j])
        is Some by {
        lemma_alias_listed(specs, i, j);
    }
    assert(specs[i] == e->InvalidStaticAsset_0@);
}

} // verus!
