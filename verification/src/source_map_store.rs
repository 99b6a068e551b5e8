//! The store of source maps, and the translation of locations in error messages.

use sourcemap::SourceMap;
use vstd::hash_map::StringHashMap;
use vstd::prelude::*;
use vstd::string::*;

use crate::module_loader::setup::loader_root;
use crate::paths::{joined, views};
use crate::text::{
    chars_of, decimal, decimal_text, join, law_numbers_are_digits, law_numbers_read_back,
    parse_unsigned, text_of, unsigned_number,
};

verus! {

/// The parsed source maps of the `sourcemap` crate.
#[verifier::external_type_specification]
#[verifier::external_body]
pub struct ExSourceMap(sourcemap::SourceMap);

/// What `sourcemap::SourceMap::from_slice` makes of the bytes of a source map, where it accepts
/// them.
pub uninterp spec fn source_map_of(bytes: Seq<u8>) -> Option<SourceMap>;

/// Calls `sourcemap::SourceMap::from_slice`. Which bytes it accepts, and the map that it makes of
/// them, depend on the bytes alone. The reason of a refusal is left out.
#[verifier::external_body]
fn parse_source_map(bytes: &[u8]) -> (r: Option<SourceMap>)
    ensures
        r == source_map_of(bytes@),
{
    SourceMap::from_slice(bytes).ok()
}

/// The source maps of loaded modules, by their specifiers.
pub struct SourceMapStore {
    pub maps: StringHashMap<SourceMap>,
}

/// The maps once the bytes of a module's source map have been stored.
pub open spec fn after_store(
    maps: Map<Seq<char>, SourceMap>,
    specifier: Seq<char>,
    bytes: Seq<u8>,
) -> Map<Seq<char>, SourceMap> {
    match source_map_of(bytes) {
        Some(m) => maps.insert(specifier, m),
        None => maps,
    }
}

impl SourceMapStore {
    /// The map of a module.
    pub open spec fn get(self, specifier: Seq<char>) -> Option<SourceMap> {
        if self.maps@.contains_key(specifier) {
            Some(self.maps@[specifier])
        } else {
            None
        }
    }

    pub fn new() -> (r: SourceMapStore)
        ensures
            r.maps@ == Map::<Seq<char>, SourceMap>::empty(),
    {
        SourceMapStore { maps: StringHashMap::new() }
    }

    /// Parses the source map of a module and keeps it, in place of an earlier one of that module.
    /// Where it does not parse, nothing changes.
    pub fn store_source_map(&mut self, specifier: &str, bytes: &[u8])
        ensures
            final(self).maps@ == after_store(old(self).maps@, specifier@, bytes@),
    {
        match parse_source_map(bytes) {
            Some(map) => {
                self.maps.insert(specifier.to_owned(), map);
            },
            None => {},
        }
    }

    /// The map of the module under `specifier`.
    pub fn find(&self, specifier: &str) -> (r: Option<&SourceMap>)
        ensures
            match r {
                Some(m) => self.get(specifier@) == Some(*m),
                None => self.get(specifier@) is None,
            },
    {
        self.maps.get(specifier)
    }
}

/// Forgets all source maps.
pub fn clear_source_maps(store: &mut SourceMapStore)
    ensures
        final(store).maps@ == Map::<Seq<char>, SourceMap>::empty(),
{
    store.maps.clear();
}

/// What a source map says of a position: the source file, where it has a name, and the zero-based
/// position in it.
#[derive(Debug)]
pub struct MapToken {
    pub source: Option<String>,
    pub line: u32,
    pub column: u32,
}

/// A number one less than the given one, and zero for zero.
pub open spec fn zero_based(n: u32) -> u32 {
    if n == 0 {
        0
    } else {
        (n - 1) as u32
    }
}

/// The one-based location that a map's answer stands for. There is none where the source has no
/// name, and none past the largest number.
pub open spec fn located(token: Option<MapToken>) -> Option<(Seq<char>, u32, u32)> {
    match token {
        Some(t) => match t.source {
            Some(s) => if t.line < u32::MAX && t.column < u32::MAX {
                Some((s@, (t.line + 1) as u32, (t.column + 1) as u32))
            } else {
                None
            },
            None => None,
        },
        None => None,
    }
}

/// The one-based location that a map's answer stands for.
pub fn location_of(token: Option<MapToken>) -> (r: Option<(String, u32, u32)>)
    ensures
        match r {
            Some((s, l, c)) => located(token) == Some((s@, l, c)),
            None => located(token) is None,
        },
{
    match token {
        Some(t) => match t.source {
            Some(s) => {
                if t.line < u32::MAX && t.column < u32::MAX {
                    Some((s, t.line + 1, t.column + 1))
                } else {
                    None
                }
            },
            None => None,
        },
        None => None,
    }
}

/// Where in its source a one-based location of the module under `specifier` comes from. `lookup`
/// is asked for the zero-based position in the module's map.
pub fn translate_location<F: Fn(&SourceMap, u32, u32) -> Option<MapToken>>(
    store: &SourceMapStore,
    specifier: &str,
    line: u32,
    column: u32,
    lookup: &F,
) -> (r: Option<(String, u32, u32)>)
    requires
        forall|m: &SourceMap, l: u32, c: u32| lookup.requires((m, l, c)),
    ensures
        match store.get(specifier@) {
            Some(m) => exists|t: Option<MapToken>|
                {
                    &&& #[trigger] lookup.ensures((&m, zero_based(line), zero_based(column)), t)
                    &&& match r {
                        Some((s, l, c)) => located(t) == Some((s@, l, c)),
                        None => located(t) is None,
                    }
                },
            None => r is None,
        },
{
    match store.find(specifier) {
        Some(m) => {
            let l: u32 = line.saturating_sub(1);
            let c: u32 = column.saturating_sub(1);
            let t = lookup(m, l, c);
            assert(lookup.ensures((m, zero_based(line), zero_based(column)), t));
            location_of(t)
        },
        None => None,
    }
}

// ---------------------------------------------------------------------------
// Error messages
// ---------------------------------------------------------------------------

/// The groups of several matches, taken by view.
pub open spec fn group_views(v: Seq<Vec<String>>) -> Seq<Seq<Seq<char>>> {
    v.map_values(|g: Vec<String>| views(g@))
}

/// The pieces of a text with a text in each gap between them: the first `n` gaps.
pub open spec fn woven(pieces: Seq<Seq<char>>, gaps: Seq<Seq<char>>, n: int) -> Seq<char>
    decreases n,
{
    if n <= 0 {
        pieces[0]
    } else {
        woven(pieces, gaps, n - 1) + gaps[n - 1] + pieces[n]
    }
}

/// What matches match: the first of their groups.
pub open spec fn wholes(found: Seq<Seq<Seq<char>>>) -> Seq<Seq<char>> {
    found.map_values(|g: Seq<Seq<char>>| g[0])
}

/// A location in an error message: a `file:` URL, a line and a column.
pub open spec fn location_pattern() -> Seq<char> {
    "(file://[^:]+):(\\d+):(\\d+)"@
}

/// Whether a match has the three groups of a location behind the whole, with colons between them.
pub open spec fn is_location(g: Seq<Seq<char>>) -> bool {
    g.len() == 4 && g[0] == g[1] + ":"@ + g[2] + ":"@ + g[3]
}

/// What lies between the matches of a regular expression in a text, if it is one.
pub uninterp spec fn regex_pieces(pattern: Seq<char>, text: Seq<char>) -> Option<Seq<Seq<char>>>;

/// `regex::Regex::split` gives what lies before, between and after the matches of a pattern in a
/// text, which depends on the two texts alone.
#[verifier::external_body]
pub(crate) fn regex_split(pattern: &str, text: &str) -> (r: Option<Vec<String>>)
    ensures
        match r {
            Some(p) => regex_pieces(pattern@, text@) == Some(views(p@)),
            None => regex_pieces(pattern@, text@) is None,
        },
{
    let re = regex::Regex::new(pattern).ok()?;
    Some(re.split(text).map(|p| p.to_string()).collect())
}

/// The matches of a regular expression in a text, if it is one: of each the whole and its groups.
pub uninterp spec fn regex_groups(pattern: Seq<char>, text: Seq<char>) -> Option<
    Seq<Seq<Seq<char>>>,
>;

/// `regex::Regex::captures_iter` finds the successive matches of a pattern in a text, which do not
/// overlap, and depends on the two texts alone. A group that took no part in a match is empty. The
/// matches fill the gaps between the pieces that `Regex::split` gives. The pattern of a location
/// compiles, and its matches consist of its three groups and the colons between them.
#[verifier::external_body]
pub(crate) fn regex_find(pattern: &str, text: &str) -> (r: Option<Vec<Vec<String>>>)
    ensures
        match r {
            Some(g) => {
                &&& regex_groups(pattern@, text@) == Some(group_views(g@))
                &&& regex_pieces(pattern@, text@) matches Some(p) && p.len() == g@.len() + 1
                    && text@ == woven(p, wholes(group_views(g@)), g@.len() as int)
            },
            None => regex_groups(pattern@, text@) is None,
        },
        pattern@ == location_pattern() ==> r is Some && forall|i: int|
            0 <= i < (r->0)@.len() ==> is_location(#[trigger] group_views((r->0)@)[i]),
{
    let re = regex::Regex::new(pattern).ok()?;
    let text_of = |g: Option<regex::Match<'_>>| g.map_or(String::new(), |m| m.as_str().to_string());
    Some(re.captures_iter(text).map(|c| c.iter().map(text_of).collect()).collect())
}

/// The number that a group of digits writes, and zero where it is too large or not ASCII.
pub open spec fn number_or_zero(s: Seq<char>) -> u32 {
    match unsigned_number(s, u32::MAX as int) {
        Some(n) => n as u32,
        None => 0,
    }
}

fn parse_or_zero(s: &str) -> (r: u32)
    ensures
        r == number_or_zero(s@),
{
    match parse_unsigned(s, u32::MAX as u64) {
        Some(n) => n as u32,
        None => 0,
    }
}

/// A location as it is written.
pub open spec fn location_text(file: Seq<char>, line: u32, column: u32) -> Seq<char> {
    file + ":"@ + decimal_text(line as nat) + ":"@ + decimal_text(column as nat)
}

fn write_location(file: &str, line: u32, column: u32) -> (r: String)
    ensures
        r@ == location_text(file@, line, column),
{
    let a = join(file, ":");
    let b = join(a.as_str(), decimal(line as u64).as_str());
    let c = join(b.as_str(), ":");
    join(c.as_str(), decimal(column as u64).as_str())
}

/// What stands in the place of a location: the one it was translated to, or the same one written
/// anew.
pub open spec fn replaced(g: Seq<Seq<char>>, to: Option<(Seq<char>, u32, u32)>) -> Seq<char> {
    match to {
        Some((file, line, column)) => location_text(file, line, column),
        None => location_text(g[1], number_or_zero(g[2]), number_or_zero(g[3])),
    }
}

/// What stands in the places of several locations.
pub open spec fn all_replaced(
    found: Seq<Seq<Seq<char>>>,
    to: Seq<Option<(Seq<char>, u32, u32)>>,
) -> Seq<Seq<char>> {
    Seq::new(to.len(), |i: int| replaced(found[i], to[i]))
}

/// Whether `to` is a translation of the location in a match: what the module's map gives, and none
/// where it has no map.
pub open spec fn translates<F: Fn(&SourceMap, u32, u32) -> Option<MapToken>>(
    store: SourceMapStore,
    lookup: F,
    g: Seq<Seq<char>>,
    to: Option<(Seq<char>, u32, u32)>,
) -> bool {
    match store.get(g[1]) {
        Some(m) => exists|t: Option<MapToken>|
            {
                &&& #[trigger] lookup.ensures(
                    (&m, zero_based(number_or_zero(g[2])), zero_based(number_or_zero(g[3]))),
                    t,
                )
                &&& to == located(t)
            },
        None => to is None,
    }
}

/// Whether a message consists of the given pieces and, in the gaps between them, of what the
/// locations that were found there are translated to.
pub open spec fn is_translation<F: Fn(&SourceMap, u32, u32) -> Option<MapToken>>(
    store: SourceMapStore,
    lookup: F,
    pieces: Seq<Seq<char>>,
    found: Seq<Seq<Seq<char>>>,
    to: Seq<Option<(Seq<char>, u32, u32)>>,
    message: Seq<char>,
) -> bool {
    &&& to.len() == found.len()
    &&& forall|i: int| 0 <= i < to.len() ==> translates(store, lookup, found[i], #[trigger] to[i])
    &&& message == woven(pieces, all_replaced(found, to), to.len() as int)
}

/// A location, taken by view.
pub open spec fn location_view(t: Option<(String, u32, u32)>) -> Option<(Seq<char>, u32, u32)> {
    match t {
        Some((s, l, c)) => Some((s@, l, c)),
        None => None,
    }
}

/// Rewrites the locations that were found between the pieces of a message: each becomes the one
/// that it is translated to.
pub fn rewrite_locations<F: Fn(&SourceMap, u32, u32) -> Option<MapToken>>(
    pieces: &Vec<String>,
    found: &Vec<Vec<String>>,
    store: &SourceMapStore,
    lookup: &F,
) -> (r: String)
    requires
        pieces@.len() == found@.len() + 1,
        forall|m: &SourceMap, l: u32, c: u32| lookup.requires((m, l, c)),
        forall|i: int| 0 <= i < found@.len() ==> is_location(#[trigger] group_views(found@)[i]),
    ensures
        exists|to: Seq<Option<(Seq<char>, u32, u32)>>| #[trigger]
            is_translation(*store, *lookup, views(pieces@), group_views(found@), to, r@),
{
    let ghost mut to: Seq<Option<(Seq<char>, u32, u32)>> = Seq::empty();
    let ghost ps = views(pieces@);
    let ghost gs = group_views(found@);
    let mut out: String = pieces[0].clone();
    let mut i: usize = 0;
    while i < found.len()
        invariant
            i <= found@.len(),
            pieces@.len() == found@.len() + 1,
            ps == views(pieces@),
            gs == group_views(found@),
                forall|m: &SourceMap, l: u32, c: u32| lookup.requires((m, l, c)),
            forall|j: int| 0 <= j < found@.len() ==> is_location(#[trigger] gs[j]),
            to.len() == i,
            forall|j: int|
                0 <= j < to.len() ==> translates(*store, *lookup, gs[j], #[trigger] to[j]),
            out@ == woven(ps, all_replaced(gs, to), i as int),
        decreases found@.len() - i,
    {
        let g = &found[i];
        let ghost gv = gs[i as int];
        assert(gv == views(g@));
        assert(is_location(gv));
        assert(gv[1] == g@[1]@);
        assert(gv[2] == g@[2]@);
        assert(gv[3] == g@[3]@);
        let line: u32 = parse_or_zero(g[2].as_str());
        let column: u32 = parse_or_zero(g[3].as_str());
        let t = translate_location(store, g[1].as_str(), line, column, lookup);
        let ghost tv = location_view(t);
        let ghost old_to = to;
        proof {
            assert(translates(*store, *lookup, gv, tv));
            to = to.push(tv);
            assert forall|j: int| 0 <= j < i implies all_replaced(gs, old_to)[j]
                == #[trigger] all_replaced(gs, to)[j] by {}
            lemma_woven_prefix(ps, all_replaced(gs, old_to), all_replaced(gs, to), i as int);
        }
        let text = match t {
            Some((file, l, k)) => write_location(file.as_str(), l, k),
            None => write_location(g[1].as_str(), line, column),
        };
        assert(text@ == all_replaced(gs, to)[i as int]);
        out = join(out.as_str(), text.as_str());
        out = join(out.as_str(), pieces[i + 1].as_str());
        assert(ps[i + 1] == pieces@[i + 1]@);
        i = i + 1;
    }
    assert(is_translation(*store, *lookup, ps, gs, to, out@));
    out
}

proof fn lemma_woven_prefix(
    pieces: Seq<Seq<char>>,
    a: Seq<Seq<char>>,
    b: Seq<Seq<char>>,
    n: int,
)
    requires
        forall|j: int| 0 <= j < n ==> a[j] == #[trigger] b[j],
    ensures
        woven(pieces, a, n) == woven(pieces, b, n),
    decreases n,
{
    if n > 0 {
        lemma_woven_prefix(pieces, a, b, n - 1);
        assert(a[n - 1] == b[n - 1]);
    }
}

/// Translates the locations in an error message.
pub fn translate_error_locations<F: Fn(&SourceMap, u32, u32) -> Option<MapToken>>(
    message: &str,
    store: &SourceMapStore,
    lookup: &F,
) -> (r: String)
    requires
        forall|m: &SourceMap, l: u32, c: u32| lookup.requires((m, l, c)),
    ensures
        exists|to: Seq<Option<(Seq<char>, u32, u32)>>| #[trigger]
            is_translation(
                *store,
                *lookup,
                regex_pieces(location_pattern(), message@)->0,
                regex_groups(location_pattern(), message@)->0,
                to,
                r@,
            ),
{
    let found = regex_find("(file://[^:]+):(\\d+):(\\d+)", message);
    let pieces = regex_split("(file://[^:]+):(\\d+):(\\d+)", message);
    match (pieces, found) {
        (Some(p), Some(g)) => {
            let r = rewrite_locations(&p, &g, store, lookup);
            proof {
                let to = choose|to: Seq<Option<(Seq<char>, u32, u32)>>| #[trigger]
                    is_translation(*store, *lookup, views(p@), group_views(g@), to, r@);
                assert(is_translation(
                    *store,
                    *lookup,
                    regex_pieces(location_pattern(), message@)->0,
                    regex_groups(location_pattern(), message@)->0,
                    to,
                    r@,
                ));
            }
            r
        },
        _ => {
            assert(false);
            message.to_owned()
        },
    }
}

/// Whether the numbers of a location are written as they are written anew: without leading zeros,
/// and not too large.
pub open spec fn is_canonical(g: Seq<Seq<char>>) -> bool {
    g[2] == decimal_text(number_or_zero(g[2]) as nat) && g[3] == decimal_text(
        number_or_zero(g[3]) as nat,
    )
}

/// A message in which no location is translated stays as it is, as far as its numbers are written
/// without leading zeros; what lies between locations always does.
pub proof fn law_untranslated_locations_are_kept(
    pieces: Seq<Seq<char>>,
    found: Seq<Seq<Seq<char>>>,
    to: Seq<Option<(Seq<char>, u32, u32)>>,
    n: int,
)
    requires
        0 <= n <= found.len(),
        to.len() == found.len(),
        forall|i: int| 0 <= i < found.len() ==> is_location(#[trigger] found[i]),
        forall|i: int| 0 <= i < found.len() ==> is_canonical(#[trigger] found[i]),
        forall|i: int| 0 <= i < to.len() ==> (#[trigger] to[i]) is None,
    ensures
        woven(pieces, all_replaced(found, to), n) == woven(pieces, wholes(found), n),
{
    assert forall|j: int| 0 <= j < n implies all_replaced(found, to)[j]
        == #[trigger] wholes(found)[j] by {
        assert(to[j] is None);
        assert(is_location(found[j]) && is_canonical(found[j]));
    }
    lemma_woven_prefix(pieces, all_replaced(found, to), wholes(found), n);
}

/// The maps once the bytes of source maps have been stored, each under its specifier.
pub open spec fn after_stores(
    maps: Map<Seq<char>, SourceMap>,
    stores: Seq<(Seq<char>, Seq<u8>)>,
) -> Map<Seq<char>, SourceMap>
    decreases stores.len(),
{
    if stores.len() == 0 {
        maps
    } else {
        after_store(
            after_stores(maps, stores.drop_last()),
            stores.last().0,
            stores.last().1,
        )
    }
}

/// A module's latest map is the one that is used: bytes that do not parse, and those of other
/// modules, leave it as it is.
pub proof fn law_latest_map_wins(
    maps: Map<Seq<char>, SourceMap>,
    stores: Seq<(Seq<char>, Seq<u8>)>,
    i: int,
)
    requires
        0 <= i < stores.len(),
        source_map_of(stores[i].1) is Some,
        forall|j: int|
            i < j < stores.len() && (#[trigger] stores[j]).0 == stores[i].0 ==> source_map_of(
                stores[j].1,
            ) is None,
    ensures
        after_stores(maps, stores).dom().contains(stores[i].0),
        Some(after_stores(maps, stores)[stores[i].0]) == source_map_of(stores[i].1),
    decreases stores.len(),
{
    if i < stores.len() - 1 {
        let earlier = stores.drop_last();
        assert forall|j: int|
            i < j < earlier.len() && (#[trigger] earlier[j]).0 == earlier[i].0 implies source_map_of(
            earlier[j].1,
        ) is None by {
            assert(earlier[j] == stores[j]);
        }
        law_latest_map_wins(maps, earlier, i);
        assert(stores[stores.len() - 1] == stores.last());
    }
}

// ---------------------------------------------------------------------------
// Paths of the archive
// ---------------------------------------------------------------------------

/// The text with every occurrence of `needle`, from the left and without overlap, replaced.
pub open spec fn replace_all(text: Seq<char>, needle: Seq<char>, by: Seq<char>) -> Seq<char>
    decreases text.len(),
{
    if needle.len() == 0 || text.len() == 0 {
        text
    } else if needle.is_prefix_of(text) {
        by + replace_all(text.skip(needle.len() as int), needle, by)
    } else {
        seq![text[0]] + replace_all(text.drop_first(), needle, by)
    }
}

/// A text with the matches of a regular expression replaced.
pub uninterp spec fn regex_replaced(
    pattern: Seq<char>,
    text: Seq<char>,
    by: Seq<char>,
) -> Option<Seq<char>>;

/// `regex::Regex::replace_all` replaces the matches of a pattern in a text, which depends on the
/// three texts alone. A short pattern of letters, slashes, colons and hyphens matches itself, and a
/// replacement without a dollar sign stands for itself.
#[verifier::external_body]
pub(crate) fn regex_replace(pattern: &str, text: &str, by: &str) -> (r: Option<String>)
    ensures
        match r {
            Some(s) => regex_replaced(pattern@, text@, by@) == Some(s@),
            None => regex_replaced(pattern@, text@, by@) is None,
        },
        is_plain_pattern(pattern@) && !by@.contains('$') ==> r is Some && (r->0)@ == replace_all(
            text@,
            pattern@,
            by@,
        ),
{
    let re = regex::Regex::new(pattern).ok()?;
    Some(re.replace_all(text, by).to_string())
}

/// A pattern in which every character stands for itself, and which is short enough to compile.
pub open spec fn is_plain_pattern(s: Seq<char>) -> bool {
    0 < s.len() <= 64 && forall|i: int|
        0 <= i < s.len() ==> ('a' <= #[trigger] s[i] && s[i] <= 'z') || s[i] == '/' || s[i] == ':'
            || s[i] == '-'
}

/// The directory that the files of an archive seem to lie in.
pub open spec fn archive_url() -> Seq<char> {
    "file:///var/tmp/sb-compile-trex/"@
}

/// A text without slashes at its start.
pub open spec fn trimmed_start(s: Seq<char>) -> Seq<char>
    decreases s.len(),
{
    if s.len() > 0 && s[0] == '/' {
        trimmed_start(s.drop_first())
    } else {
        s
    }
}

/// A text without slashes at its end.
pub open spec fn trimmed_end(s: Seq<char>) -> Seq<char>
    decreases s.len(),
{
    if s.len() > 0 && s.last() == '/' {
        trimmed_end(s.drop_last())
    } else {
        s
    }
}

/// A text without slashes at either end.
pub open spec fn trimmed(s: Seq<char>) -> Seq<char> {
    trimmed_end(trimmed_start(s))
}

/// The URL of the working directory.
pub open spec fn directory_url(cwd: Seq<char>) -> Seq<char> {
    "file:///"@ + trimmed(cwd) + "/"@
}

fn trim_slashes(s: &str) -> (r: String)
    ensures
        r@ == trimmed(s@),
{
    let v = chars_of(s);
    let n: usize = v.len();
    let mut a: usize = 0;
    assert(v@.subrange(0, n as int) =~= v@);
    while a < n && v[a] == '/'
        invariant
            a <= n,
            n == v@.len(),
            trimmed_start(v@) == trimmed_start(v@.subrange(a as int, n as int)),
        decreases n - a,
    {
        assert(v@.subrange(a as int, n as int).drop_first() =~= v@.subrange(a + 1, n as int));
        a = a + 1;
    }
    assert(trimmed_start(v@) == v@.subrange(a as int, n as int));
    let mut b: usize = n;
    while a < b && v[b - 1] == '/'
        invariant
            a <= b <= n,
            n == v@.len(),
            trimmed(v@) == trimmed_end(v@.subrange(a as int, b as int)),
        decreases b - a,
    {
        assert(v@.subrange(a as int, b as int).drop_last() =~= v@.subrange(a as int, b - 1));
        b = b - 1;
    }
    text_of(&v, a, b)
}

/// Rewrites the archive's paths in an error message to the working directory, where that is known.
pub fn translate_vfs_paths(message: &str, cwd: Option<&str>) -> (r: String)
    ensures
        match cwd {
            Some(d) => match regex_replaced(archive_url(), message@, directory_url(d@)) {
                Some(s) => r@ == s,
                None => r@ == message@,
            },
            None => r@ == message@,
        },
        cwd matches Some(d) && !directory_url(d@).contains('$') ==> r@ == replace_all(
            message@,
            archive_url(),
            directory_url((cwd->0)@),
        ),
{
    match cwd {
        Some(d) => {
            let a = join("file:///", trim_slashes(d).as_str());
            let by = join(a.as_str(), "/");
            proof {
                reveal_strlit("file:///var/tmp/sb-compile-trex/");
                assert(is_plain_pattern(archive_url()));
            }
            match regex_replace("file:///var/tmp/sb-compile-trex/", message, by.as_str()) {
                Some(s) => s,
                None => message.to_owned(),
            }
        },
        None => message.to_owned(),
    }
}

// ---------------------------------------------------------------------------
// Laws
// ---------------------------------------------------------------------------

/// The pieces of a message and the texts in the gaps between them, in their order.
pub open spec fn alternated(pieces: Seq<Seq<char>>, gaps: Seq<Seq<char>>) -> Seq<Seq<char>> {
    Seq::new(
        (2 * gaps.len() + 1) as nat,
        |k: int|
            if k % 2 == 0 {
                pieces[k / 2]
            } else {
                gaps[k / 2]
            },
    )
}

proof fn lemma_woven_is_flat(pieces: Seq<Seq<char>>, gaps: Seq<Seq<char>>, n: int)
    requires
        0 <= n <= gaps.len(),
    ensures
        woven(pieces, gaps, n) == alternated(pieces, gaps).take(2 * n + 1).flatten(),
    decreases n,
{
    let all = alternated(pieces, gaps);
    if n == 0 {
        assert(all.take(1) =~= Seq::<Seq<char>>::empty().push(pieces[0]));
        Seq::<Seq<char>>::empty().lemma_flatten_push(pieces[0]);
        assert(Seq::<Seq<char>>::empty().flatten() + pieces[0] =~= pieces[0]);
    } else {
        lemma_woven_is_flat(pieces, gaps, n - 1);
        let a = all.take(2 * n - 1);
        assert((2 * n - 1) % 2 == 1 && (2 * n - 1) / 2 == n - 1);
        assert((2 * n) % 2 == 0 && (2 * n) / 2 == n);
        assert(all[2 * n - 1] == gaps[n - 1]);
        assert(all[2 * n] == pieces[n]);
        assert(all.take(2 * n) =~= a.push(gaps[n - 1]));
        assert(all.take(2 * n + 1) =~= a.push(gaps[n - 1]).push(pieces[n]));
        a.lemma_flatten_push(gaps[n - 1]);
        a.push(gaps[n - 1]).lemma_flatten_push(pieces[n]);
    }
}

/// Every location of a message is translated, whichever it is: in its gap stands the file, the line
/// and the column that the module's map gives, counted from one, and the location itself, written
/// anew, where there is no map or the map has no answer. What lies between the locations stays.
pub proof fn law_every_location_is_translated<F: Fn(&SourceMap, u32, u32) -> Option<MapToken>>(
    store: SourceMapStore,
    lookup: F,
    pieces: Seq<Seq<char>>,
    found: Seq<Seq<Seq<char>>>,
    to: Seq<Option<(Seq<char>, u32, u32)>>,
    message: Seq<char>,
)
    requires
        pieces.len() == found.len() + 1,
        is_translation(store, lookup, pieces, found, to, message),
    ensures
        to.len() == found.len(),
        message == alternated(
            pieces,
            Seq::new(
                found.len(),
                |i: int|
                    match to[i] {
                        Some((file, line, column)) => file + ":"@ + decimal_text(line as nat) + ":"@
                            + decimal_text(column as nat),
                        None => found[i][1] + ":"@ + decimal_text(number_or_zero(found[i][2]) as nat)
                            + ":"@ + decimal_text(number_or_zero(found[i][3]) as nat),
                    },
            ),
        ).flatten(),
        forall|i: int|
            #![trigger to[i]]
            0 <= i < found.len() ==> if store.maps@.contains_key(found[i][1]) {
                let line = number_or_zero(found[i][2]);
                let column = number_or_zero(found[i][3]);
                exists|t: Option<MapToken>, l: u32, c: u32|
                    {
                        &&& l == line - 1 || (line == 0 && l == 0)
                        &&& c == column - 1 || (column == 0 && c == 0)
                        &&& #[trigger] lookup.ensures((&store.maps@[found[i][1]], l, c), t)
                        &&& match t {
                            None => to[i] is None,
                            Some(k) => if k.source is Some && k.line < u32::MAX && k.column
                                < u32::MAX {
                                to[i] == Some(
                                    (
                                        (k.source->0)@,
                                        (k.line + 1) as u32,
                                        (k.column + 1) as u32,
                                    ),
                                )
                            } else {
                                to[i] is None
                            },
                        }
                    }
            } else {
                to[i] is None
            },
{
    let gaps = Seq::new(
        found.len(),
        |i: int|
            match to[i] {
                Some((file, line, column)) => file + ":"@ + decimal_text(line as nat) + ":"@
                    + decimal_text(column as nat),
                None => found[i][1] + ":"@ + decimal_text(number_or_zero(found[i][2]) as nat) + ":"@
                    + decimal_text(number_or_zero(found[i][3]) as nat),
            },
    );
    assert(all_replaced(found, to) =~= gaps);
    lemma_woven_is_flat(pieces, gaps, gaps.len() as int);
    let all = alternated(pieces, gaps);
    assert(all.take(all.len() as int) =~= all);
    assert forall|i: int| #![trigger to[i]] 0 <= i < found.len() implies (
    if store.maps@.contains_key(found[i][1]) {
        let line = number_or_zero(found[i][2]);
        let column = number_or_zero(found[i][3]);
        exists|t: Option<MapToken>, l: u32, c: u32|
            {
                &&& l == line - 1 || (line == 0 && l == 0)
                &&& c == column - 1 || (column == 0 && c == 0)
                &&& #[trigger] lookup.ensures((&store.maps@[found[i][1]], l, c), t)
                &&& match t {
                    None => to[i] is None,
                    Some(k) => if k.source is Some && k.line < u32::MAX && k.column < u32::MAX {
                        to[i] == Some(
                            ((k.source->0)@, (k.line + 1) as u32, (k.column + 1) as u32),
                        )
                    } else {
                        to[i] is None
                    },
                }
            }
    } else {
        to[i] is None
    }) by {
        assert(translates(store, lookup, found[i], to[i]));
        if store.maps@.contains_key(found[i][1]) {
            let m = store.maps@[found[i][1]];
            let line = number_or_zero(found[i][2]);
            let column = number_or_zero(found[i][3]);
            let t = choose|t: Option<MapToken>|
                {
                    &&& #[trigger] lookup.ensures((&m, zero_based(line), zero_based(column)), t)
                    &&& to[i] == located(t)
                };
            assert(lookup.ensures((&m, zero_based(line), zero_based(column)), t));
        }
    }
}

/// Storing a map leaves the maps of other modules as they are, and bytes that do not parse leave
/// them all.
pub proof fn law_storing_touches_one_module(
    maps: Map<Seq<char>, SourceMap>,
    specifier: Seq<char>,
    bytes: Seq<u8>,
    other: Seq<char>,
)
    ensures
        other != specifier ==> after_store(maps, specifier, bytes).contains_key(other)
            == maps.contains_key(other) && (maps.contains_key(other) ==> after_store(
            maps,
            specifier,
            bytes,
        )[other] == maps[other]),
        source_map_of(bytes) is None ==> after_store(maps, specifier, bytes) == maps,
{
}

/// The first place where a text stands is replaced and the rest is treated alike; a text in which it
/// stands nowhere stays as it is.
pub proof fn law_every_occurrence_is_replaced(
    before: Seq<char>,
    needle: Seq<char>,
    after: Seq<char>,
    by: Seq<char>,
)
    requires
        needle.len() > 0,
        forall|i: int|
            0 <= i < before.len() ==> !needle.is_prefix_of(
                #[trigger] (before + needle + after).skip(i),
            ),
    ensures
        replace_all(before + needle + after, needle, by) == before + by + replace_all(
            after,
            needle,
            by,
        ),
    decreases before.len(),
{
    let text = before + needle + after;
    if before.len() == 0 {
        assert(text =~= needle + after);
        assert(needle.is_prefix_of(text));
        assert(text.skip(needle.len() as int) =~= after);
        assert(before + by =~= by);
    } else {
        assert(text.skip(0) =~= text);
        assert(!needle.is_prefix_of(text.skip(0)));
        let rest = before.drop_first();
        assert(text.drop_first() =~= rest + needle + after);
        assert forall|i: int| 0 <= i < rest.len() implies !needle.is_prefix_of(
            #[trigger] (rest + needle + after).skip(i),
        ) by {
            assert((rest + needle + after).skip(i) =~= text.skip(i + 1));
        }
        law_every_occurrence_is_replaced(rest, needle, after, by);
        assert(seq![text[0]] + (rest + by + replace_all(after, needle, by)) =~= before + by
            + replace_all(after, needle, by));
    }
}

/// A text in which another stands nowhere stays as it is.
pub proof fn law_nothing_else_is_replaced(text: Seq<char>, needle: Seq<char>, by: Seq<char>)
    requires
        forall|i: int| 0 <= i < text.len() ==> !needle.is_prefix_of(#[trigger] text.skip(i)),
    ensures
        replace_all(text, needle, by) == text,
    decreases text.len(),
{
    if text.len() > 0 {
        assert(text.skip(0) =~= text);
        assert(!needle.is_prefix_of(text.skip(0)));
        let rest = text.drop_first();
        assert forall|i: int| 0 <= i < rest.len() implies !needle.is_prefix_of(
            #[trigger] rest.skip(i),
        ) by {
            assert(rest.skip(i) =~= text.skip(i + 1));
        }
        law_nothing_else_is_replaced(rest, needle, by);
        assert(seq![text[0]] + rest =~= text);
    }
}

/// The working directory as it is written in messages: a `file:` URL with one slash before it and
/// one behind it, however many it has itself.
pub proof fn law_directories_end_with_one_slash(before: nat, core: Seq<char>, behind: nat)
    requires
        core.len() > 0,
        core[0] != '/',
        core.last() != '/',
    ensures
        directory_url(
            Seq::new(before, |i: int| '/') + core + Seq::new(behind, |i: int| '/'),
        ) == "file:///"@ + core + "/"@,
{
    let tail = core + Seq::new(behind, |i: int| '/');
    lemma_trims_start(before, tail);
    assert(Seq::new(before, |i: int| '/') + core + Seq::new(behind, |i: int| '/') =~= Seq::new(
        before,
        |i: int| '/',
    ) + tail);
    lemma_trims_end(core, behind);
}

proof fn lemma_trims_start(n: nat, s: Seq<char>)
    requires
        s.len() > 0,
        s[0] != '/',
    ensures
        trimmed_start(Seq::new(n, |i: int| '/') + s) == s,
    decreases n,
{
    let all = Seq::new(n, |i: int| '/') + s;
    if n == 0 {
        assert(all =~= s);
    } else {
        assert(all.drop_first() =~= Seq::new((n - 1) as nat, |i: int| '/') + s);
        lemma_trims_start((n - 1) as nat, s);
    }
}

proof fn lemma_trims_end(s: Seq<char>, n: nat)
    requires
        s.len() > 0,
        s.last() != '/',
    ensures
        trimmed_end(s + Seq::new(n, |i: int| '/')) == s,
    decreases n,
{
    let all = s + Seq::new(n, |i: int| '/');
    if n == 0 {
        assert(all =~= s);
    } else {
        assert(all.drop_last() =~= s + Seq::new((n - 1) as nat, |i: int| '/'));
        lemma_trims_end(s, (n - 1) as nat);
    }
}


/// A line or a column that is a number of thirty-two bits counts as that, and any other as zero.
pub proof fn law_numbers_out_of_range_count_as_zero(n: nat, s: Seq<char>)
    ensures
        n <= u32::MAX ==> number_or_zero(decimal_text(n)) == n,
        n > u32::MAX ==> number_or_zero(decimal_text(n)) == 0,
        unsigned_number(s, u32::MAX as int) is None ==> number_or_zero(s) == 0,
        unsigned_number(s, u32::MAX as int) matches Some(k) ==> number_or_zero(s) == k,
{
    law_numbers_read_back(n, u32::MAX as int, Seq::empty());
    law_numbers_are_digits(s, '0', u32::MAX as int);
}


/// The files of an archive seem to lie where its loader looks for them by default.
pub proof fn law_archives_lie_where_they_are_loaded_from(name: Seq<char>)
    requires
        name.len() > 0,
        name[0] != '/',
    ensures
        archive_url() + name == "file://"@ + joined(loader_root(None), name),
{
    reveal_strlit("file://");
    reveal_strlit("/var/tmp");
    reveal_strlit("sb-compile-trex");
    reveal_strlit("file:///var/tmp/sb-compile-trex/");
    assert(archive_url() + name =~= "file://"@ + joined(loader_root(None), name));
}

} // verus!
