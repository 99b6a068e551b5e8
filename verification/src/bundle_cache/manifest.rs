//! Download manifests: which cached blob a URL, or an explicit cache key, last resolved to.

use vstd::prelude::*;
use vstd::slice::slice_to_vec;
use vstd::string::*;
use vstd::utf8::*;

use crate::bundle_cache::address::{hash_bytes, xxh3_of};
use crate::bundle_cache::index::{index_remove, key_of, CacheIndex};
use crate::bundle_cache::sweep::{
    file_kind, is_path, is_text, kind_of, opt_view, CacheEvent, CacheEventAction, CacheEventView, FileKind,
};
use crate::paths::{
    components, extension, join_path, joined, law_extension_follows_the_last_dot,
    law_joining_adds_a_component, same_path,
};
use crate::text::{hex16, hex_text, join, law_hex_spells_the_number, same};

verus! {

/// A recorded download: where a bundle came from and which blob holds it, with what is needed to
/// decide whether the network can be skipped next time.
#[derive(Debug, Clone)]
pub struct UrlCacheEntry {
    pub url: Option<String>,
    pub cache_key: Option<String>,
    pub version: Option<String>,
    pub etag: Option<String>,
    pub last_modified: Option<String>,
    pub bundle_path: String,
}

/// The key that an entry is recorded under, and whether it is an explicit cache key.
pub open spec fn entry_key(e: UrlCacheEntry) -> Option<(Seq<char>, bool)> {
    match (e.cache_key, e.url) {
        (Some(k), _) => Some((k@, true)),
        (None, Some(u)) => Some((u@, false)),
        (None, None) => None,
    }
}

/// An entry that has neither a cache key nor a URL.
#[derive(Debug, Clone, Copy, PartialEq, Eq, Structural)]
pub struct KeylessEntry;

impl KeylessEntry {
    pub fn message(&self) -> (r: String)
        ensures
            r@ == "a url manifest entry needs a cacheKey or a url"@,
    {
        "a url manifest entry needs a cacheKey or a url".to_owned()
    }
}

impl UrlCacheEntry {
    /// The manifest key this entry is stored under: the explicit cache key where there is one, the
    /// download URL otherwise.
    pub fn key(&self) -> (r: Result<(&str, bool), KeylessEntry>)
        ensures
            match entry_key(*self) {
                Some((k, explicit)) => r is Ok && (r->Ok_0).0@ == k && (r->Ok_0).1 == explicit,
                None => r is Err,
            },
    {
        match (&self.cache_key, &self.url) {
            (Some(k), _) => Ok((k.as_str(), true)),
            (None, Some(u)) => Ok((u.as_str(), false)),
            (None, None) => Err(KeylessEntry),
        }
    }
}

/// A text that may be missing, as a borrowed string.
pub open spec fn opt_str_view(o: Option<&str>) -> Option<Seq<char>> {
    match o {
        Some(s) => Some(s@),
        None => None,
    }
}

/// The text of a version, empty where there is none.
pub open spec fn version_text(version: Option<Seq<char>>) -> Seq<char> {
    match version {
        Some(v) => v,
        None => Seq::empty(),
    }
}

/// The bytes that mark an explicit cache key.
pub open spec fn key_mark(is_cache_key: bool) -> Seq<u8> {
    if is_cache_key {
        seq![0u8, 107u8, 0u8]
    } else {
        Seq::empty()
    }
}

/// The bytes that are hashed for the manifest of `(key, version)`.
pub open spec fn manifest_input(
    key: Seq<char>,
    is_cache_key: bool,
    version: Option<Seq<char>>,
) -> Seq<u8> {
    key_mark(is_cache_key) + encode_utf8(key) + seq![0u8] + encode_utf8(version_text(version))
}

/// Where in `dir` the manifest of `(key, version)` is kept.
pub open spec fn manifest_path(
    dir: Seq<char>,
    key: Seq<char>,
    is_cache_key: bool,
    version: Option<Seq<char>>,
) -> Seq<char> {
    joined(
        dir,
        hex_text(xxh3_of(manifest_input(key, is_cache_key, version)) as nat, 16) + ".url.json"@,
    )
}

/// Where in `dir` the manifest of `(key, version)` is kept. An explicit cache key is hashed with a
/// mark in front that no URL can begin with.
pub fn url_meta_path(dir: &str, key: &str, is_cache_key: bool, version: Option<&str>) -> (r: String)
    ensures
        r@ == manifest_path(dir@, key@, is_cache_key, opt_str_view(version)),
{
    let mut input: Vec<u8> = Vec::new();
    if is_cache_key {
        input.push(0);
        input.push(107);
        input.push(0);
    }
    assert(input@ =~= key_mark(is_cache_key));
    let mut k: Vec<u8> = slice_to_vec(key.as_bytes());
    input.append(&mut k);
    input.push(0);
    match version {
        Some(v) => {
            let mut w: Vec<u8> = slice_to_vec(v.as_bytes());
            input.append(&mut w);
        },
        None => {},
    }
    assert(input@ =~= manifest_input(key@, is_cache_key, opt_str_view(version))) by {
        reveal(encode_utf8);
    }
    let hash: u64 = hash_bytes(input.as_slice());
    let name = join(hex16(hash).as_str(), ".url.json");
    join_path(dir, name.as_str())
}

// ---------------------------------------------------------------------------
// Recording
// ---------------------------------------------------------------------------

/// Where in `dir` an entry is recorded, if it has a key.
pub open spec fn record_path(dir: Seq<char>, e: UrlCacheEntry) -> Option<Seq<char>> {
    match entry_key(e) {
        Some((key, explicit)) => Some(manifest_path(dir, key, explicit, opt_view(e.version))),
        None => None,
    }
}

/// The manifest file in `dir` that recording `entry` replaces.
pub fn url_cache_record(dir: &str, entry: &UrlCacheEntry) -> (r: Result<String, KeylessEntry>)
    ensures
        match record_path(dir@, *entry) {
            Some(p) => r is Ok && (r->Ok_0)@ == p,
            None => r is Err,
        },
{
    match entry.key() {
        Ok((key, explicit)) => {
            let version: Option<&str> = match &entry.version {
                Some(v) => Some(v.as_str()),
                None => None,
            };
            Ok(url_meta_path(dir, key, explicit, version))
        },
        Err(e) => Err(e),
    }
}

// ---------------------------------------------------------------------------
// Lookup
// ---------------------------------------------------------------------------

/// What reading a manifest file gave.
pub enum ManifestRead {
    /// There is no such file.
    Missing,
    /// It could not be read.
    Failed,
    /// It was read and does not parse.
    Corrupt,
    Entry(UrlCacheEntry),
}

/// What a lookup does once the manifest has been read.
pub enum LookupStep {
    /// Nothing is recorded.
    Miss,
    /// The manifest could not be read: the lookup fails.
    Fail,
    /// The manifest is unusable: it is removed, and the lookup misses.
    DropManifest,
    /// The blob is to be touched; see [`lookup_after_touch`].
    TouchBlob(UrlCacheEntry),
}

/// The key of a lookup, and whether it is an explicit cache key.
pub fn lookup_key<'a>(url: &'a str, cache_key: Option<&'a str>) -> (r: (&'a str, bool))
    ensures
        r.1 == cache_key is Some,
        r.0@ == match cache_key {
            Some(k) => k@,
            None => url@,
        },
{
    match cache_key {
        Some(k) => (k, true),
        None => (url, false),
    }
}

/// Whether an entry answers a lookup. With a cache key the key alone decides (the URLs recorded
/// under it are interchangeable); without one the entry must be recorded under that very URL.
pub open spec fn answers(
    e: UrlCacheEntry,
    url: Seq<char>,
    cache_key: Option<Seq<char>>,
    version: Option<Seq<char>>,
) -> bool {
    &&& opt_view(e.version) == version
    &&& match cache_key {
        Some(k) => opt_view(e.cache_key) == Some(k),
        None => e.cache_key is None && opt_view(e.url) == Some(url),
    }
}

/// Whether two texts that may be missing are the same.
fn same_option(a: &Option<String>, b: Option<&str>) -> (r: bool)
    ensures
        r == (opt_view(*a) == opt_str_view(b)),
{
    match (a, b) {
        (Some(x), Some(y)) => same(x.as_str(), y),
        (None, None) => true,
        _ => false,
    }
}

/// Whether `entry` answers a lookup.
pub fn entry_answers(
    entry: &UrlCacheEntry,
    url: &str,
    cache_key: Option<&str>,
    version: Option<&str>,
) -> (r: bool)
    ensures
        r == answers(*entry, url@, opt_str_view(cache_key), opt_str_view(version)),
{
    let matches = match cache_key {
        Some(k) => is_text(k, &entry.cache_key),
        None => entry.cache_key.is_none() && is_text(url, &entry.url),
    };
    matches && same_option(&entry.version, version)
}

/// Decides a lookup from what reading the manifest gave. An entry that does not echo the key it
/// was looked up by belongs to somebody else and reads as a miss.
pub fn url_cache_lookup(
    url: &str,
    cache_key: Option<&str>,
    version: Option<&str>,
    read: ManifestRead,
) -> (r: LookupStep)
    ensures
        match read {
            ManifestRead::Missing => r is Miss,
            ManifestRead::Failed => r is Fail,
            ManifestRead::Corrupt => r is DropManifest,
            ManifestRead::Entry(e) => if answers(
                e,
                url@,
                opt_str_view(cache_key),
                opt_str_view(version),
            ) {
                r == LookupStep::TouchBlob(e)
            } else {
                r is Miss
            },
        },
{
    match read {
        ManifestRead::Missing => LookupStep::Miss,
        ManifestRead::Failed => LookupStep::Fail,
        ManifestRead::Corrupt => LookupStep::DropManifest,
        ManifestRead::Entry(e) => {
            if entry_answers(&e, url, cache_key, version) {
                LookupStep::TouchBlob(e)
            } else {
                LookupStep::Miss
            }
        },
    }
}

/// How a lookup ends once the blob has been touched.
#[derive(Debug)]
pub enum LookupEnd {
    /// The entry is the answer, and its manifest is touched too, so that it does not expire before
    /// the blob.
    Hit(UrlCacheEntry),
    /// The blob is gone: its manifest is removed, and the answer is a miss.
    Vanished,
}

/// Ends a lookup: a hit where the blob was there to be touched.
pub fn lookup_after_touch(entry: UrlCacheEntry, touched: bool) -> (r: LookupEnd)
    ensures
        r == if touched {
            LookupEnd::Hit(entry)
        } else {
            LookupEnd::Vanished
        },
{
    if touched {
        LookupEnd::Hit(entry)
    } else {
        LookupEnd::Vanished
    }
}

// ---------------------------------------------------------------------------
// Explicit eviction
// ---------------------------------------------------------------------------

/// What an explicit evict does once the manifest has been read.
pub enum EvictStep {
    /// Nothing is recorded under the key: the answer is `false`.
    NotRecorded,
    /// The manifest could not be read: the evict fails.
    Fail,
    /// The manifest does not parse: it is removed, and the answer is `false`.
    DropManifest,
    /// The manifest is removed, and its blob too where nothing else points at it. The answer is
    /// `true`.
    Remove(UrlCacheEntry),
}

/// Decides an explicit evict from what reading the manifest gave.
pub fn url_cache_evict(cache_key: &str, version: Option<&str>, read: ManifestRead) -> (r: EvictStep)
    ensures
        match read {
            ManifestRead::Missing => r is NotRecorded,
            ManifestRead::Failed => r is Fail,
            ManifestRead::Corrupt => r is DropManifest,
            ManifestRead::Entry(e) => if opt_view(e.cache_key) == Some(cache_key@) && opt_view(
                e.version,
            ) == opt_str_view(version) {
                r == EvictStep::Remove(e)
            } else {
                r is NotRecorded
            },
        },
{
    match read {
        ManifestRead::Missing => EvictStep::NotRecorded,
        ManifestRead::Failed => EvictStep::Fail,
        ManifestRead::Corrupt => EvictStep::DropManifest,
        ManifestRead::Entry(e) => {
            if is_text(cache_key, &e.cache_key) && same_option(&e.version, version) {
                EvictStep::Remove(e)
            } else {
                EvictStep::NotRecorded
            }
        },
    }
}

/// A file of the cache directory, with the blob it points at where it reads as a manifest.
pub struct Reference {
    pub path: String,
    pub blob: Option<String>,
}

/// Whether a file is a manifest, other than the excluded one, that points at `blob`.
pub open spec fn refers(r: Reference, blob: Seq<char>, excluding: Seq<char>) -> bool {
    &&& key_of(r.path@) != key_of(excluding)
    &&& kind_of(r.path@) == FileKind::Manifest
    &&& opt_view(r.blob) matches Some(b) && key_of(b) == key_of(blob)
}

/// Whether any manifest but the excluded one points at `blob`: identical bytes stored under
/// several keys share one file.
pub fn blob_has_other_references(blob: &str, excluding: &str, files: &Vec<Reference>) -> (r: bool)
    ensures
        r == exists|i: int| 0 <= i < files@.len() && refers(#[trigger] files@[i], blob@, excluding@),
{
    let mut i: usize = 0;
    while i < files.len()
        invariant
            i <= files@.len(),
            forall|j: int| 0 <= j < i ==> !refers(#[trigger] files@[j], blob@, excluding@),
        decreases files@.len() - i,
    {
        let f = &files[i];
        if !same_path(f.path.as_str(), excluding) && file_kind(f.path.as_str())
            == FileKind::Manifest && is_path(blob, &f.blob) {
            assert(refers(files@[i as int], blob@, excluding@));
            return true;
        }
        i = i + 1;
    }
    false
}

/// How unlinking a blob ended.
#[derive(Debug, Clone, Copy, PartialEq, Eq, Structural)]
pub enum Unlink {
    Done,
    /// It was gone already.
    NotFound,
    Refused,
}

/// Accounts for the blob of an evicted manifest: it leaves the index unless the file system kept
/// it, and a notice is due where it was unlinked.
pub fn settle_evicted_blob(
    index: &mut CacheIndex,
    cache_key: &str,
    blob: &str,
    size: u64,
    outcome: Unlink,
    cap: Option<u64>,
) -> (r: Option<CacheEvent>)
    requires
        old(index).wf(),
    ensures
        final(index).wf(),
        final(index).built == old(index).built,
        outcome == Unlink::Refused ==> *final(index) == *old(index),
        outcome != Unlink::Refused ==> final(index).blobs() == old(index).blobs().remove(key_of(blob@))
            && final(index).total_bytes == old(index).total_bytes - old(index).size_of(blob@),
        r is Some <==> outcome == Unlink::Done,
        r matches Some(e) ==> e@ == (CacheEventView {
            action: CacheEventAction::Evicted,
            cache_key: Some(cache_key@),
            path: Some(blob@),
            bytes: size,
            total_bytes: final(index).total_bytes,
            max_bytes: cap,
        }),
{
    match outcome {
        Unlink::Done => {
            index_remove(index, blob);
            Some(
                CacheEvent {
                    action: CacheEventAction::Evicted,
                    cache_key: Some(cache_key.to_owned()),
                    path: Some(blob.to_owned()),
                    bytes: size,
                    total_bytes: index.total_bytes,
                    max_bytes: cap,
                },
            )
        },
        Unlink::NotFound => {
            index_remove(index, blob);
            None
        },
        Unlink::Refused => None,
    }
}

// ---------------------------------------------------------------------------
// Laws
// ---------------------------------------------------------------------------

/// A text without the NUL character.
pub open spec fn nul_free(s: Seq<char>) -> bool {
    forall|i: int| 0 <= i < s.len() ==> #[trigger] s[i] as u32 != 0
}

/// No byte of the encoding of a NUL-free text is zero.
proof fn lemma_encoding_nul_free(s: Seq<char>)
    requires
        nul_free(s),
    ensures
        forall|i: int| 0 <= i < encode_utf8(s).len() ==> #[trigger] encode_utf8(s)[i] != 0,
    decreases s.len(),
{
    if s.len() > 0 {
        let head = encode_scalar(s[0] as u32);
        let rest = encode_utf8(s.drop_first());
        assert(nul_free(s.drop_first())) by {
            assert forall|i: int| 0 <= i < s.drop_first().len() implies #[trigger] s.drop_first()[i] as u32
                != 0 by {
                assert(s.drop_first()[i] == s[i + 1]);
            }
        }
        lemma_encoding_nul_free(s.drop_first());
        lemma_scalar_nul_free(s[0]);
        assert(encode_utf8(s) == head + rest);
        assert forall|i: int| 0 <= i < encode_utf8(s).len() implies #[trigger] encode_utf8(s)[i]
            != 0 by {
            if i < head.len() {
                assert(encode_utf8(s)[i] == head[i]);
            } else {
                assert(encode_utf8(s)[i] == rest[i - head.len()]);
            }
        }
    }
}

proof fn lemma_scalar_nul_free(c: char)
    requires
        c as u32 != 0,
    ensures
        forall|i: int|
            0 <= i < encode_scalar(c as u32).len() ==> #[trigger] encode_scalar(c as u32)[i] != 0,
{
    let v = c as u32;
    assert(v < 0x80 && v != 0 ==> (v & 0x7F) as u8 != 0) by (bit_vector);
    assert(0xC0u8 | ((v >> 6) & 0x1F) as u8 != 0) by (bit_vector);
    assert(0xE0u8 | ((v >> 12) & 0x0F) as u8 != 0) by (bit_vector);
    assert(0xF0u8 | ((v >> 18) & 0x07) as u8 != 0) by (bit_vector);
    assert(0x80u8 | (v & 0x3F) as u8 != 0) by (bit_vector);
    assert(0x80u8 | ((v >> 6) & 0x3F) as u8 != 0) by (bit_vector);
    assert(0x80u8 | ((v >> 12) & 0x3F) as u8 != 0) by (bit_vector);
}

/// An explicit cache key can never collide with a plain URL: what is hashed for the one is never
/// what is hashed for the other. (A URL is not empty and holds no NUL.)
pub proof fn law_key_spaces_are_disjoint(
    key: Seq<char>,
    version: Option<Seq<char>>,
    url: Seq<char>,
    url_version: Option<Seq<char>>,
)
    requires
        url.len() > 0,
        nul_free(url),
    ensures
        manifest_input(key, true, version) != manifest_input(url, false, url_version),
{
    lemma_encoding_nul_free(url);
    let a = manifest_input(key, true, version);
    let b = manifest_input(url, false, url_version);
    lemma_encoding_nonempty(url);
    assert(b[0] == encode_utf8(url)[0]);
    assert(a[0] == 0);
}

proof fn lemma_encoding_nonempty(s: Seq<char>)
    requires
        s.len() > 0,
    ensures
        encode_utf8(s).len() > 0,
{
    assert(encode_utf8(s) == encode_scalar(s[0] as u32) + encode_utf8(s.drop_first()));
}

/// Within one key space, distinct keys or distinct version texts are hashed differently.
pub proof fn law_manifest_input_is_injective(
    key1: Seq<char>,
    version1: Option<Seq<char>>,
    key2: Seq<char>,
    version2: Option<Seq<char>>,
    is_cache_key: bool,
)
    requires
        nul_free(key1),
        nul_free(key2),
        manifest_input(key1, is_cache_key, version1) == manifest_input(
            key2,
            is_cache_key,
            version2,
        ),
    ensures
        key1 == key2,
        version_text(version1) == version_text(version2),
{
    let m = key_mark(is_cache_key).len() as int;
    let a = manifest_input(key1, is_cache_key, version1);
    let b = manifest_input(key2, is_cache_key, version2);
    let ka = encode_utf8(key1);
    let kb = encode_utf8(key2);
    let va = encode_utf8(version_text(version1));
    let vb = encode_utf8(version_text(version2));
    lemma_encoding_nul_free(key1);
    lemma_encoding_nul_free(key2);
    if ka.len() < kb.len() {
        assert(a[m + ka.len()] == 0);
        assert(b[m + ka.len()] == kb[ka.len() as int]);
    }
    if kb.len() < ka.len() {
        assert(b[m + kb.len()] == 0);
        assert(a[m + kb.len()] == ka[kb.len() as int]);
    }
    assert(ka =~= a.subrange(m, m + ka.len()));
    assert(kb =~= b.subrange(m, m + kb.len()));
    assert(va =~= a.skip(m + ka.len() + 1));
    assert(vb =~= b.skip(m + kb.len() + 1));
    encode_utf8_decode_utf8(key1);
    encode_utf8_decode_utf8(key2);
    encode_utf8_decode_utf8(version_text(version1));
    encode_utf8_decode_utf8(version_text(version2));
}

/// Where in `dir` a lookup reads.
pub open spec fn lookup_path(
    dir: Seq<char>,
    url: Seq<char>,
    cache_key: Option<Seq<char>>,
    version: Option<Seq<char>>,
) -> Seq<char> {
    match cache_key {
        Some(k) => manifest_path(dir, k, true, version),
        None => manifest_path(dir, url, false, version),
    }
}

/// The manifests of a directory once `e` has been recorded among them.
pub open spec fn recorded(
    store: Map<Seq<char>, UrlCacheEntry>,
    dir: Seq<char>,
    e: UrlCacheEntry,
) -> Map<Seq<char>, UrlCacheEntry> {
    match record_path(dir, e) {
        Some(p) => store.insert(p, e),
        None => store,
    }
}

/// The entry that a lookup finds among the manifests of a directory.
pub open spec fn found(
    store: Map<Seq<char>, UrlCacheEntry>,
    dir: Seq<char>,
    url: Seq<char>,
    cache_key: Option<Seq<char>>,
    version: Option<Seq<char>>,
) -> Option<UrlCacheEntry> {
    let p = lookup_path(dir, url, cache_key, version);
    if store.contains_key(p) && answers(store[p], url, cache_key, version) {
        Some(store[p])
    } else {
        None
    }
}

/// The manifests of a directory once `(cache_key, version)` has been evicted.
pub open spec fn evicted(
    store: Map<Seq<char>, UrlCacheEntry>,
    dir: Seq<char>,
    cache_key: Seq<char>,
    version: Option<Seq<char>>,
) -> Map<Seq<char>, UrlCacheEntry> {
    let p = manifest_path(dir, cache_key, true, version);
    if store.contains_key(p) && opt_view(store[p].cache_key) == Some(cache_key) && opt_view(
        store[p].version,
    ) == version {
        store.remove(p)
    } else {
        store
    }
}

/// What was recorded is found again under its own key and version, whatever was there before and
/// whatever URL a keyed lookup names.
pub proof fn law_recorded_entry_is_found(
    store: Map<Seq<char>, UrlCacheEntry>,
    dir: Seq<char>,
    e: UrlCacheEntry,
    url: Seq<char>,
)
    requires
        entry_key(e) is Some,
        e.cache_key is None ==> opt_view(e.url) == Some(url),
    ensures
        found(recorded(store, dir, e), dir, url, opt_view(e.cache_key), opt_view(e.version))
            == Some(e),
{
}

/// Recording an entry changes nothing for a lookup that reads another manifest file.
pub proof fn law_recording_leaves_other_keys(
    store: Map<Seq<char>, UrlCacheEntry>,
    dir: Seq<char>,
    e: UrlCacheEntry,
    url: Seq<char>,
    cache_key: Option<Seq<char>>,
    version: Option<Seq<char>>,
)
    requires
        record_path(dir, e) != Some(lookup_path(dir, url, cache_key, version)),
    ensures
        found(recorded(store, dir, e), dir, url, cache_key, version) == found(
            store,
            dir,
            url,
            cache_key,
            version,
        ),
{
}

/// After an evict the key misses, and evicting it once more changes nothing.
pub proof fn law_evicted_key_misses(
    store: Map<Seq<char>, UrlCacheEntry>,
    dir: Seq<char>,
    cache_key: Seq<char>,
    version: Option<Seq<char>>,
    url: Seq<char>,
)
    ensures
        found(evicted(store, dir, cache_key, version), dir, url, Some(cache_key), version) is None,
        evicted(evicted(store, dir, cache_key, version), dir, cache_key, version) == evicted(
            store,
            dir,
            cache_key,
            version,
        ),
{
}

/// A lookup without a cache key never gives an entry that was recorded under one, nor the entry of
/// another version.
pub proof fn law_lookup_is_exact(
    e: UrlCacheEntry,
    url: Seq<char>,
    cache_key: Option<Seq<char>>,
    version: Option<Seq<char>>,
)
    requires
        answers(e, url, cache_key, version),
    ensures
        entry_key(e) == Some(
            match cache_key {
                Some(k) => (k, true),
                None => (url, false),
            },
        ),
        opt_view(e.version) == version,
{
}


/// A manifest goes by the cache key it was recorded under, and by its URL where it has none; with
/// neither it goes by nothing.
pub proof fn law_cache_keys_go_before_urls(e: UrlCacheEntry)
    ensures
        e.cache_key is Some ==> entry_key(e) is Some && (entry_key(e)->0).0 == (e.cache_key->0)@ && (
        entry_key(e)->0).1,
        e.cache_key is None && e.url is Some ==> entry_key(e) is Some && (entry_key(e)->0).0 == (
        e.url->0)@ && !(entry_key(e)->0).1,
        e.cache_key is None && e.url is None ==> entry_key(e) is None,
{
}

/// What a manifest's name is made from: the key and the version, with a zero byte between them;
/// an explicit key has a mark in front, and no version counts as an empty one.
pub proof fn law_manifest_input_layout(key: Seq<char>, version: Seq<char>)
    ensures
        manifest_input(key, false, Some(version)).len() == encode_utf8(key).len() + 1
            + encode_utf8(version).len(),
        encode_utf8(key).is_prefix_of(manifest_input(key, false, Some(version))),
        manifest_input(key, false, Some(version))[encode_utf8(key).len() as int] == 0,
        encode_utf8(version).is_suffix_of(manifest_input(key, false, Some(version))),
        manifest_input(key, true, Some(version)) == seq![0u8, 'k' as u8, 0u8] + manifest_input(
            key,
            false,
            Some(version),
        ),
        manifest_input(key, false, None) == manifest_input(key, false, Some(Seq::<char>::empty())),
        manifest_input(key, true, None) == manifest_input(key, true, Some(Seq::<char>::empty())),
{
    let k = encode_utf8(key);
    let v = encode_utf8(version);
    let plain = manifest_input(key, false, Some(version));
    assert(plain =~= k + seq![0u8] + v);
    assert(plain.take(k.len() as int) =~= k);
    assert(plain.skip(k.len() as int + 1) =~= v);
    assert('k' as u8 == 107u8);
    assert(manifest_input(key, true, Some(version)) =~= seq![0u8, 107u8, 0u8] + plain);
}

/// A manifest lies in the cache directory, under the hash of what it is known by, and is told from
/// bundles and temporary files by its ending.
pub proof fn law_manifests_lie_in_the_directory(
    dir: Seq<char>,
    key: Seq<char>,
    is_cache_key: bool,
    version: Option<Seq<char>>,
)
    ensures
        ({
            let path = manifest_path(dir, key, is_cache_key, version);
            let name = hex_text(xxh3_of(manifest_input(key, is_cache_key, version)) as nat, 16)
                + ".url.json"@;
            &&& components(path) == components(dir).push(name)
            &&& extension(path) == Some("json"@)
        }),
{
    let hash = hex_text(xxh3_of(manifest_input(key, is_cache_key, version)) as nat, 16);
    law_hex_spells_the_number(xxh3_of(manifest_input(key, is_cache_key, version)) as nat, 16);
    reveal_strlit(".url.json");
    reveal_strlit("json");
    let stem = hash + seq!['.', 'u', 'r', 'l'];
    let name = hash + ".url.json"@;
    assert(name =~= stem + seq!['.'] + "json"@);
    assert(!name.contains('/')) by {
        if name.contains('/') {
            let k = name.index_of('/');
            if k < hash.len() {
                assert(hash[k] == '/');
            }
        }
    }
    assert(!stem.contains('/')) by {
        if stem.contains('/') {
            let k = stem.index_of('/');
            assert(name[k] == '/');
            assert(name.contains('/'));
        }
    }
    assert(name.len() == 25);
    law_extension_follows_the_last_dot(dir, stem, "json"@);
    law_joining_adds_a_component(dir, name);
}

/// A manifest answers a request for the key it goes by and the version it holds, and no other: one
/// with a cache key is not found by its URL.
pub proof fn law_manifests_answer_for_their_key(
    e: UrlCacheEntry,
    url: Seq<char>,
    key: Seq<char>,
    version: Option<Seq<char>>,
)
    ensures
        answers(e, url, Some(key), version) <==> e.cache_key is Some && (e.cache_key->0)@ == key
            && e.version is Some == version is Some && (version is Some ==> (e.version->0)@
            == version->0),
        answers(e, url, None, version) <==> e.cache_key is None && e.url is Some && (e.url->0)@
            == url && e.version is Some == version is Some && (version is Some ==> (e.version->0)@
            == version->0),
{
}

/// A blob is still referred to by a manifest, other than the one left out of account, that names
/// it; how the paths are spelled makes no difference.
pub proof fn law_references_are_other_manifests(
    r: Reference,
    blob: Seq<char>,
    excluding: Seq<char>,
)
    ensures
        refers(r, blob, excluding) <==> extension(r.path@) == Some("json"@) && components(r.path@)
            != components(excluding) && r.blob is Some && components((r.blob->0)@) == components(
            blob,
        ),
{
    reveal_strlit("eszip");
    reveal_strlit("json");
    assert("eszip"@[0] != "json"@[0]);
}

} // verus!
