//! Content addresses: the hash of a bundle names its file.

use vstd::prelude::*;
use xxhash_rust::xxh3::{xxh3_64, Xxh3};

use crate::paths::{
    components, extension, join_path, joined, law_extension_follows_the_last_dot,
    law_joining_adds_a_component,
};
use crate::text::{
    decimal, decimal_text, hex16, hex_text, join, law_hex_spells_the_number,
    law_hex_tells_numbers_apart, law_numbers_are_digits, law_numbers_read_back,
};

verus! {

/// The 64-bit XXH3 hash of a byte sequence, with the default secret and no seed.
pub uninterp spec fn xxh3_of(bytes: Seq<u8>) -> u64;

/// `xxhash_rust::xxh3::xxh3_64` hashes its whole input at once: the result depends on the bytes
/// alone.
#[verifier::external_body]
pub(crate) fn hash_bytes(bytes: &[u8]) -> (r: u64)
    ensures
        r == xxh3_of(bytes@),
{
    xxh3_64(bytes)
}

/// The streaming hasher of `xxhash_rust`.
#[verifier::external_type_specification]
#[verifier::external_body]
pub struct ExXxh3(xxhash_rust::xxh3::Xxh3);

/// The bytes that a streaming hasher has been fed since it was made.
pub uninterp spec fn hasher_input(h: Xxh3) -> Seq<u8>;

/// Whether a streaming hasher was made with the default secret and no seed.
pub uninterp spec fn hasher_is_default(h: Xxh3) -> bool;

/// `Xxh3::new` makes a hasher with the default secret and no seed, to which nothing has been fed.
#[verifier::external_body]
pub(crate) fn new_hasher() -> (r: Xxh3)
    ensures
        hasher_is_default(r),
        hasher_input(r) == Seq::<u8>::empty(),
{
    Xxh3::new()
}

/// `Xxh3::update` feeds one more chunk to the hasher.
#[verifier::external_body]
pub(crate) fn feed_hasher(h: &mut Xxh3, chunk: &[u8])
    ensures
        hasher_is_default(*final(h)) == hasher_is_default(*old(h)),
        hasher_input(*final(h)) == hasher_input(*old(h)) + chunk@,
{
    h.update(chunk)
}

/// `Xxh3::digest` gives the hash of everything fed so far. For a hasher with the default secret
/// that is the hash that `xxh3_64` computes of the same bytes in one go; the length is kept in 64
/// bits, so nothing is claimed past that.
#[verifier::external_body]
pub(crate) fn hasher_digest(h: &Xxh3) -> (r: u64)
    ensures
        hasher_is_default(*h) && hasher_input(*h).len() <= u64::MAX ==> r == xxh3_of(
            hasher_input(*h),
        ),
{
    h.digest()
}

/// The file name of the bundle with the given hash.
pub open spec fn blob_name(hash: u64) -> Seq<char> {
    hex_text(hash as nat, 16) + ".eszip"@
}

/// Where in `dir` the bundle with the given hash is kept.
pub fn blob_path(dir: &str, hash: u64) -> (r: String)
    ensures
        r@ == joined(dir@, blob_name(hash)),
{
    let name = join(hex16(hash).as_str(), ".eszip");
    join_path(dir, name.as_str())
}

/// Where in `dir` a bundle of these bytes is kept. Identical bytes share one file.
pub fn blob_path_of_bytes(dir: &str, bytes: &[u8]) -> (r: String)
    ensures
        r@ == joined(dir@, blob_name(xxh3_of(bytes@))),
{
    blob_path(dir, hash_bytes(bytes))
}

/// The text of a temporary file's path: a hidden name made of a tag, the process and a counter.
pub open spec fn tmp_name(tag: Seq<char>, pid: nat, seq_no: nat) -> Seq<char> {
    "."@ + tag + "."@ + decimal_text(pid) + "."@ + decimal_text(seq_no) + ".tmp"@
}

/// A path in `dir` for a temporary file, unique for each `(pid, seq_no)`.
pub fn tmp_path(dir: &str, tag: &str, pid: u32, seq_no: u64) -> (r: String)
    ensures
        r@ == joined(dir@, tmp_name(tag@, pid as nat, seq_no as nat)),
{
    let a = join(".", tag);
    let b = join(a.as_str(), ".");
    let c = join(b.as_str(), decimal(pid as u64).as_str());
    let d = join(c.as_str(), ".");
    let e = join(d.as_str(), decimal(seq_no).as_str());
    let f = join(e.as_str(), ".tmp");
    join_path(dir, f.as_str())
}

/// A bundle that is being streamed into a temporary file: its bytes are hashed as they pass.
pub struct SpillFile {
    pub hasher: Option<Xxh3>,
    pub tmp_path: String,
}

impl SpillFile {
    /// Whether more can be written.
    pub open spec fn is_open(self) -> bool {
        self.hasher is Some
    }

    /// What has been written so far.
    pub open spec fn written(self) -> Seq<u8> {
        match self.hasher {
            Some(h) => hasher_input(h),
            None => Seq::empty(),
        }
    }

    pub open spec fn wf(self) -> bool {
        self.hasher matches Some(h) ==> hasher_is_default(h)
    }

    /// An open spill into the file at `tmp_path`.
    pub fn create(tmp_path: String) -> (r: SpillFile)
        ensures
            r.wf(),
            r.is_open(),
            r.written() == Seq::<u8>::empty(),
            r.tmp_path == tmp_path,
    {
        SpillFile { hasher: Some(new_hasher()), tmp_path }
    }

    /// Takes in one more chunk, which must then be appended to the temporary file. A closed spill
    /// takes nothing: `false`.
    pub fn write(&mut self, chunk: &[u8]) -> (r: bool)
        requires
            old(self).wf(),
        ensures
            final(self).wf(),
            r == old(self).is_open(),
            final(self).is_open() == old(self).is_open(),
            final(self).tmp_path == old(self).tmp_path,
            final(self).written() == if r {
                old(self).written() + chunk@
            } else {
                old(self).written()
            },
    {
        match self.hasher.take() {
            Some(mut h) => {
                feed_hasher(&mut h, chunk);
                self.hasher = Some(h);
                true
            },
            None => false,
        }
    }

    /// The hash of what has been written so far, while the spill is open.
    pub fn digest(&self) -> (r: Option<u64>)
        requires
            self.wf(),
        ensures
            r is Some == self.is_open(),
            r matches Some(h) ==> self.written().len() <= u64::MAX ==> h == xxh3_of(
                self.written(),
            ),
    {
        match &self.hasher {
            Some(h) => Some(hasher_digest(h)),
            None => None,
        }
    }

    /// Closes the spill and gives the path under `dir` that its bytes are kept at, or `None` where
    /// it was closed before.
    pub fn finish(&mut self, dir: &str) -> (r: Option<String>)
        requires
            old(self).wf(),
        ensures
            final(self).wf(),
            !final(self).is_open(),
            final(self).tmp_path == old(self).tmp_path,
            r is Some == old(self).is_open(),
            r matches Some(p) ==> old(self).written().len() <= u64::MAX ==> p@ == joined(
                dir@,
                blob_name(xxh3_of(old(self).written())),
            ),
    {
        let hash = self.digest();
        self.hasher = None;
        match hash {
            Some(h) => Some(blob_path(dir, h)),
            None => None,
        }
    }
}

/// Whether a spill that just landed calls for another sweep: the account has grown past the cap.
pub fn needs_reconcile(total_bytes: u64, cap: Option<u64>) -> (r: bool)
    ensures
        r == (cap matches Some(c) && total_bytes > c),
{
    match cap {
        Some(c) => total_bytes > c,
        None => false,
    }
}


// ---------------------------------------------------------------------------
// Laws
// ---------------------------------------------------------------------------

/// A bundle lies in the cache directory under sixteen hexadecimal digits and the ending of a
/// bundle; bundles with different hashes have different paths.
pub proof fn law_bundles_lie_under_their_hash(dir: Seq<char>, a: u64, b: u64)
    ensures
        components(joined(dir, blob_name(a))) == components(dir).push(
            hex_text(a as nat, 16) + ".eszip"@,
        ),
        extension(joined(dir, blob_name(a))) == Some("eszip"@),
        joined(dir, blob_name(a)) == joined(dir, blob_name(b)) ==> a == b,
{
    lemma_blob_name(dir, a);
    lemma_blob_name(dir, b);
    let x = hex_text(a as nat, 16);
    let y = hex_text(b as nat, 16);
    law_hex_spells_the_number(a as nat, 16);
    law_hex_spells_the_number(b as nat, 16);
    if joined(dir, blob_name(a)) == joined(dir, blob_name(b)) {
        assert(components(dir).push(blob_name(a)).last() == components(dir).push(
            blob_name(b),
        ).last());
        assert(blob_name(a).take(16) =~= x);
        assert(blob_name(b).take(16) =~= y);
        law_hex_tells_numbers_apart(a, b);
    }
}

proof fn lemma_blob_name(dir: Seq<char>, hash: u64)
    ensures
        components(joined(dir, blob_name(hash))) == components(dir).push(blob_name(hash)),
        extension(joined(dir, blob_name(hash))) == Some("eszip"@),
{
    let stem = hex_text(hash as nat, 16);
    law_hex_spells_the_number(hash as nat, 16);
    reveal_strlit(".eszip");
    reveal_strlit("eszip");
    let name = blob_name(hash);
    assert(name =~= stem + seq!['.'] + "eszip"@);
    assert(!name.contains('/')) by {
        if name.contains('/') {
            let k = name.index_of('/');
            if k < stem.len() {
                assert(stem[k] == '/');
            }
        }
    }
    assert(!stem.contains('/')) by {
        if stem.contains('/') {
            let k = stem.index_of('/');
            assert(name[k] == '/');
        }
    }
    law_extension_follows_the_last_dot(dir, stem, "eszip"@);
    law_joining_adds_a_component(dir, name);
}

/// A temporary file is a hidden file of the cache directory that names what it is for, the process
/// and a running number, and ends as temporary files do.
pub proof fn law_temporary_files_are_marked(
    dir: Seq<char>,
    tag: Seq<char>,
    pid: nat,
    seq_no: nat,
)
    requires
        !tag.contains('/'),
    ensures
        ({
            let name = seq!['.'] + tag + seq!['.'] + decimal_text(pid) + seq!['.'] + decimal_text(
                seq_no,
            ) + seq!['.', 't', 'm', 'p'];
            &&& components(joined(dir, tmp_name(tag, pid, seq_no))) == components(dir).push(name)
            &&& extension(joined(dir, tmp_name(tag, pid, seq_no))) == Some("tmp"@)
        }),
{
    reveal_strlit(".");
    reveal_strlit(".tmp");
    reveal_strlit("tmp");
    law_numbers_read_back(pid, pid as int, Seq::empty());
    law_numbers_read_back(seq_no, seq_no as int, Seq::empty());
    law_numbers_are_digits(decimal_text(pid), '0', pid as int);
    law_numbers_are_digits(decimal_text(seq_no), '0', seq_no as int);
    let name = tmp_name(tag, pid, seq_no);
    let p = decimal_text(pid);
    let q = decimal_text(seq_no);
    assert(name =~= seq!['.'] + tag + seq!['.'] + p + seq!['.'] + q + seq!['.', 't', 'm', 'p']);
    let stem = seq!['.'] + tag + seq!['.'] + p + seq!['.'] + q;
    assert(name =~= stem + seq!['.'] + "tmp"@);
    assert(!p.contains('/')) by {
        if p.contains('/') {
            let k = p.index_of('/');
            assert(p[k] == '/');
        }
    }
    assert(!q.contains('/')) by {
        if q.contains('/') {
            let k = q.index_of('/');
            assert(q[k] == '/');
        }
    }
    assert(!stem.contains('/')) by {
        if stem.contains('/') {
            let k = stem.index_of('/');
            let t: int = tag.len() as int;
            let a: int = p.len() as int;
            if 1 <= k < 1 + t {
                assert(tag.contains(tag[k - 1]));
            } else if 2 + t <= k < 2 + t + a {
                assert(p.contains(p[k - 2 - t]));
            } else if 3 + t + a <= k {
                assert(q.contains(q[k - 3 - t - a]));
            }
        }
    }
    assert(!name.contains('/')) by {
        if name.contains('/') {
            let k = name.index_of('/');
            if k < stem.len() {
                assert(stem.contains(stem[k]));
            }
        }
    }
    law_extension_follows_the_last_dot(dir, stem, "tmp"@);
    law_joining_adds_a_component(dir, name);
}


/// A spill file is open as long as it hashes, and what was written to it is what was hashed.
pub proof fn law_open_spill_files_hash(s: SpillFile)
    ensures
        s.is_open() <==> s.hasher is Some,
        s.hasher is Some ==> s.written() == hasher_input(s.hasher->0),
        s.hasher is None ==> s.written().len() == 0,
{
}

} // verus!
