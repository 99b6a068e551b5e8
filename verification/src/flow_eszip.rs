//! Bundling and unbundling requests, and the byte stream that serves a finished bundle.

use vstd::prelude::*;

use crate::deno_options::CacheSetting;
use crate::text::{join, same};

verus! {

/// The checksum that the data section of a bundle carries.
#[derive(Debug, Clone, Copy, PartialEq, Eq, Structural)]
pub enum Checksum {
    NoChecksum,
    Sha256,
    XxHash3,
}

impl Checksum {
    pub open spec fn of(value: u8) -> Option<Checksum> {
        if value == 0 {
            Some(Checksum::NoChecksum)
        } else if value == 1 {
            Some(Checksum::Sha256)
        } else if value == 2 {
            Some(Checksum::XxHash3)
        } else {
            None
        }
    }

    /// The checksum with the given number.
    pub fn from_u8(value: u8) -> (r: Option<Checksum>)
        ensures
            r == Checksum::of(value),
    {
        match value {
            0 => Some(Checksum::NoChecksum),
            1 => Some(Checksum::Sha256),
            2 => Some(Checksum::XxHash3),
            _ => None,
        }
    }
}

/// The number of the checksum that a request names.
pub open spec fn checksum_number(name: Seq<char>) -> Option<u8> {
    if name == "none"@ {
        Some(0u8)
    } else if name == "sha256"@ {
        Some(1u8)
    } else if name == "xxhash3"@ {
        Some(2u8)
    } else {
        None
    }
}

/// Why a bundling request is refused.
#[derive(Debug)]
pub enum RequestError {
    /// Neither an entry path nor source code is given.
    NothingToBundle,
    /// There is no checksum of that name.
    UnknownChecksum(String),
    /// Not exactly one of a path and bytes is given.
    NotOneSource,
}

impl RequestError {
    pub open spec fn text(self) -> Seq<char> {
        match self {
            RequestError::NothingToBundle
                => "either an entrypoint path or module code must be provided"@,
            RequestError::UnknownChecksum(name) => "invalid checksum kind: "@ + name@
                + " (expected \"none\", \"sha256\" or \"xxhash3\")"@,
            RequestError::NotOneSource
                => "exactly one of an eszip path or eszip bytes must be provided"@,
        }
    }

    pub fn message(&self) -> (r: String)
        ensures
            r@ == self.text(),
    {
        match self {
            RequestError::NothingToBundle
                => "either an entrypoint path or module code must be provided".to_owned(),
            RequestError::UnknownChecksum(name) => {
                let a = join("invalid checksum kind: ", name.as_str());
                join(a.as_str(), " (expected \"none\", \"sha256\" or \"xxhash3\")")
            },
            RequestError::NotOneSource
                => "exactly one of an eszip path or eszip bytes must be provided".to_owned(),
        }
    }
}

/// The checksum that a request names; none where it names none.
pub fn parse_checksum(value: Option<&str>) -> (r: Result<Option<Checksum>, RequestError>)
    ensures
        match value {
            None => r == Ok::<Option<Checksum>, RequestError>(None),
            Some(s) => match checksum_number(s@) {
                Some(n) => r == Ok::<Option<Checksum>, RequestError>(Checksum::of(n)),
                None => r is Err && r->Err_0 is UnknownChecksum && (
                r->Err_0->UnknownChecksum_0)@ == s@,
            },
        },
{
    let n: u8 = match value {
        None => {
            return Ok(None);
        },
        Some(s) => {
            if same(s, "none") {
                0
            } else if same(s, "sha256") {
                1
            } else if same(s, "xxhash3") {
                2
            } else {
                return Err(RequestError::UnknownChecksum(s.to_owned()));
            }
        },
    };
    Ok(Checksum::from_u8(n))
}

/// Checks a bundling request: it must name an entry path or carry source code, and its checksum
/// must be known. The first that fails decides.
pub fn check_bundle_request(
    has_entrypoint: bool,
    has_module_code: bool,
    checksum: Option<&str>,
) -> (r: Result<Option<Checksum>, RequestError>)
    ensures
        !has_entrypoint && !has_module_code ==> r is Err && r->Err_0 is NothingToBundle,
        has_entrypoint || has_module_code ==> match checksum {
            None => r == Ok::<Option<Checksum>, RequestError>(None),
            Some(s) => match checksum_number(s@) {
                Some(n) => r == Ok::<Option<Checksum>, RequestError>(Checksum::of(n)),
                None => r is Err && r->Err_0 is UnknownChecksum && (
                r->Err_0->UnknownChecksum_0)@ == s@,
            },
        },
{
    if !has_entrypoint && !has_module_code {
        return Err(RequestError::NothingToBundle);
    }
    parse_checksum(checksum)
}

/// What is bundled.
pub enum BundleInput {
    /// The module at a path, which is an existing file.
    Entrypoint(String),
    /// Source code that is given in place of a file.
    Code(String),
    /// Neither.
    Nothing,
}

/// Why a bundle cannot be made.
#[derive(Debug)]
pub enum BundleFailure {
    /// The entry path is not a file.
    NoSuchEntrypoint(String),
    /// It took longer than allowed.
    TimedOut,
}

impl BundleFailure {
    pub open spec fn text(self) -> Seq<char> {
        match self {
            BundleFailure::NoSuchEntrypoint(path) => "entrypoint path does not exist ("@ + path@
                + ")"@,
            BundleFailure::TimedOut => "failed to complete the bundle within the given time"@,
        }
    }

    pub fn message(&self) -> (r: String)
        ensures
            r@ == self.text(),
    {
        match self {
            BundleFailure::NoSuchEntrypoint(path) => {
                let a = join("entrypoint path does not exist (", path.as_str());
                join(a.as_str(), ")")
            },
            BundleFailure::TimedOut
                => "failed to complete the bundle within the given time".to_owned(),
        }
    }
}

/// How a request is bundled.
pub struct BundlePlan {
    pub input: BundleInput,
    /// How the module cache is used; the default where nothing is said.
    pub cache: Option<CacheSetting>,
}

/// Decides how a request is bundled. An entry path wins over source code, and must be a file.
pub fn bundle_eszip(
    entrypoint: Option<String>,
    entrypoint_is_file: bool,
    module_code: Option<String>,
    no_module_cache: bool,
) -> (r: Result<BundlePlan, BundleFailure>)
    ensures
        r is Err <==> entrypoint is Some && !entrypoint_is_file,
        r matches Err(e) ==> e == BundleFailure::NoSuchEntrypoint(entrypoint->0),
        r matches Ok(p) ==> {
            &&& p.cache == if no_module_cache {
                Some(CacheSetting::ReloadAll)
            } else {
                None
            }
            &&& p.input == match (entrypoint, module_code) {
                (Some(e), _) => BundleInput::Entrypoint(e),
                (None, Some(c)) => BundleInput::Code(c),
                (None, None) => BundleInput::Nothing,
            }
        },
{
    let input = match entrypoint {
        Some(e) => {
            if !entrypoint_is_file {
                return Err(BundleFailure::NoSuchEntrypoint(e));
            }
            BundleInput::Entrypoint(e)
        },
        None => match module_code {
            Some(c) => BundleInput::Code(c),
            None => BundleInput::Nothing,
        },
    };
    let cache = if no_module_cache {
        Some(CacheSetting::ReloadAll)
    } else {
        None
    };
    Ok(BundlePlan { input, cache })
}

/// The expected size of a download as a hint: nought says that it is unknown.
pub fn spill_size_hint(size: u64) -> (r: Option<u64>)
    ensures
        r == if size > 0 {
            Some(size)
        } else {
            None
        },
{
    if size > 0 {
        Some(size)
    } else {
        None
    }
}

/// Where the archive of an unbundling request comes from.
pub enum UnbundleSource {
    Path(String),
    Data(Vec<u8>),
}

/// The source of an unbundling request, of which exactly one must be given.
pub fn unbundle_source(path: Option<String>, data: Option<Vec<u8>>) -> (r: Result<
    UnbundleSource,
    RequestError,
>)
    ensures
        match (path, data) {
            (Some(p), None) => r == Ok::<UnbundleSource, RequestError>(UnbundleSource::Path(p)),
            (None, Some(d)) => r == Ok::<UnbundleSource, RequestError>(UnbundleSource::Data(d)),
            _ => r is Err && r->Err_0 is NotOneSource,
        },
{
    match (path, data) {
        (Some(p), None) => Ok(UnbundleSource::Path(p)),
        (None, Some(d)) => Ok(UnbundleSource::Data(d)),
        _ => Err(RequestError::NotOneSource),
    }
}

// ---------------------------------------------------------------------------
// The byte stream
// ---------------------------------------------------------------------------

/// The stream of a bundle: it is still being made, it is being read, or it has ended.
pub enum BundleStream {
    Pending,
    Streaming { data: Vec<u8>, pos: usize },
    Done,
}

/// What came of making the bundle.
pub enum BundleOutcome {
    Ready(Vec<u8>),
    Failed(String),
    /// The thread that makes it went away without an answer.
    Lost,
}

impl BundleStream {
    /// What is still to be read.
    pub open spec fn rest(self) -> Seq<u8> {
        match self {
            BundleStream::Streaming { data, pos } => if pos <= data@.len() {
                data@.skip(pos as int)
            } else {
                Seq::empty()
            },
            _ => Seq::empty(),
        }
    }

    /// Takes in the finished bundle, or the message of the failure, after which the stream has
    /// ended.
    pub fn deliver(&mut self, outcome: BundleOutcome) -> (r: Result<(), String>)
        requires
            *old(self) is Pending,
        ensures
            match outcome {
                BundleOutcome::Ready(d) => r is Ok && *final(self) == (BundleStream::Streaming {
                    data: d,
                    pos: 0,
                }),
                BundleOutcome::Failed(m) => r == Err::<(), String>(m) && *final(self) is Done,
                BundleOutcome::Lost => r is Err && (r->Err_0)@
                    == "the eszip bundling thread exited unexpectedly"@ && *final(self) is Done,
            },
    {
        match outcome {
            BundleOutcome::Ready(data) => {
                *self = BundleStream::Streaming { data, pos: 0 };
                Ok(())
            },
            BundleOutcome::Failed(m) => {
                *self = BundleStream::Done;
                Err(m)
            },
            BundleOutcome::Lost => {
                *self = BundleStream::Done;
                Err("the eszip bundling thread exited unexpectedly".to_owned())
            },
        }
    }

    /// Reads up to `limit` bytes. Once everything has been read the stream has ended, and reads
    /// give nothing.
    pub fn read(&mut self, limit: usize) -> (r: Vec<u8>)
        requires
            !(*old(self) is Pending),
        ensures
            !(*final(self) is Pending),
            r@ == old(self).rest().take(read_size(old(self).rest(), limit as int)),
            final(self).rest() == old(self).rest().skip(
                read_size(old(self).rest(), limit as int),
            ),
            old(self).rest().len() == 0 ==> *final(self) is Done,
    {
        let ghost before = self.rest();
        let mut owned = BundleStream::Done;
        core::mem::swap(self, &mut owned);
        match owned {
            BundleStream::Streaming { data, pos } => {
                let n: usize = data.len();
                if pos >= n {
                    assert(before =~= Seq::<u8>::empty());
                    assert(before.take(0) =~= Seq::<u8>::empty());
                    assert(before.skip(0) =~= Seq::<u8>::empty());
                    return Vec::new();
                }
                let len: usize = if limit < n - pos {
                    limit
                } else {
                    n - pos
                };
                let chunk: Vec<u8> = copy_range(&data, pos, pos + len);
                assert(chunk@ =~= before.take(len as int));
                assert(data@.skip(pos + len) =~= before.skip(len as int));
                *self = BundleStream::Streaming { data, pos: pos + len };
                chunk
            },
            _ => {
                assert(before.take(0) =~= Seq::<u8>::empty());
                assert(before.skip(0) =~= Seq::<u8>::empty());
                Vec::new()
            },
        }
    }
}

/// How many bytes one read takes.
pub open spec fn read_size(rest: Seq<u8>, limit: int) -> int {
    if limit < rest.len() {
        limit
    } else {
        rest.len() as int
    }
}

/// A copy of `data[from..to]`.
pub fn copy_range(data: &Vec<u8>, from: usize, to: usize) -> (r: Vec<u8>)
    requires
        from <= to <= data@.len(),
    ensures
        r@ == data@.subrange(from as int, to as int),
{
    let mut out: Vec<u8> = Vec::new();
    let mut i: usize = from;
    while i < to
        invariant
            from <= i <= to <= data@.len(),
            out@ == data@.subrange(from as int, i as int),
        decreases to - i,
    {
        out.push(data[i]);
        i = i + 1;
        assert(data@.subrange(from as int, i as int) =~= data@.subrange(
            from as int,
            i - 1,
        ).push(data@[i - 1]));
    }
    out
}

/// What a run of reads with the given limits serves.
pub open spec fn served(rest: Seq<u8>, limits: Seq<nat>) -> Seq<u8>
    decreases limits.len(),
{
    if limits.len() == 0 {
        Seq::empty()
    } else {
        let n = read_size(rest, limits[0] as int);
        rest.take(n) + served(rest.skip(n), limits.drop_first())
    }
}

/// What a run of reads leaves.
pub open spec fn left_over(rest: Seq<u8>, limits: Seq<nat>) -> Seq<u8>
    decreases limits.len(),
{
    if limits.len() == 0 {
        rest
    } else {
        left_over(rest.skip(read_size(rest, limits[0] as int)), limits.drop_first())
    }
}

/// Reading neither loses nor repeats a byte: whatever the limits, the chunks together with what is
/// left are the bundle.
pub proof fn law_reads_reassemble_the_bundle(rest: Seq<u8>, limits: Seq<nat>)
    ensures
        served(rest, limits) + left_over(rest, limits) == rest,
    decreases limits.len(),
{
    if limits.len() > 0 {
        let n = read_size(rest, limits[0] as int);
        law_reads_reassemble_the_bundle(rest.skip(n), limits.drop_first());
        assert(rest.take(n) + rest.skip(n) =~= rest);
        assert(served(rest, limits) + left_over(rest, limits) =~= rest.take(n) + (served(
            rest.skip(n),
            limits.drop_first(),
        ) + left_over(rest.skip(n), limits.drop_first())));
    } else {
        assert(served(rest, limits) + left_over(rest, limits) =~= rest);
    }
}

/// A read gives as much as it may: up to its limit, and all that is left where that is less.
pub proof fn law_reads_give_as_much_as_they_may(rest: Seq<u8>, limit: int)
    requires
        0 <= limit,
    ensures
        read_size(rest, limit) <= limit,
        read_size(rest, limit) <= rest.len(),
        read_size(rest, limit) == limit || read_size(rest, limit) == rest.len(),
{
}

/// The checksums go by their names and by the numbers under which archives record them.
pub proof fn law_checksums_have_names_and_numbers(name: Seq<char>)
    ensures
        name == "none"@ ==> checksum_number(name) == Some(0u8) && Checksum::of(0) == Some(
            Checksum::NoChecksum,
        ),
        name == "sha256"@ ==> checksum_number(name) == Some(1u8) && Checksum::of(1) == Some(
            Checksum::Sha256,
        ),
        name == "xxhash3"@ ==> checksum_number(name) == Some(2u8) && Checksum::of(2) == Some(
            Checksum::XxHash3,
        ),
        name != "none"@ && name != "sha256"@ && name != "xxhash3"@ ==> checksum_number(name) is None,
        forall|n: u8| n > 2 ==> (#[trigger] Checksum::of(n)) is None,
{
    reveal_strlit("none");
    reveal_strlit("sha256");
    reveal_strlit("xxhash3");
    assert("none"@.len() == 4);
    assert("sha256"@.len() == 6);
    assert("xxhash3"@.len() == 7);
}


/// A stream that has its bundle still holds what comes behind the place it has come to: all of it
/// at first. A stream without one holds nothing.
pub proof fn law_streams_hold_what_is_left(s: BundleStream)
    ensures
        s matches BundleStream::Streaming { data, pos } ==> {
            &&& pos == 0 ==> s.rest() == data@
            &&& pos <= data@.len() ==> data@.take(pos as int) + s.rest() == data@
            &&& pos >= data@.len() ==> s.rest().len() == 0
        },
        !(s is Streaming) ==> s.rest().len() == 0,
{
    if let BundleStream::Streaming { data, pos } = s {
        if pos <= data@.len() {
            assert(data@.take(pos as int) + s.rest() =~= data@);
            assert(pos == 0 ==> s.rest() =~= data@);
        }
    }
}


/// A request that cannot be met names what it asked for.
pub proof fn law_refused_requests_name_their_cause(name: String)
    ensures
        RequestError::UnknownChecksum(name).text() == "invalid checksum kind: "@ + name@
            + " (expected \"none\", \"sha256\" or \"xxhash3\")"@,
        BundleFailure::NoSuchEntrypoint(name).text() == "entrypoint path does not exist ("@ + name@
            + ")"@,
{
}

} // verus!
