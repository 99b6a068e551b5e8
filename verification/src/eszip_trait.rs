//! What every reader of an archive shares: the keys of its internal items, and ranged reads.

use vstd::prelude::*;

use crate::text::join;

verus! {

/// The version that archives are written with.
pub const FLOW_ESZIP_VERSION: [u8; 3] = [50, 46, 48];

/// The key that the version is kept under.
pub const FLOW_ESZIP_VERSION_KEY: &'static str = "---FLOW-ESZIP-VERSION-ESZIP---";

/// The key that the metadata are kept under.
pub const METADATA_KEY: &'static str = "---EDGE-RUNTIME-METADATA---";

/// The least of a position and a length.
pub open spec fn clamp(pos: int, len: int) -> int {
    if pos < len {
        pos
    } else {
        len
    }
}

/// A copy of the bytes of `source` from `pos` on, `limit` of them at most. Both ends are clamped to
/// the length.
pub fn slice_source_range(source: &[u8], pos: u64, limit: usize) -> (r: Vec<u8>)
    ensures
        ({
            let start = clamp(pos as int, source@.len() as int);
            r@ == source@.subrange(start, clamp(start + limit, source@.len() as int))
        }),
{
    let len: usize = source.len();
    let start: usize = if pos < len as u64 {
        pos as usize
    } else {
        len
    };
    let wanted: usize = start.saturating_add(limit);
    let end: usize = if wanted < len {
        wanted
    } else {
        len
    };
    let mut out: Vec<u8> = Vec::new();
    let mut i: usize = start;
    while i < end
        invariant
            start <= i <= end <= source@.len(),
            out@ == source@.subrange(start as int, i as int),
        decreases end - i,
    {
        out.push(source[i]);
        i = i + 1;
        assert(source@.subrange(start as int, i as int) =~= source@.subrange(
            start as int,
            i - 1,
        ).push(source@[i - 1]));
    }
    out
}

/// The specifier of a read that found no content.
#[derive(Debug)]
pub struct NoContent {
    pub specifier: String,
}

impl NoContent {
    pub fn message(&self) -> (r: String)
        ensures
            r@ == "no content available for "@ + self.specifier@,
    {
        join("no content available for ", self.specifier.as_str())
    }
}

/// Reads a range of the source of `specifier`, where there is one. At or past its end the result
/// is empty.
pub fn read_source_range(source: Option<&[u8]>, specifier: &str, pos: u64, limit: usize) -> (r:
    Result<Vec<u8>, NoContent>)
    ensures
        match source {
            Some(s) => r is Ok && ({
                let start = clamp(pos as int, s@.len() as int);
                (r->Ok_0)@ == s@.subrange(start, clamp(start + limit, s@.len() as int))
            }),
            None => r is Err && (r->Err_0).specifier@ == specifier@,
        },
{
    match source {
        Some(s) => Ok(slice_source_range(s, pos, limit)),
        None => Err(NoContent { specifier: specifier.to_owned() }),
    }
}

/// What a ranged read gives.
pub open spec fn range_of(source: Seq<u8>, pos: int, limit: int) -> Seq<u8> {
    let start = clamp(pos, source.len() as int);
    source.subrange(start, clamp(start + limit, source.len() as int))
}

/// Ranged reads that follow one another read on where the last one stopped: two in a row give what
/// one read of both limits gives.
pub proof fn law_ranged_reads_continue(source: Seq<u8>, pos: int, a: int, b: int)
    requires
        0 <= pos,
        0 <= a,
        0 <= b,
    ensures
        range_of(source, pos, a) + range_of(source, pos + a, b) == range_of(source, pos, a + b),
{
    assert(range_of(source, pos, a) + range_of(source, pos + a, b) =~= range_of(
        source,
        pos,
        a + b,
    ));
}

/// A read at or past the end gives nothing, and no read gives more than its limit.
pub proof fn law_ranged_reads_are_clamped(source: Seq<u8>, pos: int, limit: int)
    requires
        0 <= pos,
        0 <= limit,
    ensures
        pos >= source.len() ==> range_of(source, pos, limit).len() == 0,
        range_of(source, pos, limit).len() <= limit,
        pos <= source.len() && pos + limit <= source.len() ==> range_of(source, pos, limit)
            == source.subrange(pos, pos + limit),
{
}


/// A read that goes past the end stops there.
pub proof fn law_ranged_reads_stop_at_the_end(source: Seq<u8>, pos: int, limit: int)
    requires
        0 <= pos <= source.len(),
        pos + limit > source.len(),
    ensures
        range_of(source, pos, limit) == source.skip(pos),
{
    assert(range_of(source, pos, limit) =~= source.skip(pos));
}

} // verus!
