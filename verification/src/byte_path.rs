//! Unix paths that need not be text.

use vstd::prelude::*;
use vstd::string::*;
use vstd::utf8::*;

use crate::text::{chars_of, text_of};

verus! {

/// A Unix path: each char of `units` stands for the byte with its number. What is decided by
/// slashes and dots is decided for the units as for the bytes.
#[derive(Debug)]
pub struct BytePath {
    pub units: String,
}

impl View for BytePath {
    type V = Seq<char>;

    open spec fn view(&self) -> Seq<char> {
        self.units@
    }
}

/// The units that stand for some bytes.
pub open spec fn units_of(bytes: Seq<u8>) -> Seq<char> {
    bytes.map_values(|b: u8| b as char)
}

/// The units that stand for the bytes of a text.
pub open spec fn text_units(text: Seq<char>) -> Seq<char> {
    units_of(encode_utf8(text))
}

/// A list of paths, taken by view.
pub open spec fn path_views(v: Seq<BytePath>) -> Seq<Seq<char>> {
    v.map_values(|p: BytePath| p@)
}

impl BytePath {
    /// The path with these bytes.
    pub fn of_bytes(bytes: &[u8]) -> (r: BytePath)
        ensures
            r@ == units_of(bytes@),
    {
        let mut chars: Vec<char> = Vec::new();
        let mut i: usize = 0;
        while i < bytes.len()
            invariant
                i <= bytes@.len(),
                chars@ == units_of(bytes@).take(i as int),
            decreases bytes@.len() - i,
        {
            let c: char = bytes[i] as char;
            chars.push(c);
            assert(units_of(bytes@).take(i + 1) =~= units_of(bytes@).take(i as int).push(c));
            i = i + 1;
        }
        assert(units_of(bytes@).take(i as int) =~= units_of(bytes@));
        let n: usize = chars.len();
        let units = text_of(&chars, 0, n);
        assert(chars@.subrange(0, n as int) =~= chars@);
        BytePath { units }
    }

    /// The path that a text names.
    pub fn of_text(text: &str) -> (r: BytePath)
        ensures
            r@ == text_units(text@),
    {
        BytePath::of_bytes(text.as_bytes())
    }

    /// The bytes of the path. A char that stands for no byte is taken for a question mark.
    pub fn bytes(&self) -> (r: Vec<u8>)
        ensures
            r@ == self@.map_values(|c: char| byte_of(c)),
            forall|bytes: Seq<u8>| self@ == #[trigger] units_of(bytes) ==> r@ == bytes,
    {
        let chars = chars_of(self.units.as_str());
        let mut out: Vec<u8> = Vec::new();
        let mut i: usize = 0;
        while i < chars.len()
            invariant
                i <= chars@.len(),
                chars@ == self@,
                out@.len() == i,
                forall|j: int| 0 <= j < i ==> #[trigger] out@[j] == byte_of(chars@[j]),
            decreases chars@.len() - i,
        {
            let n: u32 = chars[i] as u32;
            let b: u8 = if n < 256 {
                n as u8
            } else {
                63
            };
            out.push(b);
            i = i + 1;
        }
        assert forall|bytes: Seq<u8>| self@ == #[trigger] units_of(bytes) implies out@ == bytes by {
            assert(out@.len() == bytes.len());
            assert forall|j: int| 0 <= j < bytes.len() implies out@[j] == bytes[j] by {
                assert(units_of(bytes)[j] == bytes[j] as char);
                assert(out@[j] == byte_of(chars@[j]));
            }
            assert(out@ =~= bytes);
        }
        assert(out@ =~= self@.map_values(|c: char| byte_of(c)));
        out
    }
}

/// The byte that a unit stands for; a question mark where it stands for none.
pub open spec fn byte_of(unit: char) -> u8 {
    if (unit as u32) < 256 {
        (unit as u32) as u8
    } else {
        63
    }
}

/// A path is known by its bytes: different bytes make different paths.
pub proof fn law_units_keep_the_bytes(a: Seq<u8>, b: Seq<u8>)
    requires
        units_of(a) == units_of(b),
    ensures
        a == b,
{
    assert(a.len() == units_of(a).len());
    assert(b.len() == units_of(b).len());
    assert forall|i: int| 0 <= i < a.len() implies a[i] == b[i] by {
        assert(units_of(a)[i] == a[i] as char);
        assert(units_of(b)[i] == b[i] as char);
    }
    assert(a =~= b);
}


/// Each byte becomes the one character with its number.
pub proof fn law_units_are_the_bytes(bytes: Seq<u8>, i: int)
    requires
        0 <= i < bytes.len(),
    ensures
        units_of(bytes).len() == bytes.len(),
        units_of(bytes)[i] as int == bytes[i] as int,
        byte_of(units_of(bytes)[i]) == bytes[i],
{
}

/// What is not a byte has no unit: in its place stands a question mark.
pub proof fn law_other_characters_are_marked(unit: char)
    ensures
        (unit as int) < 256 ==> byte_of(unit) as int == unit as int,
        unit as int >= 256 ==> byte_of(unit) as int == '?' as int,
{
}

} // verus!
