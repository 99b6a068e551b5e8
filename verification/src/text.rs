//! Text helpers over the character view of `str`.

use vstd::arithmetic::power::pow;
use vstd::prelude::*;
use vstd::string::*;

verus! {

/// `String::push` appends one character to the end of the string.
pub assume_specification[ String::push ](s: &mut String, c: char)
    ensures
        final(s)@ == old(s)@.push(c),
;

/// The characters of `s`, in order.
pub fn chars_of(s: &str) -> (r: Vec<char>)
    ensures
        r@ == s@,
{
    let mut out: Vec<char> = Vec::new();
    let mut it = s.chars();
    let ghost total = s@;
    loop
        invariant
            vstd::std_specs::iter::IteratorSpec::obeys_prophetic_iter_laws(&it),
            vstd::std_specs::iter::IteratorSpec::decrease(&it) is Some,
            out@ + vstd::std_specs::iter::IteratorSpec::remaining(&it) == total,
        ensures
            out@ == total,
        decreases vstd::std_specs::iter::IteratorSpec::decrease(&it)->0,
    {
        let ghost before = vstd::std_specs::iter::IteratorSpec::remaining(&it);
        match it.next() {
            Some(c) => {
                proof {
                    assert(before =~= seq![c] + before.drop_first());
                    assert(out@ + before =~= out@.push(c) + before.drop_first());
                }
                out.push(c);
            },
            None => {
                proof {
                    assert(out@ + before =~= out@);
                }
                break;
            },
        }
    }
    out
}

/// The string made of `chars[from..to]`.
pub fn text_of(chars: &Vec<char>, from: usize, to: usize) -> (r: String)
    requires
        from <= to <= chars@.len(),
    ensures
        r@ == chars@.subrange(from as int, to as int),
{
    let mut out = String::new();
    let mut i: usize = from;
    while i < to
        invariant
            from <= i <= to <= chars@.len(),
            out@ == chars@.subrange(from as int, i as int),
        decreases to - i,
    {
        out.push(chars[i]);
        i = i + 1;
        assert(chars@.subrange(from as int, i as int) =~= chars@.subrange(
            from as int,
            i - 1,
        ).push(chars@[i - 1]));
    }
    out
}

/// Whether `a` and `b` hold the same characters.
pub fn same(a: &str, b: &str) -> (r: bool)
    ensures
        r == (a@ == b@),
{
    let x = chars_of(a);
    let y = chars_of(b);
    if x.len() != y.len() {
        return false;
    }
    let mut i: usize = 0;
    while i < x.len()
        invariant
            i <= x@.len(),
            x@ == a@,
            y@ == b@,
            x@.len() == y@.len(),
            forall|j: int| 0 <= j < i ==> x@[j] == y@[j],
        decreases x@.len() - i,
    {
        if x[i] != y[i] {
            assert(a@[i as int] != b@[i as int]);
            return false;
        }
        i = i + 1;
    }
    assert(a@ =~= b@);
    true
}

/// Whether `s` begins with `p`.
pub fn begins_with(s: &str, p: &str) -> (r: bool)
    ensures
        r == p@.is_prefix_of(s@),
{
    let x = chars_of(s);
    let y = chars_of(p);
    if y.len() > x.len() {
        return false;
    }
    let mut i: usize = 0;
    while i < y.len()
        invariant
            i <= y@.len() <= x@.len(),
            x@ == s@,
            y@ == p@,
            forall|j: int| 0 <= j < i ==> x@[j] == y@[j],
        decreases y@.len() - i,
    {
        if x[i] != y[i] {
            assert(s@.subrange(0, p@.len() as int)[i as int] == s@[i as int]);
            return false;
        }
        i = i + 1;
    }
    assert(p@ =~= s@.subrange(0, p@.len() as int));
    true
}

/// Whether `s` ends with `p`.
pub fn finishes_with(s: &str, p: &str) -> (r: bool)
    ensures
        r == p@.is_suffix_of(s@),
{
    let n: usize = s.unicode_len();
    let m: usize = p.unicode_len();
    if m > n {
        return false;
    }
    same(s.substring_char(n - m, n), p)
}

/// What follows the prefix `p` in `s`, if `s` begins with `p`.
pub fn after_prefix<'a>(s: &'a str, p: &str) -> (r: Option<&'a str>)
    ensures
        match r {
            Some(rest) => p@.is_prefix_of(s@) && rest@ == s@.skip(p@.len() as int),
            None => !p@.is_prefix_of(s@),
        },
{
    if begins_with(s, p) {
        let n: usize = s.unicode_len();
        let m: usize = p.unicode_len();
        let rest = s.substring_char(m, n);
        assert(rest@ =~= s@.skip(p@.len() as int));
        Some(rest)
    } else {
        None
    }
}

/// The position of the first `c` in `s`.
pub open spec fn first_index(s: Seq<char>, c: char) -> Option<int>
    decreases s.len(),
{
    if s.len() == 0 {
        None
    } else if s[0] == c {
        Some(0int)
    } else {
        match first_index(s.drop_first(), c) {
            Some(i) => Some(i + 1),
            None => None,
        }
    }
}

/// `first_index` is the least index that holds `c`, and is `None` only where no index does.
pub proof fn lemma_first_index(s: Seq<char>, c: char)
    ensures
        match first_index(s, c) {
            Some(i) => 0 <= i < s.len() && s[i] == c && forall|j: int| 0 <= j < i ==> s[j] != c,
            None => !s.contains(c),
        },
    decreases s.len(),
{
    if s.len() > 0 && s[0] != c {
        let t = s.drop_first();
        lemma_first_index(t, c);
        match first_index(t, c) {
            Some(i) => {
                assert forall|j: int| 0 <= j < i + 1 implies s[j] != c by {
                    if j > 0 {
                        assert(s[j] == t[j - 1]);
                    }
                }
            },
            None => {
                assert forall|j: int| 0 <= j < s.len() implies s[j] != c by {
                    if j > 0 {
                        assert(s[j] == t[j - 1]);
                        assert(t.contains(t[j - 1]));
                    }
                }
            },
        }
    }
}

/// An index that holds `c`, with no `c` before it, is the first.
pub proof fn lemma_first_index_at(s: Seq<char>, c: char, k: int)
    requires
        0 <= k < s.len(),
        s[k] == c,
        forall|j: int| 0 <= j < k ==> s[j] != c,
    ensures
        first_index(s, c) == Some(k),
{
    lemma_first_index(s, c);
    assert(s.contains(s[k]));
}

/// The position of the first `c` among `chars`.
pub fn find_char(chars: &Vec<char>, c: char) -> (r: Option<usize>)
    ensures
        match r {
            Some(i) => first_index(chars@, c) == Some(i as int) && i < chars@.len(),
            None => first_index(chars@, c) is None,
        },
{
    let mut i: usize = 0;
    while i < chars.len()
        invariant
            i <= chars@.len(),
            forall|j: int| 0 <= j < i ==> chars@[j] != c,
        decreases chars@.len() - i,
    {
        if chars[i] == c {
            proof {
                lemma_first_index_at(chars@, c, i as int);
            }
            return Some(i);
        }
        i = i + 1;
    }
    proof {
        lemma_first_index(chars@, c);
    }
    None
}

/// Whether `c` occurs in `s`.
pub fn has_char(s: &str, c: char) -> (r: bool)
    ensures
        r == s@.contains(c),
{
    let v = chars_of(s);
    proof {
        lemma_first_index(s@, c);
    }
    match find_char(&v, c) {
        Some(_) => true,
        None => false,
    }
}

/// `s` cut at its first `c`, which is left out.
pub fn cut_at(s: &str, c: char) -> (r: Option<(String, String)>)
    ensures
        match first_index(s@, c) {
            Some(i) => r is Some && (r->0).0@ == s@.take(i) && (r->0).1@ == s@.skip(i + 1),
            None => r is None,
        },
{
    let v = chars_of(s);
    let n: usize = v.len();
    match find_char(&v, c) {
        Some(i) => {
            let a = text_of(&v, 0, i);
            let b = text_of(&v, i + 1, n);
            assert(a@ =~= s@.take(i as int));
            assert(b@ =~= s@.skip(i + 1));
            Some((a, b))
        },
        None => None,
    }
}

/// The runs of characters between separators, empty runs included.
pub open spec fn splits(s: Seq<char>, sep: char) -> Seq<Seq<char>>
    decreases s.len(),
{
    if s.len() == 0 {
        seq![Seq::<char>::empty()]
    } else {
        let rest = splits(s.drop_last(), sep);
        if s.last() == sep {
            rest.push(Seq::empty())
        } else {
            rest.drop_last().push(rest.last().push(s.last()))
        }
    }
}

/// The runs of characters of `s` between separators.
pub fn split_on(s: &str, sep: char) -> (r: Vec<String>)
    ensures
        r@.map_values(|t: String| t@) == splits(s@, sep),
{
    let v = chars_of(s);
    let mut done: Vec<String> = Vec::new();
    let mut last = String::new();
    let mut i: usize = 0;
    let ghost f = |t: String| t@;
    assert(s@.take(0) =~= Seq::<char>::empty());
    assert(done@.map_values(f).push(last@) =~= splits(s@.take(0), sep));
    while i < v.len()
        invariant
            v@ == s@,
            i <= v@.len(),
            f == (|t: String| t@),
            done@.map_values(f).push(last@) == splits(s@.take(i as int), sep),
        decreases v@.len() - i,
    {
        let c = v[i];
        let ghost before = done@.map_values(f).push(last@);
        assert(s@.take(i + 1).drop_last() =~= s@.take(i as int));
        assert(s@.take(i + 1).last() == c);
        assert(before.drop_last() =~= done@.map_values(f));
        assert(before.last() == last@);
        if c == sep {
            assert(done@.push(last).map_values(f) =~= before);
            done.push(last);
            last = String::new();
        } else {
            last.push(c);
        }
        i = i + 1;
    }
    assert(s@.take(i as int) =~= s@);
    assert(done@.push(last).map_values(f) =~= done@.map_values(f).push(last@));
    done.push(last);
    done
}

/// `a` followed by `b`.
pub fn join(a: &str, b: &str) -> (r: String)
    ensures
        r@ == a@ + b@,
{
    let s: String = a.to_owned();
    s.concat(b)
}

// ---------------------------------------------------------------------------
// Numbers
// ---------------------------------------------------------------------------

pub open spec fn is_digit(c: char) -> bool {
    '0' <= c && c <= '9'
}

/// Whether `s` holds digits alone.
pub open spec fn all_digits(s: Seq<char>) -> bool {
    forall|i: int| 0 <= i < s.len() ==> is_digit(#[trigger] s[i])
}

pub open spec fn digit_value(c: char) -> int {
    c as int - '0' as int
}

/// The number that a run of decimal digits writes.
pub open spec fn decimal_value(s: Seq<char>) -> int
    decreases s.len(),
{
    if s.len() == 0 {
        0
    } else {
        decimal_value(s.drop_last()) * 10 + digit_value(s.last())
    }
}

/// `s` without one leading plus sign.
pub open spec fn unsigned_digits(s: Seq<char>) -> Seq<char> {
    if s.len() > 0 && s[0] == '+' {
        s.drop_first()
    } else {
        s
    }
}

/// The unsigned number that `s` writes: an optional plus sign and at least one digit, and a value
/// of at most `max`.
pub open spec fn unsigned_number(s: Seq<char>, max: int) -> Option<int> {
    let d = unsigned_digits(s);
    if d.len() > 0 && all_digits(d) && decimal_value(d) <= max {
        Some(decimal_value(d))
    } else {
        None
    }
}

proof fn lemma_decimal_nonnegative(s: Seq<char>)
    requires
        all_digits(s),
    ensures
        decimal_value(s) >= 0,
    decreases s.len(),
{
    if s.len() > 0 {
        assert(all_digits(s.drop_last())) by {
            assert forall|i: int| 0 <= i < s.drop_last().len() implies is_digit(
                #[trigger] s.drop_last()[i],
            ) by {
                assert(s.drop_last()[i] == s[i]);
            }
        }
        lemma_decimal_nonnegative(s.drop_last());
        assert(is_digit(s[s.len() - 1]));
    }
}

/// A longer run of digits never writes a smaller number.
proof fn lemma_decimal_grows(s: Seq<char>, k: int)
    requires
        0 <= k <= s.len(),
        all_digits(s),
    ensures
        decimal_value(s.take(k)) <= decimal_value(s),
        decimal_value(s.take(k)) >= 0,
    decreases s.len() - k,
{
    assert(all_digits(s.take(k))) by {
        assert forall|i: int| 0 <= i < s.take(k).len() implies is_digit(
            #[trigger] s.take(k)[i],
        ) by {
            assert(s.take(k)[i] == s[i]);
        }
    }
    lemma_decimal_nonnegative(s.take(k));
    if k < s.len() {
        lemma_decimal_grows(s, k + 1);
        assert(s.take(k + 1).drop_last() =~= s.take(k));
        assert(is_digit(s[k]));
        assert(decimal_value(s.take(k + 1)) == decimal_value(s.take(k)) * 10 + digit_value(s[k]));
    } else {
        assert(s.take(k) =~= s);
    }
}

/// The unsigned number that `s` writes, if it is one of at most `max`.
pub fn parse_unsigned(s: &str, max: u64) -> (r: Option<u64>)
    ensures
        match r {
            Some(n) => unsigned_number(s@, max as int) == Some(n as int),
            None => unsigned_number(s@, max as int) is None,
        },
{
    let v = chars_of(s);
    let ghost d = unsigned_digits(s@);
    let start: usize = if v.len() > 0 && v[0] == '+' {
        1
    } else {
        0
    };
    assert(d =~= s@.skip(start as int));
    if start == v.len() {
        return None;
    }
    let mut i: usize = start;
    let mut acc: u64 = 0;
    proof {
        assert(d.take(0) =~= Seq::<char>::empty());
    }
    while i < v.len()
        invariant
            v@ == s@,
            start <= i <= v@.len(),
            d == s@.skip(start as int),
            d == unsigned_digits(s@),
            d.len() == v@.len() - start,
            forall|j: int| 0 <= j < i - start ==> is_digit(#[trigger] d[j]),
            acc as int == decimal_value(d.take(i - start)),
            acc <= max,
        decreases v@.len() - i,
    {
        let c = v[i];
        let ghost k = i - start;
        assert(d[k] == c);
        if !('0' <= c && c <= '9') {
            return None;
        }
        let x: u64 = c as u64 - '0' as u64;
        assert(d.take(k + 1).drop_last() =~= d.take(k));
        assert(decimal_value(d.take(k + 1)) == decimal_value(d.take(k)) * 10 + digit_value(c));
        let fits = acc <= (u64::MAX - x) / 10;
        if !fits || acc * 10 + x > max {
            proof {
                if all_digits(d) {
                    lemma_decimal_grows(d, k + 1);
                }
            }
            return None;
        }
        acc = acc * 10 + x;
        i = i + 1;
    }
    assert(d.take(i - start) =~= d);
    assert(all_digits(d));
    Some(acc)
}

/// The decimal digits of `n`, without leading zeros.
pub open spec fn decimal_text(n: nat) -> Seq<char>
    decreases n,
{
    if n < 10 {
        seq![digit_char(n)]
    } else {
        decimal_text(n / 10).push(digit_char(n % 10))
    }
}

/// The character of a digit below sixteen, in lower case.
pub open spec fn digit_char(d: nat) -> char {
    if d == 0 { '0' } else if d == 1 { '1' } else if d == 2 { '2' } else if d == 3 { '3' }
    else if d == 4 { '4' } else if d == 5 { '5' } else if d == 6 { '6' } else if d == 7 { '7' }
    else if d == 8 { '8' } else if d == 9 { '9' } else if d == 10 { 'a' } else if d == 11 { 'b' }
    else if d == 12 { 'c' } else if d == 13 { 'd' } else if d == 14 { 'e' } else { 'f' }
}

fn digit_char_of(d: u64) -> (c: char)
    requires
        d < 16,
    ensures
        c == digit_char(d as nat),
{
    if d == 0 { '0' } else if d == 1 { '1' } else if d == 2 { '2' } else if d == 3 { '3' }
    else if d == 4 { '4' } else if d == 5 { '5' } else if d == 6 { '6' } else if d == 7 { '7' }
    else if d == 8 { '8' } else if d == 9 { '9' } else if d == 10 { 'a' } else if d == 11 { 'b' }
    else if d == 12 { 'c' } else if d == 13 { 'd' } else if d == 14 { 'e' } else { 'f' }
}

/// `n` written in decimal.
pub fn decimal(n: u64) -> (r: String)
    ensures
        r@ == decimal_text(n as nat),
    decreases n,
{
    if n < 10 {
        let mut s = String::new();
        s.push(digit_char_of(n));
        assert(s@ =~= seq![digit_char(n as nat)]);
        s
    } else {
        let mut s = decimal(n / 10);
        s.push(digit_char_of(n % 10));
        s
    }
}

/// The last `width` hexadecimal digits of `n`, in lower case and with leading zeros.
pub open spec fn hex_text(n: nat, width: nat) -> Seq<char>
    decreases width,
{
    if width == 0 {
        Seq::empty()
    } else {
        hex_text(n / 16, (width - 1) as nat).push(digit_char(n % 16))
    }
}

fn hex(n: u64, width: u64) -> (r: String)
    ensures
        r@ == hex_text(n as nat, width as nat),
    decreases width,
{
    if width == 0 {
        String::new()
    } else {
        let mut s = hex(n / 16, width - 1);
        s.push(digit_char_of(n % 16));
        s
    }
}

/// `n` as sixteen lower-case hexadecimal digits.
pub fn hex16(n: u64) -> (r: String)
    ensures
        r@ == hex_text(n as nat, 16),
{
    hex(n, 16)
}


// ---------------------------------------------------------------------------
// Laws
// ---------------------------------------------------------------------------

/// A number that is written out in decimal reads back as itself, with or without a plus sign and
/// with any number of leading zeros, as long as it is within the bound.
pub proof fn law_numbers_read_back(n: nat, max: int, zeros: Seq<char>)
    requires
        forall|i: int| 0 <= i < zeros.len() ==> zeros[i] == '0',
    ensures
        n <= max ==> {
            &&& unsigned_number(decimal_text(n), max) == Some(n as int)
            &&& unsigned_number(zeros + decimal_text(n), max) == Some(n as int)
            &&& unsigned_number(seq!['+'] + decimal_text(n), max) == Some(n as int)
        },
        n > max ==> {
            &&& unsigned_number(decimal_text(n), max) is None
            &&& unsigned_number(zeros + decimal_text(n), max) is None
            &&& unsigned_number(seq!['+'] + decimal_text(n), max) is None
        },
{
    let t = decimal_text(n);
    lemma_decimal_text(n);
    lemma_leading_zeros(zeros, t);
    assert((seq!['+'] + t).drop_first() =~= t);
    let z = zeros + t;
    assert(is_digit(z[0]));
    assert(all_digits(z)) by {
        assert forall|i: int| 0 <= i < z.len() implies is_digit(#[trigger] z[i]) by {
            if i >= zeros.len() {
                assert(is_digit(t[i - zeros.len()]));
            }
        }
    }
    assert(is_digit(t[0]));
}

proof fn lemma_decimal_text(n: nat)
    ensures
        decimal_text(n).len() > 0,
        all_digits(decimal_text(n)),
        decimal_value(decimal_text(n)) == n,
    decreases n,
{
    let t = decimal_text(n);
    reveal_with_fuel(decimal_value, 2);
    if n >= 10 {
        lemma_decimal_text(n / 10);
        assert(t.drop_last() =~= decimal_text(n / 10));
    } else {
        assert(t.drop_last() =~= Seq::<char>::empty());
    }
}

proof fn lemma_leading_zeros(zeros: Seq<char>, s: Seq<char>)
    requires
        forall|i: int| 0 <= i < zeros.len() ==> zeros[i] == '0',
    ensures
        decimal_value(zeros + s) == decimal_value(s),
    decreases zeros.len() + s.len(),
{
    if s.len() > 0 {
        assert((zeros + s).drop_last() =~= zeros + s.drop_last());
        lemma_leading_zeros(zeros, s.drop_last());
    } else if zeros.len() > 0 {
        assert(zeros + s =~= zeros);
        lemma_leading_zeros(zeros.drop_last(), s);
        assert(zeros.drop_last() + s =~= zeros.drop_last());
        assert((zeros + s).drop_last() =~= zeros.drop_last());
    } else {
        assert(zeros + s =~= s);
    }
}

/// A number is written with the digits from 0 to 9 and nothing else, but for a plus sign in front
/// of them; a text of digits stands for the number that schoolbook reading gives: each further
/// digit adds its worth to ten times what came before.
pub proof fn law_numbers_are_digits(s: Seq<char>, c: char, max: int)
    requires
        max >= 0,
    ensures
        unsigned_number(s, max) is Some ==> {
            &&& s.len() > 0
            &&& '0' <= s.last() <= '9'
            &&& forall|i: int| 0 < i < s.len() ==> '0' <= #[trigger] s[i] <= '9'
            &&& s[0] == '+' || '0' <= s[0] <= '9'
            &&& 0 <= unsigned_number(s, max)->0 <= max
        },
        '0' <= c <= '9' && unsigned_number(s, max) is Some && unsigned_number(s, max)->0 * 10 + (
        c as int - 48) <= max ==> unsigned_number(s.push(c), max) == Some(
            unsigned_number(s, max)->0 * 10 + (c as int - 48),
        ),
        !('0' <= c <= '9') ==> unsigned_number(s.push(c), max) is None,
{
    let d = unsigned_digits(s);
    if unsigned_number(s, max) is Some {
        lemma_decimal_nonnegative(d);
        assert(d.last() == s.last());
        assert(is_digit(d[d.len() - 1]));
        assert forall|i: int| 0 < i < s.len() implies '0' <= #[trigger] s[i] <= '9' by {
            if s[0] == '+' {
                assert(is_digit(d[i - 1]));
            } else {
                assert(is_digit(d[i]));
            }
        }
        assert(s[0] != '+' ==> is_digit(d[0]));
    }
    let t = s.push(c);
    let e = unsigned_digits(t);
    if s.len() > 0 {
        assert(e =~= d.push(c));
        assert(e.drop_last() =~= d);
        if all_digits(d) && is_digit(c) {
            assert forall|i: int| 0 <= i < e.len() implies is_digit(#[trigger] e[i]) by {
                if i < d.len() {
                    assert(is_digit(d[i]));
                }
            }
        }
    }
    if !is_digit(c) && e.len() > 0 {
        assert(e.last() == c);
        assert(!is_digit(e[e.len() - 1]));
    }
}

/// What the digits of a hexadecimal number are worth together.
pub open spec fn hex_value(s: Seq<char>) -> int {
    s.fold_left(
        0int,
        |sum: int, c: char|
            sum * 16 + if c <= '9' {
                c as int - 48
            } else {
                c as int - 97 + 10
            },
    )
}

/// A number in hexadecimal has the width asked for, is made of the digits 0 to 9 and a to f, and
/// is worth the number, as far as the width reaches.
pub proof fn law_hex_spells_the_number(n: nat, width: nat)
    ensures
        hex_text(n, width).len() == width,
        forall|i: int|
            0 <= i < width ==> '0' <= #[trigger] hex_text(n, width)[i] <= '9' || 'a' <= hex_text(
                n,
                width,
            )[i] <= 'f',
        n < pow(16, width) ==> hex_value(hex_text(n, width)) == n,
    decreases width,
{
    reveal(pow);
    let t = hex_text(n, width);
    if width > 0 {
        let w = (width - 1) as nat;
        law_hex_spells_the_number(n / 16, w);
        assert(t.drop_last() =~= hex_text(n / 16, w));
        assert forall|i: int| 0 <= i < width implies '0' <= #[trigger] t[i] <= '9' || 'a' <= t[i]
            <= 'f' by {
            if i < w {
                assert(t[i] == hex_text(n / 16, w)[i]);
            }
        }
        if n < pow(16, width) {
            assert(pow(16, width) == 16 * pow(16, w));
            assert(n / 16 < pow(16, w));
        }
    }
}

/// Numbers that differ are spelled differently.
pub proof fn law_hex_tells_numbers_apart(a: u64, b: u64)
    requires
        hex_text(a as nat, 16) == hex_text(b as nat, 16),
    ensures
        a == b,
{
    law_hex_spells_the_number(a as nat, 16);
    law_hex_spells_the_number(b as nat, 16);
    assert(pow(16, 16) == 0x1_0000_0000_0000_0000) by {
        reveal_with_fuel(pow, 17);
    }
}

/// A text without the separator is one part; behind a separator a part of its own begins.
pub proof fn law_parts_lie_between_separators(a: Seq<char>, b: Seq<char>, sep: char)
    requires
        !b.contains(sep),
    ensures
        splits(b, sep) == seq![b],
        splits(a + seq![sep] + b, sep) == splits(a, sep).push(b),
    decreases b.len(),
{
    let whole = a + seq![sep] + b;
    if b.len() == 0 {
        assert(b =~= Seq::<char>::empty());
        assert(whole.drop_last() =~= a);
    } else {
        let c = b.last();
        assert(b.contains(c));
        let shorter = b.drop_last();
        assert(!shorter.contains(sep)) by {
            if shorter.contains(sep) {
                let k = shorter.index_of(sep);
                assert(b[k] == sep);
            }
        }
        law_parts_lie_between_separators(a, shorter, sep);
        assert(whole.drop_last() =~= a + seq![sep] + shorter);
        assert(shorter.push(c) =~= b);
        assert(seq![shorter].drop_last().push(shorter.push(c)) =~= seq![b]);
        assert(splits(a, sep).push(shorter).drop_last() =~= splits(a, sep));
    }
}

} // verus!
