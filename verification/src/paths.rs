//! Unix path text, read as a sequence of components.

use vstd::prelude::*;
use vstd::string::*;

use crate::text::{chars_of, same, text_of};

verus! {

/// The runs of characters between slashes, empty runs included.
pub open spec fn pieces(s: Seq<char>) -> Seq<Seq<char>>
    decreases s.len(),
{
    if s.len() == 0 {
        seq![Seq::<char>::empty()]
    } else {
        let rest = pieces(s.drop_last());
        if s.last() == '/' {
            rest.push(Seq::empty())
        } else {
            rest.drop_last().push(rest.last().push(s.last()))
        }
    }
}

/// Whether a piece stands for a component of its own.
pub open spec fn is_named(piece: Seq<char>) -> bool {
    piece.len() > 0 && piece != seq!['.']
}

/// Whether the path starts at the root.
pub open spec fn is_absolute(s: Seq<char>) -> bool {
    s.len() > 0 && s[0] == '/'
}

/// The component that a path opens with before its named ones: the root, or a leading dot.
pub open spec fn path_head(s: Seq<char>) -> Seq<Seq<char>> {
    if is_absolute(s) {
        seq![seq!['/']]
    } else if pieces(s)[0] == seq!['.'] {
        seq![seq!['.']]
    } else {
        Seq::empty()
    }
}

/// The components of a path: repeated slashes, a trailing slash and inner dots do not count.
pub open spec fn components(s: Seq<char>) -> Seq<Seq<char>> {
    path_head(s) + pieces(s).filter(|p: Seq<char>| is_named(p))
}

/// Whether `base` is `path` or one of its ancestors, by whole components.
pub open spec fn lies_under(path: Seq<char>, base: Seq<char>) -> bool {
    components(base).is_prefix_of(components(path))
}

/// A list of texts, taken by view.
pub open spec fn views(v: Seq<String>) -> Seq<Seq<char>> {
    v.map_values(|s: String| s@)
}

pub proof fn lemma_views_push(v: Seq<String>, s: String)
    ensures
        views(v.push(s)) == views(v).push(s@),
{
    assert(views(v.push(s)) =~= views(v).push(s@));
}

/// The same texts once more.
pub fn copy_texts(v: &Vec<String>) -> (r: Vec<String>)
    ensures
        views(r@) == views(v@),
{
    let mut out: Vec<String> = Vec::new();
    let mut i: usize = 0;
    assert(views(out@) =~= views(v@).take(0));
    while i < v.len()
        invariant
            i <= v@.len(),
            views(out@) == views(v@).take(i as int),
        decreases v@.len() - i,
    {
        let s = v[i].clone();
        proof {
            lemma_views_push(out@, s);
            assert(views(v@).take(i + 1) =~= views(v@).take(i as int).push(s@));
        }
        out.push(s);
        i = i + 1;
    }
    assert(views(v@).take(i as int) =~= views(v@));
    out
}

pub proof fn lemma_pieces_nonempty(s: Seq<char>)
    ensures
        pieces(s).len() > 0,
    decreases s.len(),
{
    if s.len() > 0 {
        lemma_pieces_nonempty(s.drop_last());
    }
}

/// A piece never holds a slash.
pub proof fn lemma_piece_has_no_slash(s: Seq<char>, i: int)
    requires
        0 <= i < pieces(s).len(),
    ensures
        !pieces(s)[i].contains('/'),
    decreases s.len(),
{
    if s.len() > 0 {
        let t = s.drop_last();
        lemma_pieces_nonempty(t);
        if i < pieces(t).len() {
            lemma_piece_has_no_slash(t, i);
            if s.last() != '/' && i == pieces(t).len() - 1 {
                let p = pieces(t).last();
                assert forall|j: int| 0 <= j < p.push(s.last()).len() implies p.push(s.last())[j]
                    != '/' by {
                    if j < p.len() {
                        assert(p.contains(p[j]));
                    }
                }
            }
        }
    }
}

/// The pieces of `s`.
fn split_pieces(s: &str) -> (r: Vec<String>)
    ensures
        views(r@) == pieces(s@),
        r@.len() > 0,
{
    let v = chars_of(s);
    let mut done: Vec<String> = Vec::new();
    let mut last = String::new();
    let mut i: usize = 0;
    assert(s@.take(0) =~= Seq::<char>::empty());
    assert(views(done@).push(last@) =~= pieces(s@.take(0)));
    while i < v.len()
        invariant
            v@ == s@,
            i <= v@.len(),
            views(done@).push(last@) == pieces(s@.take(i as int)),
        decreases v@.len() - i,
    {
        let c = v[i];
        let ghost before = views(done@).push(last@);
        assert(s@.take(i + 1).drop_last() =~= s@.take(i as int));
        assert(s@.take(i + 1).last() == c);
        assert(before.drop_last() =~= views(done@));
        assert(before.last() == last@);
        if c == '/' {
            proof {
                lemma_views_push(done@, last);
            }
            done.push(last);
            last = String::new();
        } else {
            last.push(c);
        }
        i = i + 1;
    }
    assert(s@.take(i as int) =~= s@);
    proof {
        lemma_views_push(done@, last);
    }
    done.push(last);
    done
}

/// Whether `piece` is a component of its own.
fn named(piece: &String) -> (r: bool)
    ensures
        r == is_named(piece@),
{
    proof {
        reveal_strlit(".");
        assert("."@ =~= seq!['.']);
    }
    !piece.as_str().is_empty() && !same(piece.as_str(), ".")
}

/// The components of the path `s`.
pub fn split_components(s: &str) -> (r: Vec<String>)
    ensures
        views(r@) == components(s@),
{
    let parts = split_pieces(s);
    let v = chars_of(s);
    let mut out: Vec<String> = Vec::new();
    proof {
        reveal_strlit(".");
        reveal_strlit("/");
        assert("."@ =~= seq!['.']);
        assert("/"@ =~= seq!['/']);
        assert(pieces(s@)[0] == views(parts@)[0]);
    }
    if v.len() > 0 && v[0] == '/' {
        out.push("/".to_owned());
        assert(views(out@) =~= path_head(s@));
    } else if same(parts[0].as_str(), ".") {
        out.push(".".to_owned());
        assert(views(out@) =~= path_head(s@));
    }
    assert(views(out@) =~= path_head(s@));
    let ghost head = path_head(s@);
    let ghost pred = |p: Seq<char>| is_named(p);
    let mut i: usize = 0;
    assert(views(parts@).take(0).filter(pred) =~= Seq::<Seq<char>>::empty()) by {
        reveal(Seq::filter);
    }
    assert(head + views(parts@).take(0).filter(pred) =~= head);
    while i < parts.len()
        invariant
            i <= parts@.len(),
            pred == (|p: Seq<char>| is_named(p)),
            views(out@) == head + views(parts@).take(i as int).filter(pred),
        decreases parts@.len() - i,
    {
        let ghost so_far = views(parts@).take(i as int);
        assert(views(parts@).take(i + 1) =~= so_far.push(parts@[i as int]@));
        proof {
            so_far.lemma_filter_push(parts@[i as int]@, pred);
        }
        if named(&parts[i]) {
            let p = parts[i].clone();
            proof {
                lemma_views_push(out@, p);
            }
            out.push(p);
            assert(views(out@) =~= head + views(parts@).take(i + 1).filter(pred));
        }
        i = i + 1;
    }
    assert(views(parts@).take(i as int) =~= views(parts@));
    out
}

/// Whether `small` is a prefix of `large`, text by text.
pub fn is_text_prefix(small: &Vec<String>, large: &Vec<String>) -> (r: bool)
    ensures
        r == views(small@).is_prefix_of(views(large@)),
{
    if small.len() > large.len() {
        return false;
    }
    let mut i: usize = 0;
    while i < small.len()
        invariant
            i <= small@.len() <= large@.len(),
            forall|j: int| 0 <= j < i ==> views(small@)[j] == views(large@)[j],
        decreases small@.len() - i,
    {
        if !same(small[i].as_str(), large[i].as_str()) {
            assert(views(small@)[i as int] != views(large@)[i as int]);
            assert(views(large@).subrange(0, views(small@).len() as int)[i as int]
                == views(large@)[i as int]);
            return false;
        }
        i = i + 1;
    }
    assert(views(small@) =~= views(large@).subrange(0, views(small@).len() as int));
    true
}

/// Whether the path `path` is `base` or lies under it, by whole components.
pub fn starts_with(path: &str, base: &str) -> (r: bool)
    ensures
        r == lies_under(path@, base@),
{
    let a = split_components(base);
    let b = split_components(path);
    is_text_prefix(&a, &b)
}

/// Whether two texts name the same path: whole components are compared, so that repeated and
/// trailing slashes make no difference.
pub fn same_path(a: &str, b: &str) -> (r: bool)
    ensures
        r == (components(a@) == components(b@)),
{
    let x = split_components(a);
    let y = split_components(b);
    assert(views(x@).len() == x@.len());
    assert(views(y@).len() == y@.len());
    if x.len() != y.len() {
        return false;
    }
    let r = is_text_prefix(&x, &y);
    assert(views(y@).subrange(0, x@.len() as int) =~= views(y@));
    r
}

/// Whether the path starts at the root.
pub fn absolute(path: &str) -> (r: bool)
    ensures
        r == is_absolute(path@),
{
    let v = chars_of(path);
    v.len() > 0 && v[0] == '/'
}

/// The text of `name` under `base`; an absolute `name` stands alone.
pub open spec fn joined(base: Seq<char>, name: Seq<char>) -> Seq<char> {
    if is_absolute(name) {
        name
    } else if base.len() > 0 && base.last() != '/' {
        base.push('/') + name
    } else {
        base + name
    }
}

/// The path of `name` under `base`.
pub fn join_path(base: &str, name: &str) -> (r: String)
    ensures
        r@ == joined(base@, name@),
{
    if absolute(name) {
        return name.to_owned();
    }
    let v = chars_of(base);
    let n: usize = v.len();
    let mut s: String = base.to_owned();
    if n > 0 && v[n - 1] != '/' {
        s.push('/');
    }
    s.concat(name)
}

/// The path that is made by putting components one under the other.
pub open spec fn joined_all(parts: Seq<Seq<char>>) -> Seq<char>
    decreases parts.len(),
{
    if parts.len() == 0 {
        Seq::empty()
    } else {
        joined(joined_all(parts.drop_last()), parts.last())
    }
}

/// The path made of `parts[from..to]`.
pub fn join_components(parts: &Vec<String>, from: usize, to: usize) -> (r: String)
    requires
        from <= to <= parts@.len(),
    ensures
        r@ == joined_all(views(parts@).subrange(from as int, to as int)),
{
    let mut out = String::new();
    let mut i: usize = from;
    assert(views(parts@).subrange(from as int, from as int) =~= Seq::<Seq<char>>::empty());
    while i < to
        invariant
            from <= i <= to <= parts@.len(),
            out@ == joined_all(views(parts@).subrange(from as int, i as int)),
        decreases to - i,
    {
        out = join_path(out.as_str(), parts[i].as_str());
        i = i + 1;
        assert(views(parts@).subrange(from as int, i as int).drop_last() =~= views(
            parts@,
        ).subrange(from as int, i - 1));
        assert(views(parts@).subrange(from as int, i as int).last() == parts@[i - 1]@);
    }
    out
}

/// The path that `path` lies in. The root and the empty path lie in nothing.
pub open spec fn parent(path: Seq<char>) -> Option<Seq<char>> {
    let c = components(path);
    if c.len() == 0 || c.last() == seq!['/'] {
        None
    } else {
        Some(joined_all(c.drop_last()))
    }
}

/// The path that `path` lies in, if any.
pub fn parent_path(path: &str) -> (r: Option<String>)
    ensures
        match r {
            Some(p) => parent(path@) == Some(p@),
            None => parent(path@) is None,
        },
{
    let c = split_components(path);
    let n: usize = c.len();
    if n == 0 {
        return None;
    }
    proof {
        reveal_strlit("/");
        assert("/"@ =~= seq!['/']);
        assert(views(c@).last() == c@[n - 1]@);
    }
    if same(c[n - 1].as_str(), "/") {
        return None;
    }
    assert(views(c@).subrange(0, n - 1) =~= views(c@).drop_last());
    Some(join_components(&c, 0, n - 1))
}

/// The last component of a path, where it names something.
pub open spec fn file_name(s: Seq<char>) -> Option<Seq<char>> {
    let c = components(s);
    if c.len() == 0 || c.last() == seq!['/'] || c.last() == seq!['.'] || c.last() == seq!['.', '.'] {
        None
    } else {
        Some(c.last())
    }
}

/// The position of the last `c` in `s`.
pub open spec fn last_index(s: Seq<char>, c: char) -> Option<int>
    decreases s.len(),
{
    if s.len() == 0 {
        None
    } else if s.last() == c {
        Some(s.len() - 1)
    } else {
        last_index(s.drop_last(), c)
    }
}

/// The extension of a path: what follows the last dot of its file name, unless that dot is the
/// name's first character.
pub open spec fn extension(s: Seq<char>) -> Option<Seq<char>> {
    match file_name(s) {
        Some(n) => match last_index(n, '.') {
            Some(i) => if i > 0 {
                Some(n.skip(i + 1))
            } else {
                None
            },
            None => None,
        },
        None => None,
    }
}

/// The position of the last `c` among `chars`.
pub fn find_last(chars: &Vec<char>, c: char) -> (r: Option<usize>)
    ensures
        match r {
            Some(i) => last_index(chars@, c) == Some(i as int) && i < chars@.len(),
            None => last_index(chars@, c) is None,
        },
{
    let mut i: usize = chars.len();
    assert(chars@.take(i as int) =~= chars@);
    while i > 0
        invariant
            i <= chars@.len(),
            last_index(chars@, c) == last_index(chars@.take(i as int), c),
        decreases i,
    {
        assert(chars@.take(i as int).drop_last() =~= chars@.take(i - 1));
        if chars[i - 1] == c {
            return Some(i - 1);
        }
        i = i - 1;
    }
    None
}

/// The extension of the path `s`.
pub fn path_extension(s: &str) -> (r: Option<String>)
    ensures
        match r {
            Some(e) => extension(s@) == Some(e@),
            None => extension(s@) is None,
        },
{
    let c = split_components(s);
    let n: usize = c.len();
    if n == 0 {
        return None;
    }
    proof {
        reveal_strlit(".");
        reveal_strlit("..");
        reveal_strlit("/");
        assert("."@ =~= seq!['.']);
        assert(".."@ =~= seq!['.', '.']);
        assert("/"@ =~= seq!['/']);
        assert(views(c@).last() == c@[n - 1]@);
    }
    let name = c[n - 1].as_str();
    if same(name, "/") || same(name, ".") || same(name, "..") {
        return None;
    }
    let v = chars_of(name);
    let m: usize = v.len();
    match find_last(&v, '.') {
        Some(i) => {
            if i > 0 {
                let e = text_of(&v, i + 1, m);
                assert(e@ =~= name@.skip(i + 1));
                Some(e)
            } else {
                None
            }
        },
        None => None,
    }
}

// ---------------------------------------------------------------------------
// Laws
// ---------------------------------------------------------------------------

/// A name that is one component of a path: not empty, no dot, and without a slash.
pub open spec fn is_plain_name(name: Seq<char>) -> bool {
    name.len() > 0 && name != seq!['.'] && !name.contains('/')
}

proof fn lemma_pieces_extended(s: Seq<char>, name: Seq<char>)
    requires
        !name.contains('/'),
    ensures
        pieces(s).len() > 0,
        pieces(s + name) == pieces(s).drop_last().push(pieces(s).last() + name),
    decreases name.len(),
{
    lemma_pieces_nonempty(s);
    if name.len() == 0 {
        assert(s + name =~= s);
        assert(pieces(s).last() + name =~= pieces(s).last());
        assert(pieces(s).drop_last().push(pieces(s).last()) =~= pieces(s));
    } else {
        let short = name.drop_last();
        assert(!short.contains('/')) by {
            if short.contains('/') {
                let k = short.index_of('/');
                assert(name[k] == '/');
            }
        }
        assert(name[name.len() - 1] != '/') by {
            assert(name.contains(name[name.len() - 1]));
        }
        lemma_pieces_extended(s, short);
        assert((s + name).drop_last() =~= s + short);
        assert((s + name).last() == name.last());
        let p = pieces(s).drop_last().push(pieces(s).last() + short);
        assert(p.drop_last() =~= pieces(s).drop_last());
        assert((pieces(s).last() + short).push(name.last()) =~= pieces(s).last() + name);
    }
}

proof fn lemma_pieces_of_name(name: Seq<char>)
    requires
        !name.contains('/'),
    ensures
        pieces(name) == seq![name],
{
    lemma_pieces_extended(Seq::empty(), name);
    assert(Seq::<char>::empty() + name =~= name);
    assert(seq![Seq::<char>::empty()].drop_last().push(Seq::<char>::empty() + name) =~= seq![name]);
}

/// A name under a path is one more component behind those of the path.
pub proof fn law_joining_adds_a_component(base: Seq<char>, name: Seq<char>)
    requires
        is_plain_name(name),
    ensures
        components(joined(base, name)) == components(base).push(name),
{
    let named = |p: Seq<char>| is_named(p);
    assert(name[0] != '/') by {
        assert(name.contains(name[0]));
    }
    if base.len() == 0 {
        assert(base + name =~= name);
        lemma_pieces_of_name(name);
        lemma_pieces_of_name(base);
        assert(seq![name] =~= Seq::<Seq<char>>::empty().push(name));
        assert(seq![base] =~= Seq::<Seq<char>>::empty().push(base));
        assert(Seq::<Seq<char>>::empty().filter(named) =~= Seq::<Seq<char>>::empty()) by {
            reveal(Seq::filter);
        }
        Seq::<Seq<char>>::empty().lemma_filter_push(name, named);
        Seq::<Seq<char>>::empty().lemma_filter_push(base, named);
        assert(components(joined(base, name)) =~= components(base).push(name));
    } else {
        lemma_pieces_nonempty(base);
        let slashed = if base.last() != '/' {
            base.push('/')
        } else {
            base
        };
        assert(joined(base, name) == slashed + name);
        if base.last() != '/' {
            assert(slashed.drop_last() =~= base);
            assert(pieces(slashed) == pieces(base).push(Seq::empty()));
            pieces(base).lemma_filter_push(Seq::empty(), named);
        } else {
            lemma_pieces_nonempty(base.drop_last());
            assert(pieces(base) == pieces(base.drop_last()).push(Seq::empty()));
        }
        lemma_pieces_extended(slashed, name);
        let front = pieces(slashed).drop_last();
        assert(pieces(slashed) =~= front.push(Seq::empty()));
        assert(Seq::<char>::empty() + name =~= name);
        assert(pieces(slashed + name) == front.push(name));
        front.lemma_filter_push(name, named);
        front.lemma_filter_push(Seq::empty(), named);
        assert(pieces(slashed).filter(named) == front.filter(named));
        assert((slashed + name)[0] == base[0]);
        assert(front.len() > 0);
        assert(pieces(slashed + name)[0] == front[0]);
        assert(pieces(base)[0] == front[0]);
        assert(components(joined(base, name)) =~= components(base).push(name));
    }
}

/// A list that paths can have as their components: plain names behind, at most, the root or a
/// leading dot.
pub open spec fn is_component_list(c: Seq<Seq<char>>) -> bool {
    forall|i: int|
        0 <= i < c.len() ==> is_plain_name(#[trigger] c[i]) || (i == 0 && (c[i] == seq!['/'] || c[i]
            == seq!['.']))
}

/// The path that is made of components has just these.
pub proof fn law_components_make_their_path(c: Seq<Seq<char>>)
    requires
        is_component_list(c),
    ensures
        components(joined_all(c)) == c,
    decreases c.len(),
{
    if c.len() == 0 {
        lemma_short_paths();
        assert(joined_all(c) =~= Seq::<char>::empty());
        assert(c =~= Seq::<Seq<char>>::empty());
    } else {
        let front = c.drop_last();
        assert(c.last() == c[c.len() - 1]);
        if is_plain_name(c.last()) {
            assert(is_component_list(front)) by {
                assert forall|i: int|
                    0 <= i < front.len() implies is_plain_name(#[trigger] front[i]) || (i == 0 && (
                front[i] == seq!['/'] || front[i] == seq!['.'])) by {
                    assert(front[i] == c[i]);
                }
            }
            law_components_make_their_path(front);
            law_joining_adds_a_component(joined_all(front), c.last());
            assert(front.push(c.last()) =~= c);
        } else {
            lemma_short_paths();
            assert(c.len() == 1);
            assert(front =~= Seq::<Seq<char>>::empty());
            assert(joined_all(front) == Seq::<char>::empty());
            assert(Seq::<char>::empty() + c[0] =~= c[0]);
            assert(joined_all(c) == c[0]);
            assert(c =~= seq![c[0]]);
        }
    }
}

proof fn lemma_short_paths()
    ensures
        components(Seq::empty()) == Seq::<Seq<char>>::empty(),
        components(seq!['/']) == seq![seq!['/']],
        components(seq!['.']) == seq![seq!['.']],
{
    let named = |p: Seq<char>| is_named(p);
    let e = Seq::<char>::empty();
    let none = Seq::<Seq<char>>::empty();
    assert(none.filter(named) =~= none) by {
        reveal(Seq::filter);
    }
    none.lemma_filter_push(e, named);
    none.push(e).lemma_filter_push(e, named);
    assert(pieces(e) =~= none.push(e));
    assert(components(e) =~= none);
    let root = seq!['/'];
    assert(root.drop_last() =~= e);
    assert(pieces(root) =~= none.push(e).push(e));
    assert(components(root) =~= seq![root]);
    let dot = seq!['.'];
    assert(dot.drop_last() =~= e);
    assert(!dot.contains('/'));
    lemma_pieces_of_name(dot);
    assert(seq![dot] =~= none.push(dot));
    none.lemma_filter_push(dot, named);
    assert(components(dot) =~= seq![dot]);
}

/// The components of a path can be those of one.
pub proof fn lemma_components_are_a_list(s: Seq<char>)
    ensures
        is_component_list(components(s)),
{
    let named = |p: Seq<char>| is_named(p);
    let f = pieces(s).filter(named);
    let c = components(s);
    assert forall|i: int| 0 <= i < c.len() implies is_plain_name(#[trigger] c[i]) || (i == 0 && (c[i]
        == seq!['/'] || c[i] == seq!['.'])) by {
        let h = path_head(s).len();
        if i >= h {
            let x = f[i - h];
            assert(f.contains(x));
            pieces(s).lemma_filter_contains_rev(named, x);
            pieces(s).lemma_filter_pred(named, i - h);
            let k = pieces(s).index_of(x);
            lemma_piece_has_no_slash(s, k);
        }
    }
}

/// The directory that a path lies in has the components of the path but for the last. There is none
/// exactly where there is nothing before it: for the root and for the empty path.
pub proof fn law_parent_drops_the_last_component(s: Seq<char>)
    ensures
        match parent(s) {
            Some(p) => components(s).len() > 0 && components(p) == components(s).drop_last(),
            None => components(s).len() == 0 || components(s) == seq![seq!['/']],
        },
{
    lemma_components_are_a_list(s);
    let c = components(s);
    if c.len() > 0 {
        assert(c.last() == c[c.len() - 1]);
        if c.last() == seq!['/'] {
            assert(c.last()[0] == '/');
            assert(c.last().contains('/'));
            assert(c =~= seq![seq!['/']]);
        } else {
            let front = c.drop_last();
            assert(is_component_list(front)) by {
                assert forall|i: int|
                    0 <= i < front.len() implies is_plain_name(#[trigger] front[i]) || (i == 0 && (
                front[i] == seq!['/'] || front[i] == seq!['.'])) by {
                    assert(front[i] == c[i]);
                }
            }
            law_components_make_their_path(front);
        }
    }
}

/// A file in a directory lies under it, and has the directory for its parent, by components.
pub proof fn law_joined_path_lies_under_its_base(base: Seq<char>, name: Seq<char>)
    requires
        is_plain_name(name),
    ensures
        lies_under(joined(base, name), base),
        parent(joined(base, name)) matches Some(p) && components(p) == components(base),
        name != seq!['.', '.'] ==> file_name(joined(base, name)) == Some(name),
{
    law_joining_adds_a_component(base, name);
    law_parent_drops_the_last_component(joined(base, name));
    assert(components(base).push(name).drop_last() =~= components(base));
    assert(components(base).push(name).take(components(base).len() as int) =~= components(base));
    if components(joined(base, name)) == seq![seq!['/']] {
        assert(components(joined(base, name)).last() == name);
        assert(name.contains(name[0]));
    }
    assert(!seq!['/'].contains('x'));
    if name == seq!['/'] {
        assert(name.contains(name[0]));
    }
}

/// The extension of a file is what follows the last dot in its name, unless the name begins with
/// that dot; a name without a dot has none.
pub proof fn law_extension_follows_the_last_dot(base: Seq<char>, stem: Seq<char>, ext: Seq<char>)
    requires
        !stem.contains('/'),
        !ext.contains('/'),
        !ext.contains('.'),
        stem.len() > 0,
        (stem + seq!['.'] + ext) != seq!['.', '.'],
    ensures
        extension(joined(base, stem + seq!['.'] + ext)) == Some(ext),
{
    let name = stem + seq!['.'] + ext;
    assert(!name.contains('/')) by {
        if name.contains('/') {
            let k = name.index_of('/');
            if k < stem.len() {
                assert(stem[k] == '/');
            } else if k > stem.len() {
                assert(ext[k - stem.len() - 1] == '/');
            }
        }
    }
    assert(name.len() >= 2);
    assert(is_plain_name(name));
    law_joined_path_lies_under_its_base(base, name);
    lemma_last_index_at(name, '.', stem.len() as int);
    assert(name.skip(stem.len() as int + 1) =~= ext);
}

proof fn lemma_last_index_at(s: Seq<char>, c: char, k: int)
    requires
        0 <= k < s.len(),
        s[k] == c,
        forall|j: int| k < j < s.len() ==> s[j] != c,
    ensures
        last_index(s, c) == Some(k),
    decreases s.len(),
{
    if k < s.len() - 1 {
        assert(s.last() != c);
        lemma_last_index_at(s.drop_last(), c, k);
    }
}

} // verus!
