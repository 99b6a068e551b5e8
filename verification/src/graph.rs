//! Leaving modules out of a bundle: which modules of the graph a list of patterns excludes.

use glob::{Pattern, PatternError};
use vstd::prelude::*;

use crate::paths::{lemma_views_push, views};
use crate::text::{has_char, same};
use crate::urls::{parse_url, url_parsed};

verus! {

/// The pattern type of the `glob` crate.
#[verifier::external_type_specification]
#[verifier::external_body]
pub struct ExPattern(glob::Pattern);

/// The error of the `glob` crate for a text that is no pattern.
#[verifier::external_type_specification]
#[verifier::external_body]
pub struct ExPatternError(glob::PatternError);

/// Whether a text is a pattern of the `glob` crate.
pub uninterp spec fn is_valid_glob(text: Seq<char>) -> bool;

/// The text that a pattern was made from.
pub uninterp spec fn glob_text(p: Pattern) -> Seq<char>;

/// Whether a pattern with this text matches a string.
pub uninterp spec fn glob_matches(text: Seq<char>, s: Seq<char>) -> bool;

/// `glob::Pattern::new` compiles a pattern. Whether it can depends on the text alone, and the
/// pattern keeps its text.
#[verifier::external_body]
pub(crate) fn new_pattern(text: &str) -> (r: Result<Pattern, PatternError>)
    ensures
        r is Ok == is_valid_glob(text@),
        r matches Ok(p) ==> glob_text(p) == text@,
{
    Pattern::new(text)
}

/// `glob::Pattern::matches` says whether a string matches the pattern under the default options,
/// which depends on the pattern's text and the string alone.
#[verifier::external_body]
pub(crate) fn pattern_matches(p: &Pattern, s: &str) -> (r: bool)
    ensures
        r == glob_matches(glob_text(*p), s@),
{
    p.matches(s)
}

/// Whether a pattern is a glob: it holds one of the characters that mean something there.
pub open spec fn is_glob(s: Seq<char>) -> bool {
    s.contains('*') || s.contains('?') || s.contains('[')
}

/// Whether `pattern` is a glob.
pub fn is_glob_pattern(pattern: &str) -> (r: bool)
    ensures
        r == is_glob(pattern@),
{
    has_char(pattern, '*') || has_char(pattern, '?') || has_char(pattern, '[')
}

/// An import as it is written in a module, with what it resolved to.
#[derive(Debug)]
pub struct Dependency {
    pub specifier: String,
    pub code: Option<String>,
    pub types: Option<String>,
}

/// A module of the graph.
#[derive(Debug)]
pub struct GraphModule {
    pub dependencies: Vec<Dependency>,
}

/// The module graph, as far as exclusion looks at it.
#[derive(Debug)]
pub struct ModuleGraph {
    /// The URLs that the graph has a module for.
    pub known: Vec<String>,
    pub modules: Vec<GraphModule>,
}

/// Whether `name` is among `names`.
fn among(names: &Vec<String>, name: &str) -> (r: bool)
    ensures
        r == views(names@).contains(name@),
{
    let mut i: usize = 0;
    while i < names.len()
        invariant
            i <= names@.len(),
            forall|j: int| 0 <= j < i ==> views(names@)[j] != name@,
        decreases names@.len() - i,
    {
        if same(names[i].as_str(), name) {
            assert(views(names@)[i as int] == name@);
            return true;
        }
        i = i + 1;
    }
    false
}

/// What an import that is written as `pattern` resolves to, as code or as types.
pub open spec fn resolves_to(d: Dependency, pattern: Seq<char>, url: Seq<char>) -> bool {
    d.specifier@ == pattern && ((d.code matches Some(c) && c@ == url) || (d.types matches Some(t)
        && t@ == url))
}

/// Whether the pattern names `url` as the URL of a module that the graph has.
pub open spec fn names_directly(g: ModuleGraph, pattern: Seq<char>, url: Seq<char>) -> bool {
    url_parsed(pattern) matches Some(u) && u.text == url && views(g.known@).contains(url)
}

/// Whether a module of the graph has an import that is written as the pattern and resolves to
/// `url`.
pub open spec fn names_by_import(g: ModuleGraph, pattern: Seq<char>, url: Seq<char>) -> bool {
    exists|i: int, j: int|
        0 <= i < g.modules@.len() && 0 <= j < g.modules@[i].dependencies@.len() && resolves_to(
            #[trigger] g.modules@[i].dependencies@[j],
            pattern,
            url,
        )
}

/// Whether the pattern excludes the module at `url`: a URL that the graph knows excludes that
/// module, and any other pattern every module that is imported under it.
pub open spec fn pattern_excludes(g: ModuleGraph, pattern: Seq<char>, url: Seq<char>) -> bool {
    if url_parsed(pattern) matches Some(u) && views(g.known@).contains(u.text) {
        names_directly(g, pattern, url)
    } else {
        names_by_import(g, pattern, url)
    }
}

/// The modules to leave out: by URL, and by the globs that their keys match.
pub struct ModuleExclusion {
    pub urls: Vec<String>,
    pub globs: Vec<Pattern>,
}

/// The texts of the globs.
pub open spec fn glob_texts(v: Seq<Pattern>) -> Seq<Seq<char>> {
    v.map_values(|p: Pattern| glob_text(p))
}

impl ModuleExclusion {
    /// Whether the module is left out.
    pub open spec fn excludes(self, specifier: Seq<char>, key: Seq<char>) -> bool {
        views(self.urls@).contains(specifier) || exists|i: int|
            0 <= i < self.globs@.len() && glob_matches(#[trigger] glob_texts(self.globs@)[i], key)
    }

    /// Whether the module at `specifier`, whose key in the bundle is `relative_key`, is left out.
    pub fn is_excluded(&self, specifier: &str, relative_key: &str) -> (r: bool)
        ensures
            r == self.excludes(specifier@, relative_key@),
    {
        if among(&self.urls, specifier) {
            return true;
        }
        let mut i: usize = 0;
        while i < self.globs.len()
            invariant
                i <= self.globs@.len(),
                forall|j: int|
                    0 <= j < i ==> !glob_matches(
                        #[trigger] glob_texts(self.globs@)[j],
                        relative_key@,
                    ),
            decreases self.globs@.len() - i,
        {
            assert(glob_texts(self.globs@)[i as int] == glob_text(self.globs@[i as int]));
            if pattern_matches(&self.globs[i], relative_key) {
                return true;
            }
            i = i + 1;
        }
        false
    }
}

/// Adds `url` unless it is there.
fn add_url(urls: &mut Vec<String>, url: &String)
    ensures
        forall|u: Seq<char>| #[trigger]
            views(final(urls)@).contains(u) <==> views(old(urls)@).contains(u) || u == url@,
        final(urls)@.len() > 0,
{
    if among(urls, url.as_str()) {
        return ;
    }
    let ghost before = views(urls@);
    let s = url.clone();
    proof {
        lemma_views_push(urls@, s);
    }
    urls.push(s);
    assert forall|u: Seq<char>| #[trigger]
        views(urls@).contains(u) <==> before.contains(u) || u == url@ by {
        if before.contains(u) {
            let k = before.index_of(u);
            assert(views(urls@)[k] == u);
        }
        if u == url@ {
            assert(views(urls@)[before.len() as int] == u);
        }
    }
}

/// Whether an import of the first `n` dependencies of module `i`, or of an earlier module, is
/// written as the pattern and resolves to `url`.
spec fn named_so_far(g: ModuleGraph, i: int, n: int, pattern: Seq<char>, url: Seq<char>) -> bool {
    exists|a: int, b: int|
        0 <= a < g.modules@.len() && 0 <= b < g.modules@[a].dependencies@.len() && (a < i || (a == i
            && b < n)) && resolves_to(#[trigger] g.modules@[a].dependencies@[b], pattern, url)
}

/// Adds everything that imports written as `pattern` resolve to.
fn add_imported(graph: &ModuleGraph, pattern: &str, urls: &mut Vec<String>)
    ensures
        forall|u: Seq<char>| #[trigger]
            views(final(urls)@).contains(u) <==> views(old(urls)@).contains(u)
                || names_by_import(*graph, pattern@, u),
{
    let ghost start = views(urls@);
    let mut i: usize = 0;
    while i < graph.modules.len()
        invariant
            i <= graph.modules@.len(),
            start == views(old(urls)@),
            forall|u: Seq<char>| #[trigger]
                views(urls@).contains(u) <==> start.contains(u) || named_so_far(
                    *graph,
                    i as int,
                    0,
                    pattern@,
                    u,
                ),
        decreases graph.modules@.len() - i,
    {
        let deps = &graph.modules[i].dependencies;
        let mut j: usize = 0;
        while j < deps.len()
            invariant
                i < graph.modules@.len(),
                *deps == graph.modules@[i as int].dependencies,
                j <= deps@.len(),
                forall|u: Seq<char>| #[trigger]
                    views(urls@).contains(u) <==> start.contains(u) || named_so_far(
                        *graph,
                        i as int,
                        j as int,
                        pattern@,
                        u,
                    ),
            decreases deps@.len() - j,
        {
            let d = &deps[j];
            let ghost before = views(urls@);
            if same(d.specifier.as_str(), pattern) {
                match &d.code {
                    Some(c) => add_url(urls, c),
                    None => {},
                }
                match &d.types {
                    Some(t) => add_url(urls, t),
                    None => {},
                }
            }
            proof {
                assert(graph.modules@[i as int].dependencies@[j as int] == *d);
                assert forall|u: Seq<char>| #[trigger]
                    views(urls@).contains(u) <==> start.contains(u) || named_so_far(
                        *graph,
                        i as int,
                        j + 1,
                        pattern@,
                        u,
                    ) by {
                    assert(views(urls@).contains(u) <==> before.contains(u) || resolves_to(
                        graph.modules@[i as int].dependencies@[j as int],
                        pattern@,
                        u,
                    ));
                    assert(before.contains(u) <==> start.contains(u) || named_so_far(
                        *graph,
                        i as int,
                        j as int,
                        pattern@,
                        u,
                    ));
                }
            }
            j = j + 1;
        }
        proof {
            assert forall|u: Seq<char>|
                named_so_far(*graph, i as int, deps@.len() as int, pattern@, u)
                    <==> #[trigger] named_so_far(*graph, i + 1, 0, pattern@, u) by {}
        }
        i = i + 1;
    }
    proof {
        assert forall|u: Seq<char>|
            #[trigger] named_so_far(*graph, i as int, 0, pattern@, u) <==> names_by_import(
                *graph,
                pattern@,
                u,
            ) by {}
    }
}

/// A pattern that the `glob` crate does not accept.
#[derive(Debug)]
pub struct InvalidGlob {
    pub pattern: String,
}

impl InvalidGlob {
    pub fn message(&self) -> (r: String)
        ensures
            r@ == "invalid exclude glob: "@ + self.pattern@,
    {
        crate::text::join("invalid exclude glob: ", self.pattern.as_str())
    }
}

/// The globs among the first `n` patterns.
pub open spec fn globs_of(patterns: Seq<Seq<char>>, n: int) -> Seq<Seq<char>>
    decreases n,
{
    if n <= 0 {
        Seq::empty()
    } else if is_glob(patterns[n - 1]) {
        globs_of(patterns, n - 1).push(patterns[n - 1])
    } else {
        globs_of(patterns, n - 1)
    }
}

/// Whether one of the first `n` patterns that are no globs excludes `url`.
pub open spec fn url_excluded(
    g: ModuleGraph,
    patterns: Seq<Seq<char>>,
    n: int,
    url: Seq<char>,
) -> bool {
    exists|i: int|
        0 <= i < n && !is_glob(#[trigger] patterns[i]) && pattern_excludes(g, patterns[i], url)
}

/// Whether the pattern at `i` is the first that looks like a glob and is none.
pub open spec fn is_first_bad_glob(ps: Seq<Seq<char>>, i: int) -> bool {
    &&& is_glob(ps[i]) && !is_valid_glob(ps[i])
    &&& forall|j: int| 0 <= j < i && is_glob(#[trigger] ps[j]) ==> is_valid_glob(ps[j])
}

/// Whether an exclusion is the one that the patterns ask for: it holds the globs and the URLs that
/// they name, there is none where nothing is to be left out, and the first glob that does not
/// compile is an error.
pub open spec fn excludes(
    graph: ModuleGraph,
    patterns: Seq<Seq<char>>,
    r: Result<Option<ModuleExclusion>, InvalidGlob>,
) -> bool {
    let n = patterns.len() as int;
    match r {
        Ok(None) => globs_of(patterns, n).len() == 0 && forall|u: Seq<char>|
            !#[trigger] url_excluded(graph, patterns, n, u),
        Ok(Some(x)) => {
            &&& glob_texts(x.globs@) == globs_of(patterns, n)
            &&& forall|u: Seq<char>| #[trigger]
                views(x.urls@).contains(u) <==> url_excluded(graph, patterns, n, u)
            &&& x.urls@.len() > 0 || x.globs@.len() > 0
        },
        Err(e) => exists|i: int|
            0 <= i < n && #[trigger] patterns[i] == e.pattern@ && is_first_bad_glob(patterns, i),
    }
}

/// Builds the exclusion for a list of patterns. There is none where nothing is to be left out: a
/// pattern that matches no module is ignored. A glob that does not compile is an error.
pub fn build_module_exclusion(graph: &ModuleGraph, patterns: &Vec<String>) -> (r: Result<
    Option<ModuleExclusion>,
    InvalidGlob,
>)
    ensures
        excludes(*graph, views(patterns@), r),
        r is Err <==> exists|i: int|
            0 <= i < patterns@.len() && is_glob(#[trigger] views(patterns@)[i]) && !is_valid_glob(
                views(patterns@)[i],
            ),
{
    let mut urls: Vec<String> = Vec::new();
    let mut globs: Vec<Pattern> = Vec::new();
    let ghost ps = views(patterns@);
    let mut i: usize = 0;
    assert(glob_texts(globs@) =~= Seq::<Seq<char>>::empty());
    assert forall|u: Seq<char>| !#[trigger] views(urls@).contains(u) by {}
    while i < patterns.len()
        invariant
            i <= patterns@.len(),
            ps == views(patterns@),
            glob_texts(globs@) == globs_of(ps, i as int),
            forall|u: Seq<char>| #[trigger]
                views(urls@).contains(u) <==> url_excluded(*graph, ps, i as int, u),
            forall|j: int| 0 <= j < i && is_glob(#[trigger] ps[j]) ==> is_valid_glob(ps[j]),
        decreases patterns@.len() - i,
    {
        let pattern = patterns[i].as_str();
        assert(ps[i as int] == pattern@);
        let ghost before = views(urls@);
        if is_glob_pattern(pattern) {
            match new_pattern(pattern) {
                Ok(p) => {
                    let ghost gs = globs@;
                    globs.push(p);
                    assert(glob_texts(globs@) =~= glob_texts(gs).push(pattern@));
                },
                Err(_) => {
                    assert(is_first_bad_glob(ps, i as int));
                    return Err(InvalidGlob { pattern: pattern.to_owned() });
                },
            }
            assert forall|u: Seq<char>| #[trigger]
                views(urls@).contains(u) <==> url_excluded(*graph, ps, i + 1, u) by {
                assert(before.contains(u) <==> url_excluded(*graph, ps, i as int, u));
            }
        } else {
            let mut direct = false;
            match parse_url(pattern) {
                Some(u) => {
                    if among(&graph.known, u.text.as_str()) {
                        add_url(&mut urls, &u.text);
                        direct = true;
                    }
                },
                None => {},
            }
            if !direct {
                add_imported(graph, pattern, &mut urls);
            }
            assert forall|u: Seq<char>| #[trigger]
                views(urls@).contains(u) <==> url_excluded(*graph, ps, i + 1, u) by {
                assert(before.contains(u) <==> url_excluded(*graph, ps, i as int, u));
                assert(views(urls@).contains(u) <==> before.contains(u) || pattern_excludes(
                    *graph,
                    ps[i as int],
                    u,
                ));
            }
        }
        i = i + 1;
    }
    if urls.len() == 0 && globs.len() == 0 {
        assert forall|u: Seq<char>| !#[trigger] url_excluded(
            *graph,
            ps,
            ps.len() as int,
            u,
        ) by {
            assert(!views(urls@).contains(u));
        }
        return Ok(None);
    }
    Ok(Some(ModuleExclusion { urls, globs }))
}

// ---------------------------------------------------------------------------
// Laws
// ---------------------------------------------------------------------------

proof fn lemma_glob_kept(patterns: Seq<Seq<char>>, n: int, i: int)
    requires
        0 <= i < n <= patterns.len(),
        is_glob(patterns[i]),
    ensures
        globs_of(patterns, n).contains(patterns[i]),
    decreases n,
{
    let all = globs_of(patterns, n);
    let rest = globs_of(patterns, n - 1);
    if i == n - 1 {
        assert(all[rest.len() as int] == patterns[i]);
    } else {
        lemma_glob_kept(patterns, n - 1, i);
        let k = rest.index_of(patterns[i]);
        assert(all[k] == rest[k]);
    }
}

proof fn lemma_glob_from(patterns: Seq<Seq<char>>, n: int, k: int) -> (i: int)
    requires
        0 <= n <= patterns.len(),
        0 <= k < globs_of(patterns, n).len(),
    ensures
        0 <= i < n,
        is_glob(patterns[i]),
        globs_of(patterns, n)[k] == patterns[i],
    decreases n,
{
    let rest = globs_of(patterns, n - 1);
    if is_glob(patterns[n - 1]) && k == rest.len() {
        n - 1
    } else {
        lemma_glob_from(patterns, n - 1, k)
    }
}

/// Whether a pattern asks for a module to be left out: one with `*`, `?` or `[` by the module's key,
/// and any other by the module's URL, or by what is imported under it where the graph has no module
/// at that URL.
pub open spec fn asks_to_leave_out(
    g: ModuleGraph,
    pattern: Seq<char>,
    specifier: Seq<char>,
    key: Seq<char>,
) -> bool {
    if pattern.contains('*') || pattern.contains('?') || pattern.contains('[') {
        glob_matches(pattern, key)
    } else if url_parsed(pattern) matches Some(u) && exists|k: int|
        0 <= k < g.known@.len() && (#[trigger] g.known@[k])@ == u.text {
        url_parsed(pattern)->0.text == specifier
    } else {
        exists|i: int, j: int|
            0 <= i < g.modules@.len() && 0 <= j < g.modules@[i].dependencies@.len() && ({
                let d = #[trigger] g.modules@[i].dependencies@[j];
                d.specifier@ == pattern && ((d.code is Some && (d.code->0)@ == specifier) || (
                d.types is Some && (d.types->0)@ == specifier))
            })
    }
}

/// A module is left out exactly where one of the patterns asks for it, whichever and however many
/// there are. Where none can leave anything out there is no exclusion.
pub proof fn law_every_pattern_counts(
    graph: ModuleGraph,
    patterns: Seq<Seq<char>>,
    r: Option<ModuleExclusion>,
    specifier: Seq<char>,
    key: Seq<char>,
)
    requires
        excludes(graph, patterns, Ok(r)),
    ensures
        match r {
            Some(x) => x.excludes(specifier, key),
            None => false,
        } <==> exists|i: int|
            0 <= i < patterns.len() && asks_to_leave_out(
                graph,
                #[trigger] patterns[i],
                specifier,
                key,
            ),
        r matches Some(x) ==> forall|i: int|
            #![trigger patterns[i]]
            0 <= i < patterns.len() && (patterns[i].contains('*') || patterns[i].contains('?')
                || patterns[i].contains('[')) ==> exists|k: int|
                0 <= k < x.globs@.len() && glob_text(#[trigger] x.globs@[k]) == patterns[i],
        r matches Some(x) ==> x.urls@.len() + x.globs@.len() > 0,
{
    let n = patterns.len() as int;
    assert forall|p: Seq<char>|
        !is_glob(p) implies #[trigger] pattern_excludes(graph, p, specifier) == asks_to_leave_out(
        graph,
        p,
        specifier,
        key,
    ) by {
        lemma_pattern_asks(graph, p, specifier, key);
    }
    if let Some(x) = r {
        assert(x.globs@.len() == glob_texts(x.globs@).len());
        assert forall|i: int| 0 <= i < n && is_glob(#[trigger] patterns[i]) implies exists|k: int|
            0 <= k < x.globs@.len() && glob_text(#[trigger] x.globs@[k]) == patterns[i] by {
            lemma_glob_kept(patterns, n, i);
            let k = globs_of(patterns, n).index_of(patterns[i]);
            assert(glob_texts(x.globs@)[k] == glob_text(x.globs@[k]));
        }
        if x.excludes(specifier, key) {
            if views(x.urls@).contains(specifier) {
                assert(url_excluded(graph, patterns, n, specifier));
                let i = choose|i: int|
                    0 <= i < n && !is_glob(#[trigger] patterns[i]) && pattern_excludes(
                        graph,
                        patterns[i],
                        specifier,
                    );
                assert(asks_to_leave_out(graph, patterns[i], specifier, key));
            } else {
                let k = choose|k: int|
                    0 <= k < x.globs@.len() && glob_matches(
                        #[trigger] glob_texts(x.globs@)[k],
                        key,
                    );
                let i = lemma_glob_from(patterns, n, k);
                assert(asks_to_leave_out(graph, patterns[i], specifier, key));
            }
        }
        if exists|i: int|
            0 <= i < n && asks_to_leave_out(graph, #[trigger] patterns[i], specifier, key) {
            let i = choose|i: int|
                0 <= i < n && asks_to_leave_out(graph, #[trigger] patterns[i], specifier, key);
            if is_glob(patterns[i]) {
                let k = choose|k: int|
                    0 <= k < x.globs@.len() && glob_text(#[trigger] x.globs@[k]) == patterns[i];
                assert(glob_texts(x.globs@)[k] == patterns[i]);
            } else {
                assert(pattern_excludes(graph, patterns[i], specifier));
                assert(url_excluded(graph, patterns, n, specifier));
                assert(views(x.urls@).contains(specifier));
            }
        }
    } else {
        assert(!url_excluded(graph, patterns, n, specifier));
        assert forall|i: int| 0 <= i < n implies !asks_to_leave_out(
            graph,
            #[trigger] patterns[i],
            specifier,
            key,
        ) by {
            if is_glob(patterns[i]) {
                lemma_glob_kept(patterns, n, i);
            } else if asks_to_leave_out(graph, patterns[i], specifier, key) {
                assert(pattern_excludes(graph, patterns[i], specifier));
            }
        }
    }
}

proof fn lemma_pattern_asks(g: ModuleGraph, p: Seq<char>, specifier: Seq<char>, key: Seq<char>)
    requires
        !is_glob(p),
    ensures
        pattern_excludes(g, p, specifier) == asks_to_leave_out(g, p, specifier, key),
{
    let known = url_parsed(p) matches Some(u) && exists|k: int|
        0 <= k < g.known@.len() && (#[trigger] g.known@[k])@ == u.text;
    if let Some(u) = url_parsed(p) {
        if known {
            let k = choose|k: int| 0 <= k < g.known@.len() && (#[trigger] g.known@[k])@ == u.text;
            assert(views(g.known@)[k] == u.text);
        }
        if views(g.known@).contains(u.text) {
            let k = views(g.known@).index_of(u.text);
            assert(g.known@[k]@ == u.text);
        }
    }
    if names_by_import(g, p, specifier) {
        let (i, j) = choose|i: int, j: int|
            0 <= i < g.modules@.len() && 0 <= j < g.modules@[i].dependencies@.len() && resolves_to(
                #[trigger] g.modules@[i].dependencies@[j],
                p,
                specifier,
            );
        assert(g.modules@[i].dependencies@[j].specifier@ == p);
    }
}

/// The error of a list of patterns names the first glob in it that is none.
pub proof fn law_first_bad_glob_is_named(
    graph: ModuleGraph,
    patterns: Seq<Seq<char>>,
    e: InvalidGlob,
    i: int,
)
    requires
        excludes(graph, patterns, Err(e)),
        0 <= i < patterns.len(),
        patterns[i].contains('*') || patterns[i].contains('?') || patterns[i].contains('['),
        !is_valid_glob(patterns[i]),
        forall|j: int|
            0 <= j < i && ((#[trigger] patterns[j]).contains('*') || patterns[j].contains('?')
                || patterns[j].contains('[')) ==> is_valid_glob(patterns[j]),
    ensures
        e.pattern@ == patterns[i],
{
    let k = choose|k: int|
        0 <= k < patterns.len() && #[trigger] patterns[k] == e.pattern@ && is_first_bad_glob(
            patterns,
            k,
        );
    if k < i {
        assert(is_glob(patterns[k]));
    } else if i < k {
        assert(is_glob(patterns[i]));
    }
}

} // verus!
