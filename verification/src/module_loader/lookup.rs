//! Finding a module in an archive by a specifier that may leave out its extension.

use vstd::prelude::*;

use crate::eszip::section::{
    is_first_named, item_behind, item_named, lands_at, EszipModule, ModuleKind, NamedModule,
};
use crate::paths::{lemma_views_push, views};
use crate::text::{finishes_with, join, same};

verus! {

/// The extensions that an import may leave out, in the order in which they are tried.
pub open spec fn sloppy_extensions() -> Seq<Seq<char>> {
    seq![".ts"@, ".tsx"@, ".mts"@, ".cts"@, ".js"@, ".jsx"@, ".mjs"@, ".cjs"@]
}

/// The index modules that a directory may stand for, in the order in which they are tried.
pub open spec fn sloppy_index_files() -> Seq<Seq<char>> {
    seq![
        "/index.ts"@,
        "/index.tsx"@,
        "/index.mts"@,
        "/index.cts"@,
        "/index.js"@,
        "/index.jsx"@,
        "/index.mjs"@,
        "/index.cjs"@,
    ]
}

fn extension_list() -> (r: Vec<String>)
    ensures
        views(r@) == sloppy_extensions(),
{
    let mut v: Vec<String> = Vec::new();
    v.push(".ts".to_owned());
    v.push(".tsx".to_owned());
    v.push(".mts".to_owned());
    v.push(".cts".to_owned());
    v.push(".js".to_owned());
    v.push(".jsx".to_owned());
    v.push(".mjs".to_owned());
    v.push(".cjs".to_owned());
    assert(views(v@) =~= sloppy_extensions());
    v
}

fn index_list() -> (r: Vec<String>)
    ensures
        views(r@) == sloppy_index_files(),
{
    let mut v: Vec<String> = Vec::new();
    v.push("/index.ts".to_owned());
    v.push("/index.tsx".to_owned());
    v.push("/index.mts".to_owned());
    v.push("/index.cts".to_owned());
    v.push("/index.js".to_owned());
    v.push("/index.jsx".to_owned());
    v.push("/index.mjs".to_owned());
    v.push("/index.cjs".to_owned());
    assert(views(v@) =~= sloppy_index_files());
    v
}

/// Whether a key ends with one of the extensions.
pub open spec fn has_known_extension(key: Seq<char>) -> bool {
    exists|i: int|
        0 <= i < sloppy_extensions().len() && (#[trigger] sloppy_extensions()[i]).is_suffix_of(key)
}

/// A key with each of some endings.
pub open spec fn with_endings(key: Seq<char>, endings: Seq<Seq<char>>) -> Seq<Seq<char>> {
    endings.map_values(|e: Seq<char>| key + e)
}

/// The keys that are tried for a key, in order: the key itself and, where it has no known
/// extension, the key with each extension and then each index module under it.
pub open spec fn candidate_keys(key: Seq<char>) -> Seq<Seq<char>> {
    if has_known_extension(key) {
        seq![key]
    } else {
        seq![key] + with_endings(key, sloppy_extensions()) + with_endings(
            key,
            sloppy_index_files(),
        )
    }
}

fn known_extension(key: &str, extensions: &Vec<String>) -> (r: bool)
    requires
        views(extensions@) == sloppy_extensions(),
    ensures
        r == has_known_extension(key@),
{
    let mut i: usize = 0;
    while i < extensions.len()
        invariant
            i <= extensions@.len(),
            views(extensions@) == sloppy_extensions(),
            forall|j: int| 0 <= j < i ==> !(#[trigger] sloppy_extensions()[j]).is_suffix_of(key@),
        decreases extensions@.len() - i,
    {
        assert(views(extensions@)[i as int] == extensions@[i as int]@);
        if finishes_with(key, extensions[i].as_str()) {
            assert(sloppy_extensions()[i as int].is_suffix_of(key@));
            return true;
        }
        i = i + 1;
    }
    assert(views(extensions@).len() == extensions@.len());
    false
}

/// Appends `key` with each of `endings` to `out`.
fn add_endings(key: &str, endings: &Vec<String>, out: &mut Vec<String>)
    ensures
        views(final(out)@) == views(old(out)@) + with_endings(key@, views(endings@)),
{
    let ghost start = views(out@);
    let mut i: usize = 0;
    while i < endings.len()
        invariant
            i <= endings@.len(),
            start == views(old(out)@),
            views(out@) =~= start + with_endings(key@, views(endings@)).take(i as int),
        decreases endings@.len() - i,
    {
        let s = join(key, endings[i].as_str());
        proof {
            lemma_views_push(out@, s);
            assert(with_endings(key@, views(endings@))[i as int] == s@);
            assert(with_endings(key@, views(endings@)).take(i + 1) =~= with_endings(
                key@,
                views(endings@),
            ).take(i as int).push(s@));
        }
        out.push(s);
        i = i + 1;
    }
    assert(with_endings(key@, views(endings@)).take(i as int) =~= with_endings(
        key@,
        views(endings@),
    ));
}

/// The keys that are tried for `key`, in order.
pub fn candidates(key: &str) -> (r: Vec<String>)
    ensures
        views(r@) == candidate_keys(key@),
{
    let extensions = extension_list();
    let mut out: Vec<String> = Vec::new();
    out.push(key.to_owned());
    assert(views(out@) =~= seq![key@]);
    if !known_extension(key, &extensions) {
        add_endings(key, &extensions, &mut out);
        add_endings(key, &index_list(), &mut out);
    }
    out
}

/// Whether the archive has a module under `key`.
fn has_key(keys: &Vec<String>, key: &str) -> (r: bool)
    ensures
        r == views(keys@).contains(key@),
{
    let mut i: usize = 0;
    while i < keys.len()
        invariant
            i <= keys@.len(),
            forall|j: int| 0 <= j < i ==> views(keys@)[j] != key@,
        decreases keys@.len() - i,
    {
        if same(keys[i].as_str(), key) {
            assert(views(keys@)[i as int] == key@);
            return true;
        }
        i = i + 1;
    }
    false
}

/// Whether the candidate at `i` is the first that the archive has.
pub open spec fn is_first_hit(tried: Seq<Seq<char>>, keys: Seq<Seq<char>>, i: int) -> bool {
    &&& 0 <= i < tried.len()
    &&& keys.contains(tried[i])
    &&& forall|j: int| 0 <= j < i ==> !keys.contains(#[trigger] tried[j])
}

/// An archive, as far as modules are looked for in it.
#[derive(Debug)]
pub struct WorkspaceEszip {
    /// The keys of its modules.
    pub keys: Vec<String>,
}

/// Whether an item is a module that can be loaded: JSON with comments is none.
pub open spec fn is_code(m: EszipModule) -> bool {
    m matches EszipModule::Module { kind, .. } && kind != ModuleKind::Jsonc
}

/// Whether an item of an archive is, or leads to, a module that can be loaded.
pub open spec fn is_loadable(modules: Seq<NamedModule>, m: EszipModule) -> bool {
    match m {
        EszipModule::Module { .. } => is_code(m),
        EszipModule::Redirect { target } => match lands_at(modules, target@, modules.len()) {
            Some(i) => is_code(modules[i].module),
            None => false,
        },
    }
}

/// The keys of the modules among the first `n` items of an archive.
pub open spec fn module_keys(modules: Seq<NamedModule>, n: int) -> Seq<Seq<char>>
    decreases n,
{
    if n <= 0 {
        Seq::empty()
    } else if is_loadable(modules, modules[n - 1].module) {
        module_keys(modules, n - 1).push(modules[n - 1].specifier@)
    } else {
        module_keys(modules, n - 1)
    }
}

/// Whether an item is a module that can be loaded.
fn loads(m: &EszipModule) -> (r: bool)
    ensures
        r == is_code(*m),
{
    match m {
        EszipModule::Module { kind, .. } => *kind != ModuleKind::Jsonc,
        EszipModule::Redirect { .. } => false,
    }
}

impl WorkspaceEszip {
    /// The archive with these items.
    pub fn new(modules: &Vec<NamedModule>) -> (r: WorkspaceEszip)
        ensures
            views(r.keys@) == module_keys(modules@, modules@.len() as int),
            forall|i: int|
                0 <= i < modules@.len() && ((#[trigger] modules@[i]).module matches EszipModule::Module {
                    kind,
                    ..
                } && kind != ModuleKind::Jsonc) ==> views(r.keys@).contains(
                    modules@[i].specifier@,
                ),
            forall|k: Seq<char>| #[trigger]
                views(r.keys@).contains(k) ==> exists|i: int|
                    0 <= i < modules@.len() && (#[trigger] modules@[i]).specifier@ == k && !(
                    modules@[i].module matches EszipModule::Module { kind: ModuleKind::Jsonc, .. }),
    {
        let mut keys: Vec<String> = Vec::new();
        let mut i: usize = 0;
        assert(views(keys@) =~= Seq::<Seq<char>>::empty());
        while i < modules.len()
            invariant
                i <= modules@.len(),
                views(keys@) == module_keys(modules@, i as int),
            decreases modules@.len() - i,
        {
            let loadable = match &modules[i].module {
                EszipModule::Redirect { target } => match item_behind(modules, target.as_str()) {
                    Some(k) => loads(&modules[k].module),
                    None => false,
                },
                m => loads(m),
            };
            if loadable {
                let key = modules[i].specifier.clone();
                proof {
                    lemma_views_push(keys@, key);
                }
                keys.push(key);
            }
            i = i + 1;
        }
        proof {
            assert forall|i: int|
                0 <= i < modules@.len() && ((#[trigger] modules@[i]).module matches EszipModule::Module {
                    kind,
                    ..
                } && kind != ModuleKind::Jsonc) implies views(keys@).contains(
                modules@[i].specifier@,
            ) by {
                lemma_listed(modules@, modules@.len() as int, i);
            }
            assert forall|k: Seq<char>| #[trigger] views(keys@).contains(k) implies exists|i: int|
                0 <= i < modules@.len() && (#[trigger] modules@[i]).specifier@ == k && !(
                modules@[i].module matches EszipModule::Module { kind: ModuleKind::Jsonc, .. }) by {
                lemma_listed_from(modules@, modules@.len() as int, k);
            }
        }
        WorkspaceEszip { keys }
    }

    /// The key of the module that a specifier stands for, if the archive has one. A `file:`
    /// specifier is looked up by its `key` relative to the root, which may leave out the
    /// extension; any other is looked up as it is.
    pub fn get_module(&self, scheme: &str, specifier: &str, key: &str) -> (r: Option<String>)
        ensures
            scheme@ == "file"@ ==> match r {
                Some(k) => exists|i: int| #[trigger]
                    is_first_hit(candidate_keys(key@), views(self.keys@), i) && k@
                        == candidate_keys(key@)[i],
                None => forall|i: int|
                    0 <= i < candidate_keys(key@).len() ==> !views(self.keys@).contains(
                        #[trigger] candidate_keys(key@)[i],
                    ),
            },
            r matches Some(k) ==> views(self.keys@).contains(k@),
            scheme@ == "file"@ && views(self.keys@).contains(key@) ==> r is Some && (r->0)@ == key@,
            scheme@ != "file"@ ==> match r {
                Some(k) => k@ == specifier@ && views(self.keys@).contains(specifier@),
                None => !views(self.keys@).contains(specifier@),
            },
    {
        if !same(scheme, "file") {
            return if has_key(&self.keys, specifier) {
                Some(specifier.to_owned())
            } else {
                None
            };
        }
        let tried = candidates(key);
        let ghost t = candidate_keys(key@);
        assert(t[0] == key@);
        assert(t.len() == tried@.len());
        let mut i: usize = 0;
        while i < tried.len()
            invariant
                i <= tried@.len(),
                t == candidate_keys(key@),
                t.len() > 0 && t[0] == key@,
                scheme@ == "file"@,
                views(tried@) == t,
                forall|j: int| 0 <= j < i ==> !views(self.keys@).contains(#[trigger] t[j]),
            decreases tried@.len() - i,
        {
            assert(t[i as int] == tried@[i as int]@);
            if has_key(&self.keys, tried[i].as_str()) {
                assert(is_first_hit(t, views(self.keys@), i as int));
                return Some(tried[i].clone());
            }
            i = i + 1;
        }
        None
    }
}

/// A key that the archive has is always found as it is, whatever else could be guessed.
pub proof fn law_exact_key_wins(key: Seq<char>, keys: Seq<Seq<char>>, i: int)
    requires
        keys.contains(key),
        is_first_hit(candidate_keys(key), keys, i),
    ensures
        candidate_keys(key)[i] == key,
{
    assert(candidate_keys(key)[0] == key);
}

/// A key with a known extension stands for itself alone.
pub proof fn law_known_extension_is_not_guessed(key: Seq<char>)
    requires
        has_known_extension(key),
    ensures
        candidate_keys(key) == seq![key],
{
}

/// A loadable item is listed.
proof fn lemma_listed(modules: Seq<NamedModule>, n: int, i: int)
    requires
        0 <= i < n <= modules.len(),
        is_loadable(modules, modules[i].module),
    ensures
        module_keys(modules, n).contains(modules[i].specifier@),
    decreases n,
{
    let all = module_keys(modules, n);
    let rest = module_keys(modules, n - 1);
    if i == n - 1 {
        assert(all[rest.len() as int] == modules[i].specifier@);
    } else {
        lemma_listed(modules, n - 1, i);
        let k = rest.index_of(modules[i].specifier@);
        assert(all[k] == rest[k]);
    }
}

/// What is listed is a loadable item.
proof fn lemma_listed_from(modules: Seq<NamedModule>, n: int, key: Seq<char>) -> (i: int)
    requires
        0 <= n <= modules.len(),
        module_keys(modules, n).contains(key),
    ensures
        0 <= i < n,
        modules[i].specifier@ == key,
        is_loadable(modules, modules[i].module),
    decreases n,
{
    let all = module_keys(modules, n);
    let rest = module_keys(modules, n - 1);
    let k = all.index_of(key);
    if n > 0 && is_loadable(modules, modules[n - 1].module) && k == rest.len() {
        n - 1
    } else {
        assert(rest[k] == key);
        lemma_listed_from(modules, n - 1, key)
    }
}

/// The items on a way through redirects: each but the last redirects to the next.
pub open spec fn is_redirect_way(modules: Seq<NamedModule>, way: Seq<int>) -> bool {
    &&& way.len() > 0
    &&& forall|k: int| 0 <= k < way.len() ==> 0 <= #[trigger] way[k] < modules.len()
    &&& forall|k: int|
        0 <= k < way.len() - 1 ==> (modules[#[trigger] way[k]].module matches EszipModule::Redirect {
            target,
        } && target@ == modules[way[k + 1]].specifier@)
}

/// Whether no two items share a name.
pub open spec fn names_differ(modules: Seq<NamedModule>) -> bool {
    forall|i: int, j: int|
        0 <= i < j < modules.len() ==> (#[trigger] modules[i]).specifier@ != (
        #[trigger] modules[j]).specifier@
}

proof fn lemma_item_found(modules: Seq<NamedModule>, i: int)
    requires
        0 <= i < modules.len(),
        names_differ(modules),
    ensures
        item_named(modules, modules[i].specifier@) == Some(i),
{
    assert forall|j: int| 0 <= j < i implies (#[trigger] modules[j]).specifier@
        != modules[i].specifier@ by {}
    assert(is_first_named(modules, modules[i].specifier@, i));
    let k = choose|k: int| is_first_named(modules, modules[i].specifier@, k);
    assert(is_first_named(modules, modules[i].specifier@, k));
    if k < i {
        assert(modules[k].specifier@ != modules[i].specifier@);
    } else if i < k {
        assert(modules[i].specifier@ != modules[k].specifier@);
    }
}

#[verifier::spinoff_prover]
#[verifier::rlimit(40)]
proof fn lemma_way_lands(modules: Seq<NamedModule>, way: Seq<int>, hops: nat)
    requires
        names_differ(modules),
        is_redirect_way(modules, way),
        way.len() <= hops,
        modules[way.last()].module is Module,
    ensures
        lands_at(modules, modules[way[0]].specifier@, hops) == Some(way.last()),
    decreases way.len(),
{
    lemma_item_found(modules, way[0]);
    if way.len() > 1 {
        let rest = way.drop_first();
        assert forall|k: int| 0 <= k < rest.len() implies 0 <= #[trigger] rest[k] < modules.len() by {
            assert(rest[k] == way[k + 1]);
        }
        assert forall|k: int| 0 <= k < rest.len() - 1 implies (modules[#[trigger] rest[k]].module
            matches EszipModule::Redirect { target } && target@ == modules[rest[k + 1]].specifier@)
            by {
            assert(rest[k] == way[k + 1]);
            assert(rest[k + 1] == way[k + 2]);
        }
        assert(rest.last() == way.last());
        assert(0 <= 0 < way.len() - 1 && way[0] == way[0]);
        lemma_way_lands(modules, rest, (hops - 1) as nat);
    }
}

/// A module can be loaded under its own name, and under every name that redirects to it, unless it
/// is JSON with comments: JavaScript, JSON, WebAssembly and opaque data are all found.
#[verifier::spinoff_prover]
#[verifier::rlimit(40)]
pub proof fn law_every_kind_but_jsonc_is_found(modules: Seq<NamedModule>, way: Seq<int>)
    requires
        names_differ(modules),
        is_redirect_way(modules, way),
        way.len() <= modules.len(),
        modules[way.last()].module is Module,
    ensures
        modules[way.last()].module matches EszipModule::Module { kind, .. } && {
            let keys = module_keys(modules, modules.len() as int);
            let name = modules[way[0]].specifier@;
            &&& kind == ModuleKind::JavaScript ==> keys.contains(name)
            &&& kind == ModuleKind::Json ==> keys.contains(name)
            &&& kind == ModuleKind::Wasm ==> keys.contains(name)
            &&& kind == ModuleKind::OpaqueData ==> keys.contains(name)
            &&& kind == ModuleKind::Jsonc ==> !keys.contains(name)
        },
{
    let i = way[0];
    let n = modules.len() as int;
    if way.len() > 1 {
        let rest = way.drop_first();
        assert forall|k: int| 0 <= k < rest.len() implies 0 <= #[trigger] rest[k] < modules.len() by {
            assert(rest[k] == way[k + 1]);
        }
        assert forall|k: int| 0 <= k < rest.len() - 1 implies (modules[#[trigger] rest[k]].module
            matches EszipModule::Redirect { target } && target@ == modules[rest[k + 1]].specifier@)
            by {
            assert(rest[k] == way[k + 1]);
            assert(rest[k + 1] == way[k + 2]);
        }
        assert(rest.last() == way.last());
        assert(rest[0] == way[1]);
        lemma_way_lands(modules, rest, modules.len());
    }
    if is_loadable(modules, modules[i].module) {
        lemma_listed(modules, n, i);
    } else if module_keys(modules, n).contains(modules[i].specifier@) {
        let j = lemma_listed_from(modules, n, modules[i].specifier@);
        if i < j {
            assert(modules[i].specifier@ != modules[j].specifier@);
        } else if j < i {
            assert(modules[j].specifier@ != modules[i].specifier@);
        }
    }
}

/// A name that is nowhere, or that redirects to one that is nowhere, is not found.
pub proof fn law_unknown_names_are_not_found(modules: Seq<NamedModule>, key: Seq<char>)
    requires
        forall|i: int|
            0 <= i < modules.len() ==> ((#[trigger] modules[i]).specifier@ == key ==> (
            modules[i].module matches EszipModule::Redirect { target } && forall|j: int|
                0 <= j < modules.len() ==> (#[trigger] modules[j]).specifier@ != target@)),
    ensures
        !module_keys(modules, modules.len() as int).contains(key),
{
    if module_keys(modules, modules.len() as int).contains(key) {
        let i = lemma_listed_from(modules, modules.len() as int, key);
        assert(modules[i].module is Redirect);
        let target = modules[i].module->target;
        assert forall|k: int| !is_first_named(modules, target@, k) by {}
    }
}

/// The eight extensions that an import may leave out.
pub open spec fn may_be_left_out(ending: Seq<char>) -> bool {
    ||| ending == ".ts"@
    ||| ending == ".tsx"@
    ||| ending == ".mts"@
    ||| ending == ".cts"@
    ||| ending == ".js"@
    ||| ending == ".jsx"@
    ||| ending == ".mjs"@
    ||| ending == ".cjs"@
}

/// Where an import ends with none of the extensions that may be left out, the module under it is
/// searched for with each of them, and as the index module of a directory with each of them;
/// otherwise only as it is written.
pub proof fn law_left_out_extensions_are_guessed(key: Seq<char>, ending: Seq<char>)
    requires
        may_be_left_out(ending),
    ensures
        candidate_keys(key)[0] == key,
        ending.is_suffix_of(key) ==> candidate_keys(key) == seq![key],
        (forall|e: Seq<char>| may_be_left_out(e) ==> !#[trigger] e.is_suffix_of(key))
            ==> candidate_keys(key).contains(key + ending) && candidate_keys(key).contains(
            key + ("/index"@ + ending),
        ),
{
    let exts = sloppy_extensions();
    let idx = sloppy_index_files();
    lemma_index_names();
    let c: int = if ending == ".ts"@ {
        0
    } else if ending == ".tsx"@ {
        1
    } else if ending == ".mts"@ {
        2
    } else if ending == ".cts"@ {
        3
    } else if ending == ".js"@ {
        4
    } else if ending == ".jsx"@ {
        5
    } else if ending == ".mjs"@ {
        6
    } else {
        7
    };
    assert(exts[c] == ending);
    if ending.is_suffix_of(key) {
        assert(exts[c].is_suffix_of(key));
        assert(has_known_extension(key));
    }
    if forall|e: Seq<char>| may_be_left_out(e) ==> !#[trigger] e.is_suffix_of(key) {
        assert forall|i: int| 0 <= i < exts.len() implies !(#[trigger] exts[i]).is_suffix_of(
            key,
        ) by {
            assert(may_be_left_out(exts[i]));
        }
        assert(!has_known_extension(key));
        let all = candidate_keys(key);
        assert(all[1 + c] == key + ending);
        assert(all[9 + c] == key + idx[c]);
    }
}

proof fn lemma_index_names()
    ensures
        sloppy_index_files().len() == sloppy_extensions().len(),
        forall|i: int|
            0 <= i < sloppy_extensions().len() ==> #[trigger] sloppy_index_files()[i] == "/index"@
                + sloppy_extensions()[i],
{
    reveal_strlit("/index");
    reveal_strlit(".ts");
    reveal_strlit(".tsx");
    reveal_strlit(".mts");
    reveal_strlit(".cts");
    reveal_strlit(".js");
    reveal_strlit(".jsx");
    reveal_strlit(".mjs");
    reveal_strlit(".cjs");
    reveal_strlit("/index.ts");
    reveal_strlit("/index.tsx");
    reveal_strlit("/index.mts");
    reveal_strlit("/index.cts");
    reveal_strlit("/index.js");
    reveal_strlit("/index.jsx");
    reveal_strlit("/index.mjs");
    reveal_strlit("/index.cjs");
    assert("/index.ts"@ =~= "/index"@ + ".ts"@);
    assert("/index.tsx"@ =~= "/index"@ + ".tsx"@);
    assert("/index.mts"@ =~= "/index"@ + ".mts"@);
    assert("/index.cts"@ =~= "/index"@ + ".cts"@);
    assert("/index.js"@ =~= "/index"@ + ".js"@);
    assert("/index.jsx"@ =~= "/index"@ + ".jsx"@);
    assert("/index.mjs"@ =~= "/index"@ + ".mjs"@);
    assert("/index.cjs"@ =~= "/index"@ + ".cjs"@);
}

/// A file is preferred to the index module of a directory, whatever their extensions, and TypeScript
/// to JavaScript.
pub proof fn law_guesses_come_in_order(key: Seq<char>, i: int, keys: Seq<Seq<char>>, hit: int)
    requires
        0 <= i < sloppy_extensions().len(),
        !has_known_extension(key),
        is_first_hit(candidate_keys(key), keys, hit),
    ensures
        keys.contains(key + sloppy_extensions()[i]) ==> hit <= i + 1 && !(exists|e: Seq<char>|
            may_be_left_out(e) && candidate_keys(key)[hit] == #[trigger] (key + ("/index"@ + e))),
        sloppy_extensions().take(4) == seq![".ts"@, ".tsx"@, ".mts"@, ".cts"@],
{
    lemma_index_names();
    let all = candidate_keys(key);
    assert(all[i + 1] == key + sloppy_extensions()[i]);
    assert(sloppy_extensions().take(4) =~= seq![".ts"@, ".tsx"@, ".mts"@, ".cts"@]);
    if keys.contains(key + sloppy_extensions()[i]) {
        if hit > i + 1 {
            assert(!keys.contains(all[i + 1]));
        }
        assert forall|e: Seq<char>| may_be_left_out(e) implies all[hit] != #[trigger] (key + (
        "/index"@ + e)) by {
            reveal_strlit("/index");
            let x = key + ("/index"@ + e);
            assert("/index"@.len() == 6);
            if hit == 0 {
                assert(x.len() > key.len());
            } else {
                let ext = sloppy_extensions()[hit - 1];
                assert(all[hit] == key + ext);
                reveal_strlit(".ts");
                reveal_strlit(".tsx");
                reveal_strlit(".mts");
                reveal_strlit(".cts");
                reveal_strlit(".js");
                reveal_strlit(".jsx");
                reveal_strlit(".mjs");
                reveal_strlit(".cjs");
                assert(ext[0] == '.');
                assert(x[key.len() as int] == '/');
                assert((key + ext)[key.len() as int] == '.');
            }
        }
    }
}

} // verus!
