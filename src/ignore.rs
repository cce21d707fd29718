//! Ignore patterns and the choice of the walked entries that enter the digest.
//! A pattern is a literal substring of a path: no glob or path-segment
//! meaning is given to it.
use vstd::prelude::*;
use crate::text::{chars_of, drop_trailing_ws, line_bounds, lines_of, skip_leading_ws, string_of, trim};

verus! {

/// Whether `needle` occurs in `hay` as a contiguous run of characters.
pub open spec fn is_substring(needle: Seq<char>, hay: Seq<char>) -> bool {
    exists|i: int|
        0 <= i && i + needle.len() <= hay.len() && #[trigger] hay.subrange(i, i + needle.len())
            == needle
}

/// Whether `needle` occurs in `hay` at position `at`.
fn occurs_at(hay: &Vec<char>, needle: &Vec<char>, at: usize) -> (r: bool)
    requires
        at + needle@.len() <= hay@.len(),
    ensures
        r == (hay@.subrange(at as int, at + needle@.len()) == needle@),
{
    let hay_len = hay.len();
    let mut j: usize = 0;
    while j < needle.len()
        invariant
            j <= needle@.len(),
            at + needle@.len() <= hay@.len() == hay_len,
            forall|t: int| 0 <= t < j ==> hay@[at + t] == needle@[t],
        decreases needle@.len() - j,
    {
        if hay[at + j] != needle[j] {
            assert(hay@.subrange(at as int, at + needle@.len())[j as int] != needle@[j as int]);
            return false;
        }
        j = j + 1;
    }
    assert(hay@.subrange(at as int, at + needle@.len()) =~= needle@);
    true
}

/// Whether `needle` occurs in `hay`; the empty needle occurs in every text.
pub fn contains_substring(hay: &str, needle: &str) -> (r: bool)
    ensures
        r == is_substring(needle@, hay@),
{
    let h = chars_of(hay);
    let n = chars_of(needle);
    if n.len() == 0 {
        assert(hay@.subrange(0int, 0int + needle@.len()) =~= needle@);
        return true;
    }
    if n.len() > h.len() {
        return false;
    }
    let h_len = h.len();
    let last = h_len - n.len();
    let mut i: usize = 0;
    while i <= last
        invariant
            last + n@.len() == h@.len() == h_len,
            n@.len() > 0,
            h@ == hay@,
            n@ == needle@,
            forall|t: int| 0 <= t < i ==> #[trigger] h@.subrange(t, t + n@.len()) != n@,
        decreases last + 1 - i,
    {
        if occurs_at(&h, &n, i) {
            return true;
        }
        i = i + 1;
    }
    false
}

/// Whether some pattern occurs in `path`.
pub open spec fn is_ignored_path(path: Seq<char>, patterns: Seq<String>) -> bool {
    exists|k: int| 0 <= k < patterns.len() && is_substring(#[trigger] patterns[k]@, path)
}

/// Tells whether `path` is excluded by one of `patterns`: case-sensitive
/// substring containment.
pub fn is_ignored(path: &str, patterns: &[String]) -> (r: bool)
    ensures
        r == is_ignored_path(path@, patterns@),
{
    let mut k: usize = 0;
    while k < patterns.len()
        invariant
            k <= patterns@.len(),
            forall|t: int| 0 <= t < k ==> !is_substring(#[trigger] patterns@[t]@, path@),
        decreases patterns@.len() - k,
    {
        if contains_substring(path, patterns[k].as_str()) {
            return true;
        }
        k = k + 1;
    }
    false
}

/// An entry that the tree walk produced: its path, and whether it is a directory.
pub struct WalkEntry {
    pub path: String,
    pub is_dir: bool,
}

/// An entry enters the digest when it is no directory and no pattern occurs in
/// its path.
pub open spec fn is_included(e: WalkEntry, patterns: Seq<String>) -> bool {
    !e.is_dir && !is_ignored_path(e.path@, patterns)
}

/// The positions in `es` of the entries that enter the digest, in walk order.
pub open spec fn included_positions(es: Seq<WalkEntry>, patterns: Seq<String>) -> Seq<int>
    decreases es.len(),
{
    if es.len() == 0 {
        Seq::empty()
    } else {
        let r = included_positions(es.drop_last(), patterns);
        if is_included(es.last(), patterns) {
            r.push(es.len() - 1)
        } else {
            r
        }
    }
}

/// The paths that enter the digest, in walk order.
pub open spec fn included_paths(es: Seq<WalkEntry>, patterns: Seq<String>) -> Seq<Seq<char>> {
    included_positions(es, patterns).map_values(|i: int| es[i].path@)
}

/// Picks the walked entries that enter the digest, and gives their positions
/// in walk order.
pub fn select_files(entries: &[WalkEntry], patterns: &[String]) -> (r: Vec<usize>)
    ensures
        r@.len() == included_positions(entries@, patterns@).len(),
        forall|j: int|
            0 <= j < r@.len() ==> r@[j] as int == #[trigger] included_positions(
                entries@,
                patterns@,
            )[j],
{
    let mut r: Vec<usize> = Vec::new();
    let mut k: usize = 0;
    proof {
        assert(entries@.take(0) =~= Seq::<WalkEntry>::empty());
    }
    while k < entries.len()
        invariant
            k <= entries@.len(),
            r@.len() == included_positions(entries@.take(k as int), patterns@).len(),
            forall|j: int|
                0 <= j < r@.len() ==> r@[j] as int == #[trigger] included_positions(
                    entries@.take(k as int),
                    patterns@,
                )[j],
        decreases entries@.len() - k,
    {
        let ghost before = included_positions(entries@.take(k as int), patterns@);
        let e = &entries[k];
        let keep = !e.is_dir && !is_ignored(e.path.as_str(), patterns);
        proof {
            assert(entries@.take(k + 1).drop_last() =~= entries@.take(k as int));
            assert(entries@.take(k + 1).last() == entries@[k as int]);
        }
        if keep {
            r.push(k);
        }
        proof {
            let after = included_positions(entries@.take(k + 1), patterns@);
            assert forall|j: int| 0 <= j < r@.len() implies r@[j] as int == #[trigger] after[j] by {
                if j < before.len() {
                    assert(r@[j] as int == before[j]);
                }
            }
        }
        k = k + 1;
    }
    assert(entries@.take(entries@.len() as int) =~= entries@);
    r
}

proof fn lemma_positions_facts(es: Seq<WalkEntry>, patterns: Seq<String>)
    ensures
        forall|j: int|
            0 <= j < included_positions(es, patterns).len() ==> {
                let i = #[trigger] included_positions(es, patterns)[j];
                0 <= i < es.len() && is_included(es[i], patterns)
            },
        forall|j1: int, j2: int|
            0 <= j1 < j2 < included_positions(es, patterns).len() ==> #[trigger] included_positions(
                es,
                patterns,
            )[j1] < #[trigger] included_positions(es, patterns)[j2],
        forall|i: int|
            0 <= i < es.len() && is_included(#[trigger] es[i], patterns) ==> exists|j: int|
                0 <= j < included_positions(es, patterns).len() && included_positions(
                    es,
                    patterns,
                )[j] == i,
    decreases es.len(),
{
    if es.len() > 0 {
        let d = es.drop_last();
        lemma_positions_facts(d, patterns);
        let r = included_positions(d, patterns);
        let full = included_positions(es, patterns);
        assert forall|j: int| 0 <= j < r.len() implies #[trigger] full[j] == r[j] && es[r[j]] == d[r[j]] by {}
        assert forall|i: int| 0 <= i < es.len() && is_included(#[trigger] es[i], patterns) implies exists|j: int|
            0 <= j < full.len() && full[j] == i by {
            if i < es.len() - 1 {
                assert(d[i] == es[i]);
                let j = choose|j: int| 0 <= j < r.len() && r[j] == i;
                assert(full[j] == r[j]);
            } else {
                assert(full[full.len() - 1] == i);
            }
        }
    }
}

/// Every walked entry that is no directory and whose path holds no pattern is
/// selected, and only once.
pub proof fn lemma_included_file_selected_once(es: Seq<WalkEntry>, patterns: Seq<String>, i: int)
    requires
        0 <= i < es.len(),
        !es[i].is_dir,
        !is_ignored_path(es[i].path@, patterns),
    ensures
        exists|j: int|
            0 <= j < included_positions(es, patterns).len() && included_positions(es, patterns)[j]
                == i,
        forall|j1: int, j2: int|
            0 <= j1 < included_positions(es, patterns).len() && 0 <= j2 < included_positions(
                es,
                patterns,
            ).len() && #[trigger] included_positions(es, patterns)[j1] == i
                && #[trigger] included_positions(es, patterns)[j2] == i ==> j1 == j2,
{
    lemma_positions_facts(es, patterns);
    assert(is_included(es[i], patterns));
}

/// No walked entry whose path holds a pattern as a substring is selected.
pub proof fn lemma_ignored_file_never_selected(es: Seq<WalkEntry>, patterns: Seq<String>, i: int)
    requires
        0 <= i < es.len(),
        is_ignored_path(es[i].path@, patterns),
    ensures
        forall|j: int|
            0 <= j < included_positions(es, patterns).len() ==> #[trigger] included_positions(
                es,
                patterns,
            )[j] != i,
{
    lemma_positions_facts(es, patterns);
}

/// Two walks that meet the same entries, in whatever order, select the same
/// set of paths.
pub proof fn lemma_included_paths_order_free(a: Seq<WalkEntry>, b: Seq<WalkEntry>, patterns: Seq<String>)
    requires
        a.to_set() == b.to_set(),
    ensures
        included_paths(a, patterns).to_set() == included_paths(b, patterns).to_set(),
{
    lemma_included_paths_in(a, b, patterns);
    lemma_included_paths_in(b, a, patterns);
    assert(included_paths(a, patterns).to_set() =~= included_paths(b, patterns).to_set());
}

proof fn lemma_included_paths_in(a: Seq<WalkEntry>, b: Seq<WalkEntry>, patterns: Seq<String>)
    requires
        a.to_set() == b.to_set(),
    ensures
        forall|x: Seq<char>| #[trigger] included_paths(a, patterns).contains(x) ==> included_paths(
            b,
            patterns,
        ).contains(x),
{
    lemma_positions_facts(a, patterns);
    lemma_positions_facts(b, patterns);
    let pa = included_positions(a, patterns);
    let pb = included_positions(b, patterns);
    assert forall|x: Seq<char>| #[trigger] included_paths(a, patterns).contains(x) implies included_paths(
        b,
        patterns,
    ).contains(x) by {
        let j = choose|j: int| 0 <= j < pa.len() && included_paths(a, patterns)[j] == x;
        let i = pa[j];
        assert(a.to_set().contains(a[i]));
        assert(b.to_set().contains(a[i]));
        let i2 = choose|i2: int| 0 <= i2 < b.len() && b[i2] == a[i];
        assert(is_included(b[i2], patterns));
        let j2 = choose|j2: int| 0 <= j2 < pb.len() && pb[j2] == i2;
        assert(included_paths(b, patterns)[j2] == x);
    }
}

/// The views of a sequence of strings.
pub open spec fn views(ss: Seq<String>) -> Seq<Seq<char>> {
    ss.map_values(|s: String| s@)
}

/// The patterns that an ignore file holds: each line trimmed of whitespace at
/// both ends, blank lines left out, in file order.
pub open spec fn ignore_file_patterns(content: Seq<char>) -> Seq<Seq<char>> {
    lines_of(content).map_values(|l: Seq<char>| trim(l)).filter(|t: Seq<char>| t.len() > 0)
}

/// Reads the patterns out of the text of an ignore file.
pub fn parse_ignore_patterns(content: &str) -> (r: Vec<String>)
    ensures
        views(r@) == ignore_file_patterns(content@),
{
    let v = chars_of(content);
    let bounds = line_bounds(&v);
    let ghost ts = lines_of(v@).map_values(|l: Seq<char>| trim(l));
    let ghost nonempty = |t: Seq<char>| t.len() > 0;
    let mut r: Vec<String> = Vec::new();
    let mut k: usize = 0;
    proof {
        assert(ts.take(0) =~= Seq::<Seq<char>>::empty());
        assert(views(r@) =~= Seq::<Seq<char>>::empty());
        reveal_with_fuel(Seq::filter, 1);
    }
    while k < bounds.len()
        invariant
            k <= bounds@.len(),
            bounds@.len() == lines_of(v@).len() == ts.len(),
            forall|j: int| 0 <= j < bounds@.len() ==> #[trigger] bounds@[j].0 <= bounds@[j].1 <= v@.len(),
            forall|j: int|
                0 <= j < bounds@.len() ==> v@.subrange(bounds@[j].0 as int, bounds@[j].1 as int)
                    == #[trigger] lines_of(v@)[j],
            ts == lines_of(v@).map_values(|l: Seq<char>| trim(l)),
            nonempty == (|t: Seq<char>| t.len() > 0),
            views(r@) == ts.take(k as int).filter(nonempty),
        decreases bounds@.len() - k,
    {
        let (from, to) = bounds[k];
        assert(bounds@[k as int].0 <= bounds@[k as int].1 <= v@.len());
        let start = skip_leading_ws(&v, from, to);
        let end = drop_trailing_ws(&v, start, to);
        proof {
            assert(v@.subrange(from as int, to as int) == lines_of(v@)[k as int]);
            assert(ts[k as int] == v@.subrange(start as int, end as int));
            assert(ts.take(k + 1) =~= ts.take(k as int).push(ts[k as int]));
            ts.take(k as int).lemma_filter_push(ts[k as int], nonempty);
        }
        if start < end {
            let p = string_of(&v, start, end);
            let ghost before = r@;
            r.push(p);
            assert(views(r@) =~= views(before).push(p@));
        }
        k = k + 1;
    }
    assert(ts.take(ts.len() as int) =~= ts);
    assert(v@ == content@);
    r
}

/// The built-in patterns: version control, dependency, lock, cache and build
/// output names of common toolchains.
pub open spec fn default_patterns() -> Seq<Seq<char>> {
    seq![
        "idea"@,
        "exclude"@,
        "target"@,
        "node_modules"@,
        ".git"@,
        "package-lock.json"@,
        "npm-debug.log"@,
        "yarn.lock"@,
        "yarn-error.log"@,
        "pnpm-lock.yaml"@,
        "bun.lockb"@,
        "deno.lock"@,
        "vendor"@,
        "composer.lock"@,
        "__pycache__"@,
        "*.pyc"@,
        "*.pyo"@,
        "*.pyd"@,
        ".Python"@,
        "pip-log.txt"@,
        "pip-delete-this-directory.txt"@,
        ".venv"@,
        "venv"@,
        "ENV"@,
        "env"@,
        ".godot"@,
        "*.import"@,
        "Gemfile.lock"@,
        ".bundle"@,
        "*.class"@,
        ".gradle"@,
        "build"@,
        "pom.xml.tag"@,
        "pom.xml.releaseBackup"@,
        "pom.xml.versionsBackup"@,
        "pom.xml.next"@,
        "bin"@,
        "obj"@,
        "*.suo"@,
        "*.user"@,
        "go.sum"@,
        "Cargo.lock"@,
        ".svn"@,
        ".hg"@,
        ".DS_Store"@,
        "Thumbs.db"@,
        ".env"@,
        ".env.local"@,
        ".env.development.local"@,
        ".env.test.local"@,
        ".env.production.local"@,
        "*.env"@,
        "*.env.*"@,
        ".svelte-kit"@,
        ".next"@,
        ".nuxt"@,
        ".vuepress"@,
        ".cache"@,
        "dist"@,
        "tmp"@,
        "codebase.md"@,
        ".turbo"@,
        ".vercel"@,
        ".netlify"@,
        "LICENSE"@,
    ]
}

/// The built-in patterns, in their fixed order.
pub fn default_ignore_patterns() -> (r: Vec<String>)
    ensures
        views(r@) == default_patterns(),
{
    let mut r: Vec<String> = Vec::new();
    r.push(String::from_str("idea"));
    r.push(String::from_str("exclude"));
    r.push(String::from_str("target"));
    r.push(String::from_str("node_modules"));
    r.push(String::from_str(".git"));
    r.push(String::from_str("package-lock.json"));
    r.push(String::from_str("npm-debug.log"));
    r.push(String::from_str("yarn.lock"));
    r.push(String::from_str("yarn-error.log"));
    r.push(String::from_str("pnpm-lock.yaml"));
    r.push(String::from_str("bun.lockb"));
    r.push(String::from_str("deno.lock"));
    r.push(String::from_str("vendor"));
    r.push(String::from_str("composer.lock"));
    r.push(String::from_str("__pycache__"));
    r.push(String::from_str("*.pyc"));
    r.push(String::from_str("*.pyo"));
    r.push(String::from_str("*.pyd"));
    r.push(String::from_str(".Python"));
    r.push(String::from_str("pip-log.txt"));
    r.push(String::from_str("pip-delete-this-directory.txt"));
    r.push(String::from_str(".venv"));
    r.push(String::from_str("venv"));
    r.push(String::from_str("ENV"));
    r.push(String::from_str("env"));
    r.push(String::from_str(".godot"));
    r.push(String::from_str("*.import"));
    r.push(String::from_str("Gemfile.lock"));
    r.push(String::from_str(".bundle"));
    r.push(String::from_str("*.class"));
    r.push(String::from_str(".gradle"));
    r.push(String::from_str("build"));
    r.push(String::from_str("pom.xml.tag"));
    r.push(String::from_str("pom.xml.releaseBackup"));
    r.push(String::from_str("pom.xml.versionsBackup"));
    r.push(String::from_str("pom.xml.next"));
    r.push(String::from_str("bin"));
    r.push(String::from_str("obj"));
    r.push(String::from_str("*.suo"));
    r.push(String::from_str("*.user"));
    r.push(String::from_str("go.sum"));
    r.push(String::from_str("Cargo.lock"));
    r.push(String::from_str(".svn"));
    r.push(String::from_str(".hg"));
    r.push(String::from_str(".DS_Store"));
    r.push(String::from_str("Thumbs.db"));
    r.push(String::from_str(".env"));
    r.push(String::from_str(".env.local"));
    r.push(String::from_str(".env.development.local"));
    r.push(String::from_str(".env.test.local"));
    r.push(String::from_str(".env.production.local"));
    r.push(String::from_str("*.env"));
    r.push(String::from_str("*.env.*"));
    r.push(String::from_str(".svelte-kit"));
    r.push(String::from_str(".next"));
    r.push(String::from_str(".nuxt"));
    r.push(String::from_str(".vuepress"));
    r.push(String::from_str(".cache"));
    r.push(String::from_str("dist"));
    r.push(String::from_str("tmp"));
    r.push(String::from_str("codebase.md"));
    r.push(String::from_str(".turbo"));
    r.push(String::from_str(".vercel"));
    r.push(String::from_str(".netlify"));
    r.push(String::from_str("LICENSE"));
    assert(views(r@) =~= default_patterns());
    r
}

/// The patterns in force: the built-in ones unless they are switched off,
/// then those of the ignore file, in that order; duplicates are kept.
pub fn ignore_patterns(use_defaults: bool, from_file: &[String]) -> (r: Vec<String>)
    ensures
        views(r@) == (if use_defaults {
            default_patterns()
        } else {
            Seq::empty()
        }) + views(from_file@),
{
    let mut r: Vec<String> = if use_defaults {
        default_ignore_patterns()
    } else {
        Vec::new()
    };
    let ghost first = views(r@);
    let mut k: usize = 0;
    while k < from_file.len()
        invariant
            k <= from_file@.len(),
            views(r@) == first + views(from_file@).take(k as int),
        decreases from_file@.len() - k,
    {
        let ghost before = r@;
        r.push(from_file[k].clone());
        assert(views(r@) =~= views(before).push(from_file@[k as int]@));
        assert(views(from_file@).take(k + 1) =~= views(from_file@).take(k as int).push(
            from_file@[k as int]@,
        ));
        k = k + 1;
    }
    assert(views(from_file@).take(from_file@.len() as int) =~= views(from_file@));
    assert(first =~= (if use_defaults {
        default_patterns()
    } else {
        Seq::empty()
    }));
    r
}

} // verus!
