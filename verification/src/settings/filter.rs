//! Which files a review looks at.

use vstd::prelude::*;

use crate::text::affix::{after_prefix, strip_prefix};
use crate::text::pieces::{lines, lines_of, words, words_of};
use crate::text::{cat2, cat4, chars, collect, opt, same, texts};

verus! {

/// A single glob of the `globset` crate.
#[verifier::external_type_specification]
#[verifier::external_body]
pub struct ExGlob(globset::Glob);

/// A set of globs under construction.
#[verifier::external_type_specification]
#[verifier::external_body]
pub struct ExGlobSetBuilder(globset::GlobSetBuilder);

/// A set of globs of the `globset` crate.
#[verifier::external_type_specification]
#[verifier::external_body]
pub struct ExGlobSet(globset::GlobSet);

/// The pattern that a glob was made from; every glob here has the default
/// options.
pub uninterp spec fn glob_source(g: globset::Glob) -> Seq<char>;

/// The patterns added to a builder, in order.
pub uninterp spec fn builder_globs(b: globset::GlobSetBuilder) -> Seq<Seq<char>>;

/// The patterns in a set, in the order they were added.
pub uninterp spec fn set_globs(s: globset::GlobSet) -> Seq<Seq<char>>;

/// True when a pattern is a glob.
pub uninterp spec fn is_glob(pattern: Seq<char>) -> bool;

/// True when a glob matches a path.
pub uninterp spec fn glob_matches(pattern: Seq<char>, path: Seq<char>) -> bool;

/// True when a list of globs can be built into a set.
pub uninterp spec fn builds(patterns: Seq<Seq<char>>) -> bool;

/// `Glob::new`: a glob for the pattern, or none when it is no glob. Which
/// patterns are globs depends on the pattern alone.
#[verifier::external_body]
fn parse_glob(pattern: &str) -> (r: Option<globset::Glob>)
    ensures
        r is Some <==> is_glob(pattern@),
        r is Some ==> glob_source(r.unwrap()) == pattern@,
{
    globset::Glob::new(pattern).ok()
}

/// `GlobSetBuilder::new`: a builder without patterns.
#[verifier::external_body]
fn new_builder() -> (r: globset::GlobSetBuilder)
    ensures
        builder_globs(r) == Seq::<Seq<char>>::empty(),
{
    globset::GlobSetBuilder::new()
}

/// `GlobSetBuilder::add`: one more pattern at the end.
#[verifier::external_body]
fn add_glob(b: &mut globset::GlobSetBuilder, g: globset::Glob)
    ensures
        builder_globs(*final(b)) == builder_globs(*old(b)).push(glob_source(g)),
{
    b.add(g);
}

/// `GlobSetBuilder::build`: a set of all the patterns added, or none when they
/// cannot be built. Whether they can depends on the patterns alone.
#[verifier::external_body]
fn build_set(b: &globset::GlobSetBuilder) -> (r: Option<globset::GlobSet>)
    ensures
        r is Some <==> builds(builder_globs(*b)),
        r is Some ==> set_globs(r.unwrap()) == builder_globs(*b),
{
    b.build().ok()
}

/// True when some glob of a list matches a path.
pub open spec fn any_matches(patterns: Seq<Seq<char>>, path: Seq<char>) -> bool {
    exists|i: int| 0 <= i < patterns.len() && glob_matches(#[trigger] patterns[i], path)
}

/// `GlobSet::is_match`: true when any glob of the set matches the path.
#[verifier::external_body]
fn set_matches(s: &globset::GlobSet, path: &str) -> (r: bool)
    ensures
        r == (exists|i: int|
            0 <= i < set_globs(*s).len() && glob_matches(#[trigger] set_globs(*s)[i], path@)),
{
    s.is_match(path)
}

/// The first pattern that is no glob.
pub open spec fn bad_glob(patterns: Seq<Seq<char>>) -> Option<Seq<char>>
    decreases patterns.len(),
{
    if patterns.len() == 0 {
        None
    } else if !is_glob(patterns[0]) {
        Some(patterns[0])
    } else {
        bad_glob(patterns.drop_first())
    }
}

/// Why a list of patterns makes no set; none when it makes one.
pub open spec fn glob_error(patterns: Seq<Seq<char>>) -> Option<Seq<char>> {
    match bad_glob(patterns) {
        Some(p) => Some("invalid glob: "@ + p),
        None => if builds(patterns) {
            None
        } else {
            Some("building glob set"@)
        },
    }
}

/// The set of a list of patterns.
pub fn glob_set(patterns: &Vec<String>) -> (r: Result<globset::GlobSet, String>)
    ensures
        match r {
            Ok(s) => glob_error(texts(patterns@)) is None && set_globs(s) == texts(patterns@),
            Err(e) => glob_error(texts(patterns@)) == Some(e@),
        },
{
    let ghost all = texts(patterns@);
    let mut builder = new_builder();
    let mut i: usize = 0;
    proof {
        assert(all.skip(0) =~= all);
        assert(all.take(0) =~= Seq::empty());
    }
    while i < patterns.len()
        invariant
            i <= patterns@.len(),
            all == texts(patterns@),
            bad_glob(all.skip(i as int)) == bad_glob(all),
            builder_globs(builder) == all.take(i as int),
        decreases patterns.len() - i,
    {
        proof {
            assert(all.skip(i as int)[0] == patterns@[i as int]@);
            assert(all.skip(i as int).drop_first() =~= all.skip(i + 1));
            assert(all.take(i + 1) =~= all.take(i as int).push(all[i as int]));
        }
        match parse_glob(patterns[i].as_str()) {
            Some(g) => add_glob(&mut builder, g),
            None => return Err(cat2("invalid glob: ", patterns[i].as_str())),
        }
        i += 1;
    }
    assert(all.take(all.len() as int) =~= all);
    match build_set(&builder) {
        Some(s) => Ok(s),
        None => Err("building glob set".to_owned()),
    }
}

/// The files that no review looks at: lockfiles, generated and vendored code,
/// build outputs.
pub open spec fn default_excludes() -> Seq<Seq<char>> {
    Seq::empty()
        .push("**/*.lock"@)
        .push("**/package-lock.json"@)
        .push("**/pnpm-lock.yaml"@)
        .push("**/yarn.lock"@)
        .push("**/composer.lock"@)
        .push("**/Gemfile.lock"@)
        .push("**/Cargo.lock"@)
        .push("**/Pipfile.lock"@)
        .push("**/poetry.lock"@)
        .push("**/requirements.txt"@)
        .push("**/*.min.js"@)
        .push("**/*.min.css"@)
        .push("**/*.min.css.map"@)
        .push("**/*.min.js.map"@)
        .push("**/*.map"@)
        .push("**/*.snap"@)
        .push("**/dist/**"@)
        .push("**/build/**"@)
        .push("**/out/**"@)
        .push("**/node_modules/**"@)
        .push("**/vendor/**"@)
        .push("**/.git/**"@)
        .push("**/.hg/**"@)
        .push("**/.svn/**"@)
        .push("**/.DS_Store"@)
        .push("**/Thumbs.db"@)
        .push("**/*.class"@)
        .push("**/target/**"@)
        .push("**/*.pyc"@)
}

fn list_pattern(list: &mut Vec<String>, pattern: &str)
    ensures
        texts(final(list)@) == texts(old(list)@).push(pattern@),
{
    list.push(pattern.to_owned());
    assert(texts(list@) =~= texts(old(list)@).push(pattern@));
}

fn excludes_by_default() -> (r: Vec<String>)
    ensures
        texts(r@) == default_excludes(),
{
    let mut out: Vec<String> = Vec::new();
    assert(texts(out@) =~= Seq::empty());
    list_pattern(&mut out, "**/*.lock");
    list_pattern(&mut out, "**/package-lock.json");
    list_pattern(&mut out, "**/pnpm-lock.yaml");
    list_pattern(&mut out, "**/yarn.lock");
    list_pattern(&mut out, "**/composer.lock");
    list_pattern(&mut out, "**/Gemfile.lock");
    list_pattern(&mut out, "**/Cargo.lock");
    list_pattern(&mut out, "**/Pipfile.lock");
    list_pattern(&mut out, "**/poetry.lock");
    list_pattern(&mut out, "**/requirements.txt");
    list_pattern(&mut out, "**/*.min.js");
    list_pattern(&mut out, "**/*.min.css");
    list_pattern(&mut out, "**/*.min.css.map");
    list_pattern(&mut out, "**/*.min.js.map");
    list_pattern(&mut out, "**/*.map");
    list_pattern(&mut out, "**/*.snap");
    list_pattern(&mut out, "**/dist/**");
    list_pattern(&mut out, "**/build/**");
    list_pattern(&mut out, "**/out/**");
    list_pattern(&mut out, "**/node_modules/**");
    list_pattern(&mut out, "**/vendor/**");
    list_pattern(&mut out, "**/.git/**");
    list_pattern(&mut out, "**/.hg/**");
    list_pattern(&mut out, "**/.svn/**");
    list_pattern(&mut out, "**/.DS_Store");
    list_pattern(&mut out, "**/Thumbs.db");
    list_pattern(&mut out, "**/*.class");
    list_pattern(&mut out, "**/target/**");
    list_pattern(&mut out, "**/*.pyc");
    out
}

/// Which files a review looks at.
pub struct PathFilter {
    included: Option<globset::GlobSet>,
    excluded: globset::GlobSet,
}

/// True when `r` is the filter for these patterns, or why there is none.
pub open spec fn filter_made(
    r: Result<PathFilter, String>,
    want: Seq<Seq<char>>,
    unwanted: Seq<Seq<char>>,
) -> bool {
    let avoid = default_excludes() + unwanted;
    let first = if want.len() == 0 {
        None
    } else {
        glob_error(want)
    };
    match first {
        Some(e) => r is Err && r->Err_0@ == e,
        None => match glob_error(avoid) {
            Some(e) => r is Err && r->Err_0@ == e,
            None => r is Ok && r->Ok_0.unwanted() == avoid && r->Ok_0.wanted() == (if want.len()
                == 0 {
                None
            } else {
                Some(want)
            }),
        },
    }
}

/// A filter lets a path through exactly when none of the patterns that come with
/// it and none of the unwanted ones match it, and, where some are wanted, one of
/// those does.
pub proof fn a_filter_lets_what_is_wanted(
    r: Result<PathFilter, String>,
    want: Seq<Seq<char>>,
    unwanted: Seq<Seq<char>>,
    path: Seq<char>,
)
    requires
        filter_made(r, want, unwanted),
        r is Ok,
    ensures
        r->Ok_0.lets(path) <==> !any_matches(default_excludes(), path) && !any_matches(
            unwanted,
            path,
        ) && (want.len() == 0 || any_matches(want, path)),
{
    let avoid = default_excludes() + unwanted;
    if any_matches(default_excludes(), path) {
        let i = choose|i: int|
            0 <= i < default_excludes().len() && glob_matches(
                #[trigger] default_excludes()[i],
                path,
            );
        assert(avoid[i] == default_excludes()[i]);
    }
    if any_matches(unwanted, path) {
        let i = choose|i: int|
            0 <= i < unwanted.len() && glob_matches(#[trigger] unwanted[i], path);
        assert(avoid[default_excludes().len() + i] == unwanted[i]);
    }
    if any_matches(avoid, path) {
        let i = choose|i: int| 0 <= i < avoid.len() && glob_matches(#[trigger] avoid[i], path);
        if i < default_excludes().len() {
            assert(default_excludes()[i] == avoid[i]);
        } else {
            assert(unwanted[i - default_excludes().len()] == avoid[i]);
        }
    }
}

/// A pattern that is none is named, the first of them where there are several.
pub proof fn a_bad_pattern_is_named(patterns: Seq<Seq<char>>, i: int)
    requires
        0 <= i < patterns.len(),
        !is_glob(patterns[i]),
        forall|k: int| 0 <= k < i ==> is_glob(#[trigger] patterns[k]),
    ensures
        glob_error(patterns) == Some("invalid glob: "@ + patterns[i]),
    decreases i,
{
    if i > 0 {
        let t = patterns.drop_first();
        assert(is_glob(patterns[0]));
        assert forall|k: int| 0 <= k < i - 1 implies is_glob(#[trigger] t[k]) by {
            assert(t[k] == patterns[k + 1]);
        }
        lemma_bad_glob(t, i - 1);
    }
}

proof fn lemma_bad_glob(patterns: Seq<Seq<char>>, i: int)
    requires
        0 <= i < patterns.len(),
        !is_glob(patterns[i]),
        forall|k: int| 0 <= k < i ==> is_glob(#[trigger] patterns[k]),
    ensures
        bad_glob(patterns) == Some(patterns[i]),
    decreases i,
{
    if i > 0 {
        let t = patterns.drop_first();
        assert(is_glob(patterns[0]));
        assert forall|k: int| 0 <= k < i - 1 implies is_glob(#[trigger] t[k]) by {
            assert(t[k] == patterns[k + 1]);
        }
        lemma_bad_glob(t, i - 1);
    }
}

impl PathFilter {
    /// The patterns a path has to match one of; none means any path.
    pub closed spec fn wanted(self) -> Option<Seq<Seq<char>>> {
        match self.included {
            Some(s) => Some(set_globs(s)),
            None => None,
        }
    }

    /// The patterns a path must match none of.
    pub closed spec fn unwanted(self) -> Seq<Seq<char>> {
        set_globs(self.excluded)
    }

    /// True when the filter lets a path through.
    pub open spec fn lets(self, path: Seq<char>) -> bool {
        !any_matches(self.unwanted(), path) && match self.wanted() {
            Some(patterns) => any_matches(patterns, path),
            None => true,
        }
    }

    /// A filter: no `included` patterns means everything, and the `excluded`
    /// ones come on top of the default ones.
    pub fn new(included: &Vec<String>, excluded: &Vec<String>) -> (r: Result<PathFilter, String>)
        ensures
            ({
                let want = texts(included@);
                let avoid = default_excludes() + texts(excluded@);
                let first = if want.len() == 0 {
                    None
                } else {
                    glob_error(want)
                };
                match first {
                    Some(e) => r is Err && r->Err_0@ == e,
                    None => match glob_error(avoid) {
                        Some(e) => r is Err && r->Err_0@ == e,
                        None => r is Ok && r->Ok_0.unwanted() == avoid && r->Ok_0.wanted() == (
                        if want.len() == 0 {
                            None
                        } else {
                            Some(want)
                        }),
                    },
                }
            }),
            filter_made(r, texts(included@), texts(excluded@)),
    {
        let mut all = excludes_by_default();
        let mut more = crate::text::clone_texts(excluded);
        all.append(&mut more);
        assert(texts(all@) =~= default_excludes() + texts(excluded@));
        assert(texts(included@).len() == included@.len());
        let first = if included.len() == 0 {
            None
        } else {
            match glob_set(included) {
                Ok(s) => Some(s),
                Err(e) => return Err(e),
            }
        };
        match glob_set(&all) {
            Ok(s) => Ok(PathFilter { included: first, excluded: s }),
            Err(e) => Err(e),
        }
    }

    /// Whether the filter lets a path through.
    pub fn allows(&self, path: &str) -> (r: bool)
        ensures
            r == self.lets(path@),
    {
        if set_matches(&self.excluded, path) {
            return false;
        }
        match &self.included {
            Some(s) => set_matches(s, path),
            None => true,
        }
    }
}

/// A path that an exclusion matches is never let through, whatever else does.
pub proof fn exclusion_wins(f: PathFilter, path: Seq<char>)
    requires
        any_matches(f.unwanted(), path),
    ensures
        !f.lets(path),
{
}

/// The path that a line of a diff names twice, as it is before and after.
pub open spec fn same_path(rest: Seq<char>) -> Option<Seq<char>> {
    let n = (rest.len() - 5) / 2;
    let path = rest.subrange(2, 2 + n);
    if rest.len() >= 5 && rest == "a/"@ + path + " b/"@ + path {
        Some(path)
    } else {
        None
    }
}

/// The path that a line of a diff turns to: what a `diff --git` line names
/// twice, and where the names differ its second word without the `b/`.
pub open spec fn target_of(line: Seq<char>) -> Option<Option<Seq<char>>> {
    match after_prefix(line, "diff --git "@) {
        Some(rest) => match same_path(rest) {
            Some(path) => Some(Some(path)),
            None => {
                let w = words_of(rest);
                if w.len() >= 2 {
                    Some(after_prefix(w[1], "b/"@))
                } else {
                    Some(None)
                }
            },
        },
        None => None,
    }
}

/// Whatever a path holds, whitespace and marks too, a line that names it twice
/// turns to it.
pub proof fn a_path_is_found_whole(path: Seq<char>)
    ensures
        target_of("diff --git "@ + "a/"@ + path + " b/"@ + path) == Some(Some(path)),
{
    reveal_strlit("diff --git ");
    reveal_strlit("a/");
    reveal_strlit(" b/");
    let rest = "a/"@ + path + " b/"@ + path;
    let line = "diff --git "@ + "a/"@ + path + " b/"@ + path;
    assert(line.take(11) =~= "diff --git "@);
    assert(line.skip(11) =~= rest);
    assert(rest.subrange(2, 2 + path.len() as int) =~= path);
}

/// Whether lines are kept from this one on.
pub open spec fn keeps(f: PathFilter, line: Seq<char>, keep: bool) -> bool {
    match target_of(line) {
        Some(Some(path)) => f.lets(path),
        Some(None) => true,
        None => keep,
    }
}

/// Whether lines are kept after the first `n`.
pub open spec fn keeping(f: PathFilter, v: Seq<Seq<char>>, n: nat) -> bool
    decreases n,
{
    if n == 0 || n > v.len() {
        true
    } else {
        keeps(f, v[n - 1], keeping(f, v, (n - 1) as nat))
    }
}

/// The first `n` lines of a diff, those of other files left out.
pub open spec fn kept_lines(f: PathFilter, v: Seq<Seq<char>>, n: nat) -> Seq<char>
    decreases n,
{
    if n == 0 || n > v.len() {
        Seq::empty()
    } else if keeping(f, v, n) {
        kept_lines(f, v, (n - 1) as nat) + v[n - 1] + "\n"@
    } else {
        kept_lines(f, v, (n - 1) as nat)
    }
}

fn path_twice(rest: &str) -> (r: Option<String>)
    ensures
        opt(r) == same_path(rest@),
{
    let v = chars(rest);
    if v.len() < 5 {
        return None;
    }
    let n: usize = (v.len() - 5) / 2;
    let path = collect(&v, 2, 2 + n);
    if same(rest, cat4("a/", path.as_str(), " b/", path.as_str()).as_str()) {
        Some(path)
    } else {
        None
    }
}

fn keep_from(f: &PathFilter, line: &str, keep: bool) -> (r: bool)
    ensures
        r == keeps(*f, line@, keep),
{
    let rest = match strip_prefix(line, "diff --git ") {
        Some(rest) => rest,
        None => return keep,
    };
    match path_twice(rest.as_str()) {
        Some(path) => return f.allows(path.as_str()),
        None => {},
    }
    let w = words(rest.as_str());
    assert(texts(w@).len() == w@.len());
    if w.len() >= 2 {
        assert(texts(w@)[1] == w@[1]@);
        match strip_prefix(w[1].as_str(), "b/") {
            Some(path) => f.allows(path.as_str()),
            None => true,
        }
    } else {
        true
    }
}

/// The sections of a unified diff whose file passes the filter.
pub fn filter_diff(diff: &str, filter: &PathFilter) -> (r: String)
    ensures
        r@ == kept_lines(*filter, lines_of(diff@), lines_of(diff@).len()),
{
    let v = lines(diff);
    let ghost all = texts(v@);
    let mut out = String::new();
    let mut keep = true;
    let mut i: usize = 0;
    assert(out@ =~= kept_lines(*filter, all, 0));
    while i < v.len()
        invariant
            i <= v@.len(),
            all == texts(v@),
            keep == keeping(*filter, all, i as nat),
            out@ == kept_lines(*filter, all, i as nat),
        decreases v.len() - i,
    {
        assert(all[i as int] == v@[i as int]@);
        keep = keep_from(filter, v[i].as_str(), keep);
        if keep {
            out.push_str(v[i].as_str());
            out.push_str("\n");
        }
        i += 1;
    }
    out
}

/// The text of the first `n` lines, each with its line feed.
pub open spec fn all_lines(v: Seq<Seq<char>>, n: nat) -> Seq<char>
    decreases n,
{
    if n == 0 || n > v.len() {
        Seq::empty()
    } else {
        all_lines(v, (n - 1) as nat) + v[n - 1] + "\n"@
    }
}

/// A filter that lets every path through leaves every line in.
pub proof fn letting_all_keeps_all(f: PathFilter, v: Seq<Seq<char>>, n: nat)
    requires
        forall|path: Seq<char>| f.lets(path),
        n <= v.len(),
    ensures
        keeping(f, v, n),
        kept_lines(f, v, n) == all_lines(v, n),
    decreases n,
{
    if n > 0 {
        letting_all_keeps_all(f, v, (n - 1) as nat);
    }
}

/// A filter with a bad pattern is not made, whichever list the pattern is in.
pub proof fn bad_patterns_make_no_filter(
    r: Result<PathFilter, String>,
    want: Seq<Seq<char>>,
    unwanted: Seq<Seq<char>>,
    i: int,
)
    requires
        filter_made(r, want, unwanted),
    ensures
        0 <= i < want.len() && !is_glob(want[i]) ==> r is Err,
        0 <= i < unwanted.len() && !is_glob(unwanted[i]) ==> r is Err,
{
    if 0 <= i < want.len() && !is_glob(want[i]) {
        lemma_some_bad_glob(want, i);
    }
    if 0 <= i < unwanted.len() && !is_glob(unwanted[i]) {
        let avoid = default_excludes() + unwanted;
        assert(avoid[default_excludes().len() + i] == unwanted[i]);
        lemma_some_bad_glob(avoid, default_excludes().len() + i);
    }
}

proof fn lemma_some_bad_glob(patterns: Seq<Seq<char>>, i: int)
    requires
        0 <= i < patterns.len(),
        !is_glob(patterns[i]),
    ensures
        bad_glob(patterns) is Some,
    decreases patterns.len(),
{
    if is_glob(patterns[0]) {
        let t = patterns.drop_first();
        assert(t[i - 1] == patterns[i]);
        lemma_some_bad_glob(t, i - 1);
    }
}

} // verus!
