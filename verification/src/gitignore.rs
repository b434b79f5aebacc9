use vstd::prelude::*;

verus! {

#[verifier::external_type_specification]
#[verifier::external_body]
pub struct ExGitignoreBuilder(ignore::gitignore::GitignoreBuilder);

#[verifier::external_type_specification]
#[verifier::external_body]
pub struct ExGitignore(ignore::gitignore::Gitignore);

/// The root path a rule builder was created with.
pub uninterp spec fn gib_root(b: ignore::gitignore::GitignoreBuilder) -> Seq<char>;

/// The rule lines handed to a builder so far, in order.
pub uninterp spec fn gib_lines(b: ignore::gitignore::GitignoreBuilder) -> Seq<Seq<char>>;

/// The root path of a compiled matcher.
pub uninterp spec fn gi_root(g: ignore::gitignore::Gitignore) -> Seq<char>;

/// The rule lines a compiled matcher was built from, in order.
pub uninterp spec fn gi_rules(g: ignore::gitignore::Gitignore) -> Seq<Seq<char>>;

/// Whether a single rule line parses, as
/// `ignore::gitignore::GitignoreBuilder::add_line` decides it.
pub uninterp spec fn line_ok(line: Seq<char>) -> bool;

/// Whether a sequence of parsed rule lines compiles into a matcher, as
/// `ignore::gitignore::GitignoreBuilder::build` decides it.
pub uninterp spec fn rules_ok(lines: Seq<Seq<char>>) -> bool;

/// The verdict of gitignore matching: whether the given root-relative path,
/// known to be a directory or not, is ignored under the given rule lines
/// compiled at the given root.
pub uninterp spec fn ignore_match(
    root: Seq<char>,
    lines: Seq<Seq<char>>,
    path: Seq<char>,
    is_dir: bool,
) -> bool;

/// Every line in the sequence parses on its own.
pub open spec fn all_lines_ok(lines: Seq<Seq<char>>) -> bool {
    forall|i: int| 0 <= i < lines.len() ==> line_ok(lines[i])
}

/// Relies on `ignore::gitignore::GitignoreBuilder::new`: a fresh builder at
/// the given root holds no rules yet.
#[verifier::external_body]
fn gib_new(root: &str) -> (b: ignore::gitignore::GitignoreBuilder)
    ensures
        gib_root(b) == root@,
        gib_lines(b) == Seq::<Seq<char>>::empty(),
{
    ignore::gitignore::GitignoreBuilder::new(root)
}

/// Relies on `ignore::gitignore::GitignoreBuilder::add_line` with no source
/// file, on a builder as `GitignoreBuilder::new` creates it (its matching
/// options untouched): it appends one rule line, keeps the root, succeeds
/// exactly when the line's glob part parses (a function of the line alone),
/// and leaves the builder unchanged when it fails.
#[verifier::external_body]
fn gib_add_line(b: &mut ignore::gitignore::GitignoreBuilder, line: &str) -> (r: bool)
    ensures
        r == line_ok(line@),
        r ==> gib_lines(*final(b)) == gib_lines(*old(b)).push(line@) && gib_root(*final(b))
            == gib_root(*old(b)),
        !r ==> gib_lines(*final(b)) == gib_lines(*old(b)) && gib_root(*final(b)) == gib_root(
            *old(b),
        ),
{
    b.add_line(None, line).is_ok()
}

/// Relies on `ignore::gitignore::GitignoreBuilder::build`: it compiles the
/// added lines into a matcher with the same root and rules, and fails only
/// as a function of those lines.
#[verifier::external_body]
fn gib_build(b: &ignore::gitignore::GitignoreBuilder) -> (r: Option<
    ignore::gitignore::Gitignore,
>)
    ensures
        (r is Some) == rules_ok(gib_lines(*b)),
        r is Some ==> gi_root(r->0) == gib_root(*b) && gi_rules(r->0) == gib_lines(*b),
{
    b.build().ok()
}

/// Relies on `ignore::gitignore::Gitignore::empty`: a matcher with no rules
/// and an empty root that never matches anything.
#[verifier::external_body]
fn gi_empty() -> (g: ignore::gitignore::Gitignore)
    ensures
        gi_rules(g) == Seq::<Seq<char>>::empty(),
        gi_root(g) == Seq::<char>::empty(),
        forall|p: Seq<char>, d: bool| !ignore_match(gi_root(g), gi_rules(g), p, d),
{
    ignore::gitignore::Gitignore::empty()
}

/// Relies on `ignore::gitignore::Gitignore::matched` and
/// `ignore::Match::is_ignore`: the verdict is a function of the matcher's
/// root, its rule lines, the queried path and the directory flag alone.
#[verifier::external_body]
fn gi_is_ignored(g: &ignore::gitignore::Gitignore, path: &str, is_dir: bool) -> (r: bool)
    ensures
        r == ignore_match(gi_root(*g), gi_rules(*g), path@, is_dir),
{
    g.matched(path, is_dir).is_ignore()
}

/// A compiled, immutable set of gitignore-style rules scoped to a root.
pub struct IgnoreSet {
    matcher: ignore::gitignore::Gitignore,
}

impl IgnoreSet {
    /// The root the rules are scoped to.
    pub closed spec fn root_view(&self) -> Seq<char> {
        gi_root(self.matcher)
    }

    /// The rule lines the matcher was built from.
    pub closed spec fn lines_view(&self) -> Seq<Seq<char>> {
        gi_rules(self.matcher)
    }

    /// Asks whether the given root-relative path is ignored.
    pub fn is_ignored(&self, rel: &str, is_dir: bool) -> (r: bool)
        ensures
            r == ignore_match(self.root_view(), self.lines_view(), rel@, is_dir),
    {
        gi_is_ignored(&self.matcher, rel, is_dir)
    }
}

/// Builds the ignore-rule set for a traversal: a rule excluding `.git`,
/// followed by the given extra rule lines, scoped to the root. If any line
/// fails to parse or the set fails to compile, the result falls back to an
/// empty, permissive set that ignores nothing.
pub fn setup_gitignore(root: &str, lines: &Vec<String>) -> (r: IgnoreSet)
    ensures
        ({
            let all = seq![".git"@] + lines.deep_view();
            &&& (all_lines_ok(all) && rules_ok(all)) ==> r.root_view() == root@
                && r.lines_view() == all
            &&& !(all_lines_ok(all) && rules_ok(all)) ==> r.lines_view() == Seq::<
                Seq<char>,
            >::empty() && (forall|p: Seq<char>, d: bool|
                !ignore_match(r.root_view(), r.lines_view(), p, d))
        }),
{
    let ghost all = seq![".git"@] + lines.deep_view();
    let mut b = gib_new(root);
    if !gib_add_line(&mut b, ".git") {
        proof {
            assert(all[0] == ".git"@);
            assert(!all_lines_ok(all));
        }
        return IgnoreSet { matcher: gi_empty() };
    }
    proof {
        assert(gib_lines(b) =~= seq![".git"@] + lines.deep_view().take(0));
    }
    let n = lines.len();
    let mut i: usize = 0;
    while i < n
        invariant
            i <= n,
            n == lines@.len(),
            all == seq![".git"@] + lines.deep_view(),
            gib_root(b) == root@,
            gib_lines(b) == seq![".git"@] + lines.deep_view().take(i as int),
            all_lines_ok(gib_lines(b)),
        decreases n - i,
    {
        if !gib_add_line(&mut b, lines[i].as_str()) {
            proof {
                assert(lines.deep_view()[i as int] == lines@[i as int]@);
                assert(all[i + 1] == lines@[i as int]@);
                assert(!line_ok(all[i + 1]));
                assert(!all_lines_ok(all));
            }
            return IgnoreSet { matcher: gi_empty() };
        }
        proof {
            let prev = seq![".git"@] + lines.deep_view().take(i as int);
            assert(lines.deep_view()[i as int] == lines@[i as int]@);
            assert(prev.push(lines@[i as int]@) =~= seq![".git"@] + lines.deep_view().take(
                i + 1,
            ));
            let cur = seq![".git"@] + lines.deep_view().take(i + 1);
            assert(forall|j: int| 0 <= j < prev.len() ==> cur[j] == prev[j]);
        }
        i = i + 1;
    }
    proof {
        assert(lines.deep_view().take(n as int) =~= lines.deep_view());
        assert(gib_lines(b) == all);
    }
    match gib_build(&b) {
        Some(m) => IgnoreSet { matcher: m },
        None => IgnoreSet { matcher: gi_empty() },
    }
}

} // verus!
