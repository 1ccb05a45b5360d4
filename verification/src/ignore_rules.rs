use vstd::prelude::*;
use vstd::seq_lib::group_seq_properties;
use ignore::gitignore::Gitignore;
use ignore::gitignore::GitignoreBuilder;

verus! {

/// What an ignore manifest says of one path: nothing, that it is excluded,
/// or that it is explicitly kept.
pub enum MatchVerdict {
    NotMatched,
    Ignored,
    Whitelisted,
}

#[verifier::external_type_specification]
#[verifier::external_body]
pub struct ExGitignoreBuilder(GitignoreBuilder);

#[verifier::external_type_specification]
#[verifier::external_body]
pub struct ExGitignore(Gitignore);

/// The glob lines a builder has accepted so far, in order.
pub uninterp spec fn builder_lines(b: GitignoreBuilder) -> Seq<Seq<char>>;

/// The glob lines a compiled matcher was built from, in order.
pub uninterp spec fn gitignore_globs(g: Gitignore) -> Seq<Seq<char>>;

/// Whether one manifest line parses as a glob.
pub uninterp spec fn glob_line_ok(line: Seq<char>) -> bool;

/// Whether a list of accepted glob lines compiles into a matcher.
pub uninterp spec fn globs_buildable(lines: Seq<Seq<char>>) -> bool;

/// The verdict a matcher built from `globs` gives for a path relative to the
/// matcher's root.
pub uninterp spec fn ignore_verdict(globs: Seq<Seq<char>>, rel_path: Seq<char>, is_dir: bool) -> MatchVerdict;

/// Relies on ignore::gitignore::GitignoreBuilder::new: a fresh builder, rooted
/// at the directory the manifest sits in, holds no globs yet.
#[verifier::external_body]
pub(crate) fn matcher_builder_new() -> (b: GitignoreBuilder)
    ensures builder_lines(b) == Seq::<Seq<char>>::empty(),
{
    GitignoreBuilder::new("")
}

/// Relies on ignore::gitignore::GitignoreBuilder::add_line: a line that parses
/// is appended to the builder's globs; one that does not parse leaves the
/// builder unchanged. Every builder here comes from `matcher_builder_new`,
/// so its configuration is the default and acceptance depends on the line
/// alone.
#[verifier::external_body]
pub(crate) fn builder_add_line(b: &mut GitignoreBuilder, line: &str) -> (ok: bool)
    ensures
        ok == glob_line_ok(line@),
        ok ==> builder_lines(*final(b)) == builder_lines(*old(b)).push(line@),
        !ok ==> builder_lines(*final(b)) == builder_lines(*old(b)),
{
    b.add_line(None, line).is_ok()
}

/// Relies on ignore::gitignore::GitignoreBuilder::build: the compiled matcher
/// holds exactly the globs added so far, and whether compiling succeeds is a
/// function of those globs alone.
#[verifier::external_body]
pub(crate) fn builder_build(b: &GitignoreBuilder) -> (r: Option<Gitignore>)
    ensures
        (r is Some) == globs_buildable(builder_lines(*b)),
        (r matches Some(g) ==> gitignore_globs(g) == builder_lines(*b)),
{
    b.build().ok()
}

/// Relies on ignore::gitignore::Gitignore::matched: the verdict for a path
/// relative to the matcher's root, a function of the globs, the path and
/// whether the path names a directory.
#[verifier::external_body]
pub(crate) fn matcher_verdict(g: &Gitignore, rel_path: &str, is_dir: bool) -> (v: MatchVerdict)
    ensures v == ignore_verdict(gitignore_globs(*g), rel_path@, is_dir),
{
    match g.matched(rel_path, is_dir) {
        ignore::Match::None => MatchVerdict::NotMatched,
        ignore::Match::Ignore(_) => MatchVerdict::Ignored,
        ignore::Match::Whitelist(_) => MatchVerdict::Whitelisted,
    }
}

/// The lines of a manifest that parse as globs, in order.
pub open spec fn accepted_globs(lines: Seq<Seq<char>>) -> Seq<Seq<char>>
    decreases lines.len(),
{
    if lines.len() == 0 {
        Seq::empty()
    } else {
        let rest = accepted_globs(lines.drop_last());
        if glob_line_ok(lines.last()) {
            rest.push(lines.last())
        } else {
            rest
        }
    }
}

/// The verdict an ignore manifest with raw lines `lines` gives for
/// `rel_path`: the verdict of the matcher built from the lines that parse.
/// A manifest whose accepted globs do not compile matches nothing.
pub open spec fn manifest_verdict(lines: Seq<Seq<char>>, rel_path: Seq<char>, is_dir: bool) -> MatchVerdict {
    if globs_buildable(accepted_globs(lines)) {
        ignore_verdict(accepted_globs(lines), rel_path, is_dir)
    } else {
        MatchVerdict::NotMatched
    }
}

/// Builds the matcher for the manifest lines and asks it about `rel_path`.
pub fn manifest_verdict_for(lines: &Vec<String>, rel_path: &String, is_dir: bool) -> (v: MatchVerdict)
    ensures v == manifest_verdict(lines@.map_values(|s: String| s@), rel_path@, is_dir),
{
    broadcast use group_seq_properties;

    let ghost lv = lines@.map_values(|s: String| s@);
    let mut b = matcher_builder_new();
    let mut i: usize = 0;
    proof {
        assert(lv.take(0) =~= Seq::<Seq<char>>::empty());
    }
    while i < lines.len()
        invariant
            i <= lines@.len(),
            lv == lines@.map_values(|s: String| s@),
            builder_lines(b) == accepted_globs(lv.take(i as int)),
        decreases lines@.len() - i,
    {
        let _ok = builder_add_line(&mut b, lines[i].as_str());
        proof {
            let s1 = lv.take(i + 1);
            assert(lv[i as int] == lines@[i as int]@);
            assert(s1.drop_last() =~= lv.take(i as int));
            assert(s1.last() == lv[i as int]);
        }
        i += 1;
    }
    proof {
        assert(lv.take(lines@.len() as int) =~= lv);
    }
    match builder_build(&b) {
        Some(g) => matcher_verdict(&g, rel_path.as_str(), is_dir),
        None => MatchVerdict::NotMatched,
    }
}

} // verus!
