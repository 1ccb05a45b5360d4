use vstd::prelude::*;
use vstd::string::StringExecFns;
use vstd::string::StrSliceExecFns;

verus! {

/// The mathematical form of a path relative to a tree root: the sequence of
/// its components, each component the sequence of its characters.
pub type PathV = Seq<Seq<char>>;

/// The view of an executable path value.
pub open spec fn path_view(p: Vec<String>) -> PathV {
    p@.map_values(|s: String| s@)
}

/// A single path component is acceptable: non-empty and free of separators,
/// and not one of the two relative markers.
pub open spec fn component_ok(c: Seq<char>) -> bool {
    &&& c.len() > 0
    &&& !c.contains('/')
    &&& !c.contains('\\')
    &&& c != seq!['.']
    &&& c != seq!['.', '.']
}

/// Every component of the path is acceptable and the path is non-empty.
pub open spec fn path_ok(p: PathV) -> bool {
    &&& p.len() > 0
    &&& forall|i: int| 0 <= i < p.len() ==> component_ok(#[trigger] p[i])
}

/// `a` names the same directory as `b` or one of its ancestors.
pub open spec fn is_prefix_of(a: PathV, b: PathV) -> bool {
    a.len() <= b.len() && a == b.take(a.len() as int)
}

/// `a` names a strict ancestor of `b`.
pub open spec fn is_strict_prefix_of(a: PathV, b: PathV) -> bool {
    a.len() < b.len() && a == b.take(a.len() as int)
}

/// The last component of a non-empty path: the file or directory name.
pub open spec fn base_name(p: PathV) -> Seq<char>
    recommends p.len() > 0,
{
    p[p.len() - 1]
}

/// The path without its last component.
pub open spec fn parent_of(p: PathV) -> PathV
    recommends p.len() > 0,
{
    p.drop_last()
}

/// The components joined with `/` between them.
pub open spec fn join_comps(p: PathV) -> Seq<char>
    decreases p.len(),
{
    if p.len() == 0 {
        Seq::empty()
    } else if p.len() == 1 {
        p[0]
    } else {
        join_comps(p.drop_last()) + seq!['/'] + p.last()
    }
}

/// Whether the file name carries an extension: the index of the last `.`
/// among the characters after the first, if any.
pub open spec fn last_dot_from(name: Seq<char>, i: int) -> Option<int>
    decreases i,
{
    if i <= 1 {
        None
    } else if name[i - 1] == '.' {
        Some(i - 1)
    } else {
        last_dot_from(name, i - 1)
    }
}

/// The extension of a file name, after the last `.`, as `Path::extension`
/// reads it: a name whose only `.` leads it has none.
pub open spec fn ext_of(name: Seq<char>) -> Option<Seq<char>> {
    match last_dot_from(name, name.len() as int) {
        Some(i) => Some(name.subrange(i + 1, name.len() as int)),
        None => None,
    }
}

/// The stem of a file name, before the last `.`; the whole name when there
/// is no extension.
pub open spec fn stem_of(name: Seq<char>) -> Seq<char> {
    match last_dot_from(name, name.len() as int) {
        Some(i) => name.subrange(0, i),
        None => name,
    }
}

/// Compares two strings by their characters.
pub fn string_eq(a: &String, b: &String) -> (r: bool)
    ensures r == (a@ == b@),
{
    *a == *b
}

/// Compares a string against a literal by their characters.
pub fn string_is(s: &String, lit: &str) -> (r: bool)
    ensures r == (s@ == lit@),
{
    let l = <String as StringExecFns>::from_str(lit);
    *s == l
}

/// Compares two paths component by component.
pub fn path_eq(a: &Vec<String>, b: &Vec<String>) -> (r: bool)
    ensures r == (path_view(*a) == path_view(*b)),
{
    if a.len() != b.len() {
        assert(path_view(*a).len() != path_view(*b).len());
        return false;
    }
    let mut i: usize = 0;
    while i < a.len()
        invariant
            i <= a.len(),
            a@.len() == b@.len(),
            forall|j: int| 0 <= j < i ==> a@[j]@ == b@[j]@,
        decreases a.len() - i,
    {
        if a[i] != b[i] {
            assert(path_view(*a)[i as int] != path_view(*b)[i as int]);
            return false;
        }
        i += 1;
    }
    assert(path_view(*a) =~= path_view(*b));
    true
}

/// Decides whether `a` is a prefix of `b`, component by component.
pub fn path_is_prefix(a: &Vec<String>, b: &Vec<String>) -> (r: bool)
    ensures r == is_prefix_of(path_view(*a), path_view(*b)),
{
    if a.len() > b.len() {
        return false;
    }
    let mut i: usize = 0;
    while i < a.len()
        invariant
            i <= a.len(),
            a@.len() <= b@.len(),
            forall|j: int| 0 <= j < i ==> a@[j]@ == b@[j]@,
        decreases a.len() - i,
    {
        if a[i] != b[i] {
            assert(path_view(*a)[i as int] != path_view(*b).take(a@.len() as int)[i as int]);
            return false;
        }
        i += 1;
    }
    assert(path_view(*a) =~= path_view(*b).take(a@.len() as int));
    true
}

/// Joins the components `p[from..to]` with `/` between them.
pub fn join_range(p: &Vec<String>, from: usize, to: usize) -> (r: String)
    requires from <= to <= p@.len(),
    ensures r@ == join_comps(path_view(*p).subrange(from as int, to as int)),
{
    let mut r = String::new();
    let ghost whole = path_view(*p).subrange(from as int, to as int);
    let mut i: usize = from;
    while i < to
        invariant
            from <= i <= to <= p@.len(),
            whole == path_view(*p).subrange(from as int, to as int),
            r@ == join_comps(whole.take(i - from)),
        decreases to - i,
    {
        if i > from {
            r.append("/");
        }
        r.append(p[i].as_str());
        proof {
            let k = i + 1 - from;
            reveal_strlit("/");
            assert(whole.take(k).len() == k);
            assert(whole.take(k).drop_last() =~= whole.take(k - 1));
            assert(whole.take(k).last() == p@[i as int]@);
            if i == from {
                assert(join_comps(whole.take(1)) == whole.take(1)[0]);
                assert(r@ =~= join_comps(whole.take(k)));
            } else {
                assert(r@ =~= join_comps(whole.take(k - 1)) + seq!['/'] + whole.take(k).last());
            }
        }
        i += 1;
    }
    proof {
        assert(whole.take(to - from) =~= whole);
    }
    r
}

/// Splits a file name into its stem and extension, as `Path::extension` would.
pub fn split_name(name: &String) -> (r: (String, Option<String>))
    ensures
        r.0@ == stem_of(name@),
        match r.1 {
            Some(e) => ext_of(name@) == Some(e@),
            None => ext_of(name@) is None,
        },
{
    let s = name.as_str();
    let n = s.unicode_len();
    let mut i: usize = n;
    while i > 1
        invariant
            i <= n,
            n == name@.len(),
            s@ == name@,
            last_dot_from(name@, n as int) == last_dot_from(name@, i as int),
        decreases i,
    {
        if s.get_char(i - 1) == '.' {
            let stem = s.substring_char(0, i - 1).to_owned();
            let ext = s.substring_char(i, n).to_owned();
            assert(last_dot_from(name@, i as int) == Some(i - 1));
            return (stem, Some(ext));
        }
        i -= 1;
    }
    assert(last_dot_from(name@, n as int) is None);
    (s.to_owned(), None)
}

/// Copies a list of strings, keeping each string's characters.
pub fn clone_strings(v: &Vec<String>) -> (r: Vec<String>)
    ensures
        r@.map_values(|s: String| s@) == v@.map_values(|s: String| s@),
        path_view(r) == path_view(*v),
{
    let mut r: Vec<String> = Vec::new();
    let mut i: usize = 0;
    while i < v.len()
        invariant
            i <= v@.len(),
            r@.len() == i,
            forall|j: int| 0 <= j < i ==> r@[j]@ == v@[j]@,
        decreases v@.len() - i,
    {
        r.push(v[i].clone());
        i += 1;
    }
    proof {
        assert(r@.map_values(|s: String| s@) =~= v@.map_values(|s: String| s@));
    }
    r
}

/// Copies the first `k` components of a path.
pub fn take_comps(p: &Vec<String>, k: usize) -> (r: Vec<String>)
    requires k <= p@.len(),
    ensures path_view(r) == path_view(*p).take(k as int),
{
    let mut r: Vec<String> = Vec::new();
    let mut i: usize = 0;
    while i < k
        invariant
            i <= k <= p@.len(),
            r@.len() == i,
            forall|j: int| 0 <= j < i ==> r@[j]@ == p@[j]@,
        decreases k - i,
    {
        r.push(p[i].clone());
        i += 1;
    }
    proof {
        assert(path_view(r) =~= path_view(*p).take(k as int));
    }
    r
}

/// Copies the first `k` components of a path and appends one more name.
pub fn take_push(p: &Vec<String>, k: usize, name: &str) -> (r: Vec<String>)
    requires k <= p@.len(),
    ensures path_view(r) == path_view(*p).take(k as int).push(name@),
{
    let mut r = take_comps(p, k);
    r.push(<String as StringExecFns>::from_str(name));
    proof {
        assert(path_view(r) =~= path_view(*p).take(k as int).push(name@));
    }
    r
}

/// Appends one component to a copy of a path.
pub fn path_push(p: &Vec<String>, name: &String) -> (r: Vec<String>)
    ensures path_view(r) == path_view(*p).push(name@),
{
    let mut r = clone_strings(p);
    r.push(name.clone());
    proof {
        assert(path_view(r) =~= path_view(*p).push(name@));
    }
    r
}

/// Concatenates two strings.
pub fn string_concat(a: &String, b: &str) -> (r: String)
    ensures r@ == a@ + b@,
{
    let mut r = a.clone();
    r.append(b);
    r
}

} // verus!
