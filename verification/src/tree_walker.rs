use vstd::prelude::*;
use crate::fs_model::{Tree, TreeV, NodeData, FileContent, LeafContent, LeafV, leaf_at};
use crate::ignore_rules::{MatchVerdict, manifest_verdict, manifest_verdict_for};
use crate::paths::{PathV, path_view, join_comps, join_range, take_comps, take_push};

verus! {

/// The verdict the ignore manifest named `mname` sitting in the directory
/// `q.take(j)` gives for the rest of `q`, relative to that directory.
/// A directory without such a manifest file says nothing.
pub open spec fn dir_verdict(t: TreeV, mname: Seq<char>, q: PathV, is_dir: bool, j: int) -> MatchVerdict
    recommends 0 <= j < q.len(),
{
    match leaf_at(t, q.take(j).push(mname)) {
        Some(LeafV::Lines(lines)) =>
            manifest_verdict(lines, join_comps(q.subrange(j, q.len() as int)), is_dir),
        _ => MatchVerdict::NotMatched,
    }
}

/// The combined verdict for `q` from the manifests in the directories
/// `q.take(j-1)` down to the root: the deepest manifest that matches at all
/// decides.
pub open spec fn combined_verdict_upto(t: TreeV, mname: Seq<char>, q: PathV, is_dir: bool, j: int) -> MatchVerdict
    decreases j,
{
    if j <= 0 {
        MatchVerdict::NotMatched
    } else {
        let v = dir_verdict(t, mname, q, is_dir, j - 1);
        if !(v is NotMatched) {
            v
        } else {
            combined_verdict_upto(t, mname, q, is_dir, j - 1)
        }
    }
}

/// The combined verdict for `q` from all the manifests above it.
pub open spec fn combined_verdict(t: TreeV, mname: Seq<char>, q: PathV, is_dir: bool) -> MatchVerdict {
    combined_verdict_upto(t, mname, q, is_dir, q.len() as int)
}

/// The combined verdict for the prefix `p.take(k)` of an entry's path; every
/// strict prefix names a directory, the whole path names what the entry is.
pub open spec fn prefix_verdict(t: TreeV, mname: Seq<char>, p: PathV, p_is_dir: bool, k: int) -> MatchVerdict {
    combined_verdict(t, mname, p.take(k), k < p.len() || p_is_dir)
}

/// A walk honouring the ignore manifests named `mname` reaches the entry at
/// `p`: neither the entry nor any directory above it is ignored. An ignored
/// directory is pruned whole, so everything beneath it is excluded too.
pub open spec fn walk_included(t: TreeV, mname: Seq<char>, p: PathV, p_is_dir: bool) -> bool {
    forall|k: int| 1 <= k <= p.len() ==> !((#[trigger] prefix_verdict(t, mname, p, p_is_dir, k)) is Ignored)
}

/// Computes the combined verdict for the path `q`, asking the manifests from
/// the deepest directory up.
pub fn combined_verdict_exec(t: &Tree, mname: &str, q: &Vec<String>, is_dir: bool) -> (v: MatchVerdict)
    ensures v == combined_verdict(t@, mname@, path_view(*q), is_dir),
{
    let ghost qv = path_view(*q);
    let mut j: usize = q.len();
    while j > 0
        invariant
            j <= q@.len(),
            qv == path_view(*q),
            combined_verdict(t@, mname@, qv, is_dir)
                == combined_verdict_upto(t@, mname@, qv, is_dir, j as int),
        decreases j,
    {
        let mp = take_push(q, j - 1, mname);
        let dv: MatchVerdict = match t.find(&mp) {
            Some(i) => {
                match &t.entries[i].node {
                    NodeData::File(FileContent::Leaf(LeafContent::Lines(lines))) => {
                        let rel = join_range(q, j - 1, q.len());
                        manifest_verdict_for(lines, &rel, is_dir)
                    },
                    _ => MatchVerdict::NotMatched,
                }
            },
            None => MatchVerdict::NotMatched,
        };
        proof {
            assert(dv == dir_verdict(t@, mname@, qv, is_dir, j - 1));
        }
        match dv {
            MatchVerdict::NotMatched => {},
            MatchVerdict::Ignored => { return MatchVerdict::Ignored; },
            MatchVerdict::Whitelisted => { return MatchVerdict::Whitelisted; },
        }
        j -= 1;
    }
    MatchVerdict::NotMatched
}

/// Decides whether a walk honouring the manifests named `mname` yields the
/// entry at `p`.
pub fn walk_included_exec(t: &Tree, mname: &str, p: &Vec<String>, p_is_dir: bool) -> (r: bool)
    ensures r == walk_included(t@, mname@, path_view(*p), p_is_dir),
{
    let ghost pv = path_view(*p);
    let mut k0: usize = 0;
    while k0 < p.len()
        invariant
            k0 <= p@.len(),
            pv == path_view(*p),
            forall|j: int| 1 <= j <= k0 ==> !((#[trigger] prefix_verdict(t@, mname@, pv, p_is_dir, j)) is Ignored),
        decreases p@.len() - k0,
    {
        let k = k0 + 1;
        let q = take_comps(p, k);
        let is_dir = k < p.len() || p_is_dir;
        let v = combined_verdict_exec(t, mname, &q, is_dir);
        if matches!(v, MatchVerdict::Ignored) {
            assert(prefix_verdict(t@, mname@, pv, p_is_dir, k as int) is Ignored);
            return false;
        }
        k0 = k;
    }
    true
}

} // verus!
