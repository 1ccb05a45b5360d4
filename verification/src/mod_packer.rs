//! The pack and unpack pipelines over a modelled tree. Two validations here
//! go beyond what silently happens otherwise, deliberately: a build manifest
//! at the destination root, and two build units of one directory name, are
//! rejected as hard errors during unit discovery, since either would make
//! the produced archives and staged key descriptors overwrite one another.

use vstd::prelude::*;
use vstd::string::StrSliceExecFns;
use crate::fs_model::{
    Tree, TreeV, FsEntry, EntryV, NodeData, NodeV, FileContent, ContentV, LeafContent, LeafV,
    node_at,
};
use crate::paths::{
    PathV, path_view, base_name, parent_of, is_strict_prefix_of, is_prefix_of, ext_of, stem_of,
    path_eq, path_is_prefix, split_name, string_is, string_eq, string_concat, clone_strings,
    take_comps, join_comps, join_range,
};
use crate::tree_walker::{walk_included, walk_included_exec};
use crate::commands::{ToolCommand, ToolCommandV};
use crate::converters::{ArmaToolsConfigConverter, ArmaToolsPAAConverter, FileConverter};
use crate::pbo_packer::{ArmaToolsPBOPacker, prefix_view, spec_set_prefix};
use crate::models::{PBOJson, PBOJsonV, PathJson};
use crate::packers::Packer;
use crate::fs_model::{ArchEntry, ArchEntryV, ArchNode, ArchNodeV};
use crate::signing::{ArmaToolsPBOSigner, PBOSigner};

verus! {

/// Why a pack run aborts. Every failure is fatal: the run stops and the
/// destination is left non-authoritative.
#[derive(Debug)]
pub enum PackError {
    /// A tree or a file's content breaks an assumption the pipeline relies
    /// on: a malformed model, a build manifest at the destination root, or a
    /// record where another kind was expected.
    InvariantViolation,
    /// A file selected for conversion has no registered converter for its
    /// extension, or no extension at all. Skipping it would ship an
    /// uncompiled asset, so the run aborts.
    UnknownExtension,
    /// Two build units carry the same directory name, so their archives and
    /// staged key descriptors would overwrite one another.
    DuplicateUnitName,
    /// A unit asks to be signed but its authority has no private key in the
    /// keys folder.
    MissingPrivateKey,
}

/// Why an unpack run aborts before its best-effort conversion step.
#[derive(Debug)]
pub enum UnpackError {
    /// A malformed model, or an archive whose contents are not available.
    InvariantViolation,
}

/// The pack and unpack orchestrator: it owns the tool integrations and
/// sequences the pipeline stages over a modelled tree.
pub struct ArmaToolsModPacker {
    pub pbo_packer: ArmaToolsPBOPacker,
    pub config_converter: ArmaToolsConfigConverter,
    pub paa_converter: ArmaToolsPAAConverter,
    pub rvmat_converter: ArmaToolsConfigConverter,
    pub pbo_signer: ArmaToolsPBOSigner,
}

/// All entries of `t` except those at path `p`.
pub open spec fn remove_at(t: TreeV, p: PathV) -> TreeV
    decreases t.len(),
{
    if t.len() == 0 {
        Seq::empty()
    } else {
        let rest = remove_at(t.drop_last(), p);
        if t.last().path == p {
            rest
        } else {
            rest.push(t.last())
        }
    }
}

/// `t` with `node` standing at `p`: any entry at `p` is dropped and the new
/// node appended.
pub open spec fn upsert_entry(t: TreeV, p: PathV, node: NodeV) -> TreeV {
    remove_at(t, p).push(EntryV { path: p, node: node })
}

/// After an upsert, the node at `p` is the new one, and every other path
/// keeps its node.
pub proof fn lemma_upsert_entry(t: TreeV, p: PathV, node: NodeV)
    ensures
        node_at(upsert_entry(t, p, node), p) == Some(node),
        forall|q: PathV| q != p ==> node_at(upsert_entry(t, p, node), q) == node_at(t, q),
    decreases t.len(),
{
    lemma_node_at_remove_push(t, p, node, p);
    lemma_node_at_push(remove_at(t, p), EntryV { path: p, node: node }, p);
    assert forall|q: PathV| q != p implies node_at(upsert_entry(t, p, node), q) == node_at(t, q) by {
        lemma_node_at_push(remove_at(t, p), EntryV { path: p, node: node }, q);
        lemma_node_at_remove_other(t, p, q);
    }
}

proof fn lemma_node_at_push(t: TreeV, e: EntryV, q: PathV)
    ensures
        node_at(t.push(e), q) == if node_at(t, q) is Some {
            node_at(t, q)
        } else if e.path == q {
            Some(e.node)
        } else {
            Option::<NodeV>::None
        },
    decreases t.len(),
{
    assert(t.push(e).len() == t.len() + 1);
    assert(node_at(t.push(e), q) == if t.push(e).first().path == q {
        Some(t.push(e).first().node)
    } else {
        node_at(t.push(e).drop_first(), q)
    });
    if t.len() == 0 {
        assert(t.push(e).first() == e);
        assert(t.push(e).drop_first() =~= Seq::<EntryV>::empty());
        assert(node_at(Seq::<EntryV>::empty(), q) is None);
    } else {
        assert(t.push(e).first() == t.first());
        assert(t.push(e).drop_first() =~= t.drop_first().push(e));
        lemma_node_at_push(t.drop_first(), e, q);
    }
}

proof fn lemma_node_at_remove_other(t: TreeV, p: PathV, q: PathV)
    requires q != p,
    ensures node_at(remove_at(t, p), q) == node_at(t, q),
    decreases t.len(),
{
    if t.len() > 0 {
        lemma_node_at_remove_other(t.drop_last(), p, q);
        lemma_node_at_push(t.drop_last(), t.last(), q);
        if t.last().path != p {
            lemma_node_at_push(remove_at(t.drop_last(), p), t.last(), q);
        }
        assert(t.drop_last().push(t.last()) =~= t);
    }
}

proof fn lemma_node_at_remove_push(t: TreeV, p: PathV, node: NodeV, q: PathV)
    ensures node_at(remove_at(t, p), p) is None,
    decreases t.len(),
{
    if t.len() > 0 {
        lemma_node_at_remove_push(t.drop_last(), p, node, q);
        if t.last().path != p {
            lemma_node_at_push(remove_at(t.drop_last(), p), t.last(), p);
        }
    }
}

/// `name` ends with the given suffix.
pub open spec fn ends_with(name: Seq<char>, suffix: Seq<char>) -> bool {
    name.len() >= suffix.len() && name.subrange(
        name.len() - suffix.len(),
        name.len() as int,
    ) == suffix
}

/// Decides whether a file name ends with `_key.json`.
pub fn is_staged_descriptor_name(name: &String) -> (r: bool)
    ensures r == ends_with(name@, "_key.json"@),
{
    let s = name.as_str();
    let n = s.unicode_len();
    let m = "_key.json".unicode_len();
    if n < m {
        assert(name@.len() < "_key.json"@.len());
        return false;
    }
    let mut i: usize = 0;
    while i < m
        invariant
            i <= m,
            m <= n,
            s@ == name@,
            m == "_key.json"@.len(),
            n == name@.len(),
            forall|j: int| 0 <= j < i ==> name@[n - m + j] == "_key.json"@[j],
        decreases m - i,
    {
        if s.get_char(n - m + i) != "_key.json".get_char(i) {
            assert(name@.subrange(n - m, n as int)[i as int] != "_key.json"@[i as int]);
            return false;
        }
        i += 1;
    }
    proof {
        assert(name@.subrange(n - m, n as int) =~= "_key.json"@);
    }
    true
}

/// Which intermediate files one cleanup pass removes.
pub enum RemovalRule {
    /// Files named `.modignore`, anywhere in the tree.
    ModIgnoreFiles,
    /// Files named `.convertignore`, anywhere in the tree.
    ConvertIgnoreFiles,
    /// Files named `key.json` whose directory is not the given addons folder.
    StrayKeyFiles { addons: Vec<String> },
    /// Files under the given keys folder with extension `biprivatekey`.
    PrivateKeys { keys: Vec<String> },
    /// Files under the given keys folder with extension `bikey` whose name
    /// is not among the used public keys.
    UnusedBikeys { keys: Vec<String>, used: Vec<String> },
    /// Key descriptors under the given addons folder: files named `key.json`
    /// or ending in `_key.json`.
    AddonKeyDescriptors { addons: Vec<String> },
}

pub ghost enum RemovalRuleV {
    ModIgnoreFiles,
    ConvertIgnoreFiles,
    StrayKeyFiles { addons: PathV },
    PrivateKeys { keys: PathV },
    UnusedBikeys { keys: PathV, used: Seq<Seq<char>> },
    AddonKeyDescriptors { addons: PathV },
}

impl View for RemovalRule {
    type V = RemovalRuleV;

    open spec fn view(&self) -> RemovalRuleV {
        match self {
            RemovalRule::ModIgnoreFiles => RemovalRuleV::ModIgnoreFiles,
            RemovalRule::ConvertIgnoreFiles => RemovalRuleV::ConvertIgnoreFiles,
            RemovalRule::StrayKeyFiles { addons } => RemovalRuleV::StrayKeyFiles { addons: path_view(*addons) },
            RemovalRule::PrivateKeys { keys } => RemovalRuleV::PrivateKeys { keys: path_view(*keys) },
            RemovalRule::UnusedBikeys { keys, used } => RemovalRuleV::UnusedBikeys {
                keys: path_view(*keys),
                used: used@.map_values(|s: String| s@),
            },
            RemovalRule::AddonKeyDescriptors { addons } => RemovalRuleV::AddonKeyDescriptors { addons: path_view(*addons) },
        }
    }
}

/// Whether one cleanup rule removes the file entry `e`. Directories are
/// never removed by these passes.
pub open spec fn rule_matches(rule: RemovalRuleV, e: EntryV) -> bool {
    e.node is File && e.path.len() > 0 && match rule {
        RemovalRuleV::ModIgnoreFiles => base_name(e.path) == ".modignore"@,
        RemovalRuleV::ConvertIgnoreFiles => base_name(e.path) == ".convertignore"@,
        RemovalRuleV::StrayKeyFiles { addons } =>
            base_name(e.path) == "key.json"@ && parent_of(e.path) != addons,
        RemovalRuleV::PrivateKeys { keys } =>
            is_strict_prefix_of(keys, e.path) && ext_of(base_name(e.path)) == Some("biprivatekey"@),
        RemovalRuleV::UnusedBikeys { keys, used } =>
            is_strict_prefix_of(keys, e.path) && ext_of(base_name(e.path)) == Some("bikey"@)
                && !used.contains(base_name(e.path)),
        RemovalRuleV::AddonKeyDescriptors { addons } =>
            is_strict_prefix_of(addons, e.path)
                && (base_name(e.path) == "key.json"@ || ends_with(base_name(e.path), "_key.json"@)),
    }
}

/// The first `n` entries of `t`, with the files the rule removes left out,
/// beside the paths of what was removed.
pub open spec fn spec_remove_files_upto(t: TreeV, rule: RemovalRuleV, n: int) -> (TreeV, Seq<PathV>)
    decreases n,
{
    if n <= 0 {
        (Seq::empty(), Seq::empty())
    } else {
        let (kept, removed) = spec_remove_files_upto(t, rule, n - 1);
        let e = t[n - 1];
        if rule_matches(rule, e) {
            (kept, removed.push(e.path))
        } else {
            (kept.push(e), removed)
        }
    }
}

/// The tree with the rule's files removed, and the removed paths in order.
pub open spec fn spec_remove_files(t: TreeV, rule: RemovalRuleV) -> (TreeV, Seq<PathV>) {
    spec_remove_files_upto(t, rule, t.len() as int)
}

/// Decides whether the rule removes the entry.
#[verifier::loop_isolation(false)]
fn rule_matches_exec(rule: &RemovalRule, e: &FsEntry) -> (r: bool)
    ensures r == rule_matches(rule@, e@),
{
    if matches!(&e.node, NodeData::Dir) {
        return false;
    }
    if e.path.len() == 0 {
        return false;
    }
    let name = &e.path[e.path.len() - 1];
    proof {
        assert(base_name(e@.path) == name@);
    }
    match rule {
        RemovalRule::ModIgnoreFiles => string_is(name, ".modignore"),
        RemovalRule::ConvertIgnoreFiles => string_is(name, ".convertignore"),
        RemovalRule::StrayKeyFiles { addons } => {
            if !string_is(name, "key.json") {
                return false;
            }
            let parent = crate::paths::take_comps(&e.path, e.path.len() - 1);
            proof {
                assert(path_view(parent) =~= parent_of(e@.path));
            }
            !path_eq(&parent, addons)
        },
        RemovalRule::PrivateKeys { keys } => {
            if !path_is_prefix(keys, &e.path) || keys.len() >= e.path.len() {
                return false;
            }
            let (_stem, ext) = split_name(name);
            match ext {
                Some(x) => string_is(&x, "biprivatekey"),
                None => false,
            }
        },
        RemovalRule::UnusedBikeys { keys, used } => {
            if !path_is_prefix(keys, &e.path) || keys.len() >= e.path.len() {
                return false;
            }
            let (_stem, ext) = split_name(name);
            let is_bikey = match ext {
                Some(x) => string_is(&x, "bikey"),
                None => false,
            };
            if !is_bikey {
                return false;
            }
            let ghost usedv = used@.map_values(|s: String| s@);
            let mut i: usize = 0;
            while i < used.len()
                invariant
                    i <= used@.len(),
                    usedv == used@.map_values(|s: String| s@),
                    forall|j: int| 0 <= j < i ==> usedv[j] != name@,
                decreases used@.len() - i,
            {
                if crate::paths::string_eq(&used[i], name) {
                    assert(usedv[i as int] == name@);
                    assert(usedv.contains(name@));
                    return false;
                }
                i += 1;
            }
            assert(!usedv.contains(name@));
            true
        },
        RemovalRule::AddonKeyDescriptors { addons } => {
            if !path_is_prefix(addons, &e.path) || addons.len() >= e.path.len() {
                return false;
            }
            string_is(name, "key.json") || is_staged_descriptor_name(name)
        },
    }
}

/// Removes every file the rule names from the tree, returning the new tree
/// and the removed paths in traversal order. Directories always stay.
pub fn remove_files(t: &Tree, rule: &RemovalRule) -> (r: (Tree, Vec<Vec<String>>))
    ensures
        r.0@ == spec_remove_files(t@, rule@).0,
        r.1@.map_values(|p: Vec<String>| path_view(p)) == spec_remove_files(t@, rule@).1,
{
    let mut kept: Vec<FsEntry> = Vec::new();
    let mut removed: Vec<Vec<String>> = Vec::new();
    proof {
        assert(kept@.map_values(|e: FsEntry| e@) =~= spec_remove_files_upto(t@, rule@, 0).0);
        assert(removed@.map_values(|p: Vec<String>| path_view(p))
            =~= spec_remove_files_upto(t@, rule@, 0).1);
    }
    let mut i: usize = 0;
    while i < t.entries.len()
        invariant
            i <= t.entries@.len(),
            kept@.map_values(|e: FsEntry| e@) == spec_remove_files_upto(t@, rule@, i as int).0,
            removed@.map_values(|p: Vec<String>| path_view(p))
                == spec_remove_files_upto(t@, rule@, i as int).1,
        decreases t.entries@.len() - i,
    {
        let e = &t.entries[i];
        proof {
            assert(t@[i as int] == t.entries@[i as int]@);
        }
        if rule_matches_exec(rule, e) {
            removed.push(crate::paths::clone_strings(&e.path));
            proof {
                assert(removed@.map_values(|p: Vec<String>| path_view(p))
                    =~= spec_remove_files_upto(t@, rule@, i + 1).1);
            }
        } else {
            kept.push(e.duplicate());
            proof {
                assert(kept@.map_values(|e: FsEntry| e@)
                    =~= spec_remove_files_upto(t@, rule@, i + 1).0);
            }
        }
        i += 1;
    }
    (Tree { entries: kept }, removed)
}


/// The destination-rooted name of the entry at `p`: the root string, a
/// separator, and the joined components.
pub open spec fn full_path(root: Seq<char>, p: PathV) -> Seq<char> {
    root + "/"@ + join_comps(p)
}

/// Builds the destination-rooted name of `p`.
pub fn full_path_exec(root: &String, p: &Vec<String>) -> (r: String)
    ensures r@ == full_path(root@, path_view(*p)),
{
    let mut r = root.clone();
    r.append("/");
    let joined = join_range(p, 0, p.len());
    r.append(joined.as_str());
    proof {
        assert(path_view(*p).subrange(0, p@.len() as int) =~= path_view(*p));
    }
    r
}

/// Copies the components of `p` after the first `k`.
pub fn skip_comps(p: &Vec<String>, k: usize) -> (r: Vec<String>)
    requires k <= p@.len(),
    ensures path_view(r) == path_view(*p).skip(k as int),
{
    let mut r: Vec<String> = Vec::new();
    let mut i: usize = k;
    while i < p.len()
        invariant
            k <= i <= p@.len(),
            r@.len() == i - k,
            forall|j: int| 0 <= j < i - k ==> r@[j]@ == p@[k + j]@,
        decreases p@.len() - i,
    {
        r.push(p[i].clone());
        i += 1;
    }
    proof {
        assert(path_view(r) =~= path_view(*p).skip(k as int));
    }
    r
}

/// Replaces any entry at `path` by the new node, appended at the end.
#[verifier::loop_isolation(false)]
pub fn upsert_exec(t: Vec<FsEntry>, path: Vec<String>, node: NodeData) -> (r: Vec<FsEntry>)
    ensures
        r@.map_values(|e: FsEntry| e@)
            == upsert_entry(t@.map_values(|e: FsEntry| e@), path_view(path), node@),
{
    let ghost tv = t@.map_values(|e: FsEntry| e@);
    let ghost pv = path_view(path);
    let mut out: Vec<FsEntry> = Vec::new();
    proof {
        assert(tv.take(0) =~= Seq::<EntryV>::empty());
        assert(out@.map_values(|e: FsEntry| e@) =~= remove_at(tv.take(0), pv));
    }
    let mut i: usize = 0;
    while i < t.len()
        invariant
            i <= t@.len(),
            out@.map_values(|e: FsEntry| e@) == remove_at(tv.take(i as int), pv),
        decreases t@.len() - i,
    {
        proof {
            assert(tv.take(i + 1).drop_last() =~= tv.take(i as int));
            assert(tv.take(i + 1).last() == tv[i as int]);
        }
        if !path_eq(&t[i].path, &path) {
            out.push(t[i].duplicate());
            proof {
                assert(out@.map_values(|e: FsEntry| e@) =~= remove_at(tv.take(i + 1), pv));
            }
        }
        i += 1;
    }
    proof {
        assert(tv.take(t@.len() as int) =~= tv);
    }
    out.push(FsEntry { path: path, node: node });
    proof {
        assert(out@.map_values(|e: FsEntry| e@) =~= upsert_entry(tv, pv, node@));
    }
    out
}

/// A file survives the raw-copy walk: it is not itself an ignore manifest,
/// and no `.modignore` above it excludes it or a directory above it.
pub open spec fn copy_file_kept(t: TreeV, e: EntryV) -> bool {
    &&& e.node is File
    &&& e.path.len() > 0
    &&& base_name(e.path) != ".modignore"@
    &&& walk_included(t, ".modignore"@, e.path, false)
}

/// An entry survives the raw copy: a file that the walk yields, or a
/// directory with such a file beneath it (directories appear in the
/// destination only as parents of copied files).
pub open spec fn copy_kept(t: TreeV, e: EntryV) -> bool {
    if e.node is File {
        copy_file_kept(t, e)
    } else {
        exists|i: int| 0 <= i < t.len()
            && copy_file_kept(t, #[trigger] t[i])
            && is_strict_prefix_of(e.path, t[i].path)
    }
}

/// The first `n` entries, filtered by the raw-copy walk, beside the paths of
/// the files to copy.
pub open spec fn spec_copy_raw_upto(t: TreeV, n: int) -> (TreeV, Seq<PathV>)
    decreases n,
{
    if n <= 0 {
        (Seq::empty(), Seq::empty())
    } else {
        let (kept, copies) = spec_copy_raw_upto(t, n - 1);
        let e = t[n - 1];
        if copy_kept(t, e) {
            if e.node is File {
                (kept.push(e), copies.push(e.path))
            } else {
                (kept.push(e), copies)
            }
        } else {
            (kept, copies)
        }
    }
}

/// The destination tree the raw-copy stage produces from the source tree,
/// and the relative paths of the files to copy, in traversal order.
pub open spec fn spec_copy_raw(t: TreeV) -> (TreeV, Seq<PathV>) {
    spec_copy_raw_upto(t, t.len() as int)
}

/// Decides whether the raw-copy walk yields the file entry.
fn copy_file_kept_exec(t: &Tree, e: &FsEntry) -> (r: bool)
    ensures r == copy_file_kept(t@, e@),
{
    if matches!(&e.node, NodeData::Dir) {
        return false;
    }
    if e.path.len() == 0 {
        return false;
    }
    let name = &e.path[e.path.len() - 1];
    proof {
        assert(base_name(e@.path) == name@);
    }
    if string_is(name, ".modignore") {
        return false;
    }
    walk_included_exec(t, ".modignore", &e.path, false)
}


/// Walks the source tree honouring `.modignore` manifests and keeps what a
/// pack run copies into the destination: every included file, and the
/// directories above them. The manifests themselves are never copied.
#[verifier::loop_isolation(false)]
pub fn copy_raw_files_for_packing(source: &Tree) -> (r: (Tree, Vec<Vec<String>>))
    ensures
        r.0@ == spec_copy_raw(source@).0,
        r.1@.map_values(|p: Vec<String>| path_view(p)) == spec_copy_raw(source@).1,
{
    let ghost tv = source@;
    let mut kept: Vec<FsEntry> = Vec::new();
    let mut copies: Vec<Vec<String>> = Vec::new();
    proof {
        assert(kept@.map_values(|e: FsEntry| e@) =~= spec_copy_raw_upto(tv, 0).0);
        assert(copies@.map_values(|p: Vec<String>| path_view(p)) =~= spec_copy_raw_upto(tv, 0).1);
    }
    let mut i: usize = 0;
    while i < source.entries.len()
        invariant
            i <= source.entries@.len(),
            kept@.map_values(|e: FsEntry| e@) == spec_copy_raw_upto(tv, i as int).0,
            copies@.map_values(|p: Vec<String>| path_view(p)) == spec_copy_raw_upto(tv, i as int).1,
        decreases source.entries@.len() - i,
    {
        let e = &source.entries[i];
        proof {
            assert(tv[i as int] == source.entries@[i as int]@);
        }
        let keep: bool;
        if matches!(&e.node, NodeData::Dir) {
            let mut found = false;
            let mut j: usize = 0;
            while j < source.entries.len()
                invariant
                    j <= source.entries@.len(),
                    found ==> copy_kept(tv, tv[i as int]),
                    !found ==> forall|k: int| 0 <= k < j ==> !(copy_file_kept(tv, #[trigger] tv[k])
                        && is_strict_prefix_of(tv[i as int].path, tv[k].path)),
                decreases source.entries@.len() - j,
            {
                if !found {
                    let f = &source.entries[j];
                    proof {
                        assert(tv[j as int] == source.entries@[j as int]@);
                    }
                    if path_is_prefix(&e.path, &f.path) && f.path.len() > e.path.len() {
                        if copy_file_kept_exec(source, f) {
                            found = true;
                        }
                    }
                }
                j += 1;
            }
            keep = found;
            proof {
                if !found {
                    assert(!copy_kept(tv, tv[i as int]));
                }
            }
        } else {
            keep = copy_file_kept_exec(source, e);
        }
        proof {
            assert(spec_copy_raw_upto(tv, i + 1).0 == if copy_kept(tv, tv[i as int]) {
                spec_copy_raw_upto(tv, i as int).0.push(tv[i as int])
            } else {
                spec_copy_raw_upto(tv, i as int).0
            });
        }
        if keep {
            if matches!(&e.node, NodeData::File(_)) {
                copies.push(clone_strings(&e.path));
                proof {
                    assert(copies@.map_values(|p: Vec<String>| path_view(p))
                        =~= spec_copy_raw_upto(tv, i + 1).1);
                }
            }
            kept.push(e.duplicate());
            proof {
                assert(kept@.map_values(|e2: FsEntry| e2@) =~= spec_copy_raw_upto(tv, i + 1).0);
            }
        }
        i += 1;
    }
    (Tree { entries: kept }, copies)
}


/// One convert-then-clean step: the tool invocation, writing `destination`;
/// the original to delete once it succeeds; for the shared-extension
/// format, the temporary to copy back over the original name and then
/// delete. A pack run aborts when the tool fails; an unpack run logs and
/// goes on. The image codec expects its source checked and an empty
/// destination file created before it runs; `validate_paths` asks the
/// runner to do so, through `check_source_and_destination`.
pub struct ConvertStep {
    pub command: ToolCommand,
    pub remove_original: String,
    pub destination: String,
    pub validate_paths: bool,
    pub rename_back: Option<RenameBack>,
    pub abort_on_failure: bool,
}

/// Copy `from` onto `to`, then delete `from`.
pub struct RenameBack {
    pub from: String,
    pub to: String,
}

pub ghost struct RenameBackV {
    pub from: Seq<char>,
    pub to: Seq<char>,
}

pub ghost struct ConvertStepV {
    pub command: ToolCommandV,
    pub remove_original: Seq<char>,
    pub destination: Seq<char>,
    pub validate_paths: bool,
    pub rename_back: Option<RenameBackV>,
    pub abort_on_failure: bool,
}

impl View for RenameBack {
    type V = RenameBackV;

    open spec fn view(&self) -> RenameBackV {
        RenameBackV { from: self.from@, to: self.to@ }
    }
}

impl View for ConvertStep {
    type V = ConvertStepV;

    open spec fn view(&self) -> ConvertStepV {
        ConvertStepV {
            command: self.command@,
            remove_original: self.remove_original@,
            destination: self.destination@,
            validate_paths: self.validate_paths,
            rename_back: match &self.rename_back {
                Some(r) => Some(r@),
                None => None,
            },
            abort_on_failure: self.abort_on_failure,
        }
    }
}

/// The path with its last component renamed.
pub open spec fn with_name(p: PathV, name: Seq<char>) -> PathV
    recommends p.len() > 0,
{
    p.update(p.len() - 1, name)
}

/// Renames the last component of a path.
pub fn with_name_exec(p: &Vec<String>, name: String) -> (r: Vec<String>)
    requires p@.len() > 0,
    ensures path_view(r) == with_name(path_view(*p), name@),
{
    let base = take_comps(p, p.len() - 1);
    let ghost basev = path_view(base);
    let mut r = base;
    r.push(name);
    proof {
        assert(path_view(r) =~= basev.push(name@));
        assert(basev.push(name@) =~= with_name(path_view(*p), name@));
    }
    r
}

/// The image extensions the codec accepts.
pub open spec fn is_image_ext(x: Seq<char>) -> bool {
    x == "pac"@ || x == "tga"@ || x == "jpg"@ || x == "png"@
}

/// A file takes part in conversion: it is not a convert-ignore manifest and
/// no `.convertignore` above it excludes it.
pub open spec fn convert_selected(t: TreeV, e: EntryV) -> bool {
    &&& e.node is File
    &&& e.path.len() > 0
    &&& base_name(e.path) != ".convertignore"@
    &&& walk_included(t, ".convertignore"@, e.path, false)
}

/// What a selected file becomes in the destination after pack-side
/// conversion: images get a `paa` name, configs a `bin` name, materials keep
/// their name; every converted file's content is the tool's opaque output.
/// `None` means the extension has no registered converter — a fatal error.
pub open spec fn pack_convert_target(e: EntryV) -> Option<EntryV> {
    let name = base_name(e.path);
    let binary = NodeV::File(ContentV::Leaf(LeafV::Opaque));
    match ext_of(name) {
        Some(x) => if is_image_ext(x) {
            Some(EntryV { path: with_name(e.path, stem_of(name) + ".paa"@), node: binary })
        } else if x == "cpp"@ {
            Some(EntryV { path: with_name(e.path, stem_of(name) + ".bin"@), node: binary })
        } else if x == "rvmat"@ {
            Some(EntryV { path: e.path, node: binary })
        } else {
            None
        },
        None => None,
    }
}

pub ghost struct ConvOutV {
    pub tree: TreeV,
    pub steps: Seq<ConvertStepV>,
}

impl ArmaToolsModPacker {
    /// The step that converts one selected file during pack.
    pub open spec fn pack_convert_step(self, root: Seq<char>, e: EntryV) -> ConvertStepV
        recommends convert_selected_shape(e),
    {
        let name = base_name(e.path);
        let orig = full_path(root, e.path);
        match ext_of(name) {
            Some(x) => if is_image_ext(x) {
                let dest = full_path(root, with_name(e.path, stem_of(name) + ".paa"@));
                ConvertStepV {
                    command: self.paa_converter.binarize_spec(orig, dest),
                    remove_original: orig,
                    destination: dest,
                    validate_paths: true,
                    rename_back: None,
                    abort_on_failure: true,
                }
            } else if x == "cpp"@ {
                let dest = full_path(root, with_name(e.path, stem_of(name) + ".bin"@));
                ConvertStepV {
                    command: self.config_converter.binarize_spec(orig, dest),
                    remove_original: orig,
                    destination: dest,
                    validate_paths: false,
                    rename_back: None,
                    abort_on_failure: true,
                }
            } else {
                let tmp = full_path(root, with_name(e.path, stem_of(name) + ".brvmat"@));
                ConvertStepV {
                    command: self.rvmat_converter.binarize_spec(orig, tmp),
                    remove_original: orig,
                    destination: tmp,
                    validate_paths: false,
                    rename_back: Some(RenameBackV { from: tmp, to: orig }),
                    abort_on_failure: true,
                }
            },
            None => ConvertStepV {
                command: self.rvmat_converter.binarize_spec(orig, orig),
                remove_original: orig,
                destination: orig,
                validate_paths: false,
                rename_back: None,
                abort_on_failure: true,
            },
        }
    }

    /// The destination tree and the conversion steps after the pack-side
    /// conversion of the first `n` entries; a selected file without a
    /// registered converter aborts the whole stage.
    pub open spec fn spec_convert_raw_upto(self, t: TreeV, root: Seq<char>, n: int) -> Result<ConvOutV, PackError>
        decreases n,
    {
        if n <= 0 {
            Ok(ConvOutV { tree: Seq::empty(), steps: Seq::empty() })
        } else {
            match self.spec_convert_raw_upto(t, root, n - 1) {
                Err(e) => Err(e),
                Ok(acc) => {
                    let e = t[n - 1];
                    if !convert_selected(t, e) {
                        Ok(ConvOutV { tree: upsert_entry(acc.tree, e.path, e.node), steps: acc.steps })
                    } else {
                        match pack_convert_target(e) {
                            None => Err(PackError::UnknownExtension),
                            Some(e2) => Ok(ConvOutV {
                                tree: upsert_entry(acc.tree, e2.path, e2.node),
                                steps: acc.steps.push(self.pack_convert_step(root, e)),
                            }),
                        }
                    }
                },
            }
        }
    }

    /// What the pack-side conversion stage produces from the whole tree.
    pub open spec fn spec_convert_raw(self, t: TreeV, root: Seq<char>) -> Result<ConvOutV, PackError> {
        self.spec_convert_raw_upto(t, root, t.len() as int)
    }

    proof fn lemma_convert_err_stable(self, t: TreeV, root: Seq<char>, n: int, m: int)
        requires n <= m, self.spec_convert_raw_upto(t, root, n) is Err,
        ensures self.spec_convert_raw_upto(t, root, m) == self.spec_convert_raw_upto(t, root, n),
        decreases m - n,
    {
        if n < m {
            self.lemma_convert_err_stable(t, root, n, m - 1);
        }
    }

    /// A conversion pass that succeeds on a longer prefix succeeded on every
    /// shorter one.
    pub proof fn lemma_convert_not_err_prefix(packer: ArmaToolsModPacker, t: TreeV, root: Seq<char>, n: int, m: int)
        requires n <= m, packer.spec_convert_raw_upto(t, root, m) is Ok,
        ensures packer.spec_convert_raw_upto(t, root, n) is Ok,
    {
        if packer.spec_convert_raw_upto(t, root, n) is Err {
            packer.lemma_convert_err_stable(t, root, n, m);
        }
    }

    /// Converts every file the `.convertignore` manifests leave in: images
    /// and configs change their extension, materials keep theirs through the
    /// two-phase temporary, and a selected file of any other kind aborts the
    /// run. Returns the converted tree and the steps to run, in order.
    #[verifier::loop_isolation(false)]
    pub fn convert_raw_files(&self, t: &Tree, root: &String) -> (r: Result<(Tree, Vec<ConvertStep>), PackError>)
        ensures
            (r matches Ok(p) ==> self.spec_convert_raw(t@, root@) == Ok::<ConvOutV, PackError>(ConvOutV {
                tree: p.0@,
                steps: p.1@.map_values(|s: ConvertStep| s@),
            })),
            (r matches Err(e) ==> self.spec_convert_raw(t@, root@) == Err::<ConvOutV, PackError>(e)),
    {
        let ghost tv = t@;
        let mut entries: Vec<FsEntry> = Vec::new();
        let mut steps: Vec<ConvertStep> = Vec::new();
        proof {
            assert(entries@.map_values(|e: FsEntry| e@) =~= Seq::<EntryV>::empty());
            assert(steps@.map_values(|s: ConvertStep| s@) =~= Seq::<ConvertStepV>::empty());
        }
        let mut i: usize = 0;
        while i < t.entries.len()
            invariant
                i <= t.entries@.len(),
                self.spec_convert_raw_upto(tv, root@, i as int) == Ok::<ConvOutV, PackError>(ConvOutV {
                    tree: entries@.map_values(|e: FsEntry| e@),
                    steps: steps@.map_values(|s: ConvertStep| s@),
                }),
            decreases t.entries@.len() - i,
        {
            let e = &t.entries[i];
            proof {
                assert(tv[i as int] == t.entries@[i as int]@);
            }
            let selected = convert_selected_exec(t, e);
            if !selected {
                entries = upsert_exec(entries, clone_strings(&e.path), e.node.duplicate());
                i += 1;
                continue;
            }
            let name = &e.path[e.path.len() - 1];
            proof {
                assert(base_name(tv[i as int].path) == name@);
            }
            let (stem, ext) = split_name(name);
            let orig = full_path_exec(root, &e.path);
            let ext = match ext {
                None => {
                    proof {
                        self.lemma_convert_err_stable(tv, root@, i + 1, tv.len() as int);
                    }
                    return Err(PackError::UnknownExtension);
                },
                Some(x) => x,
            };
            let binary = NodeData::File(FileContent::Leaf(LeafContent::Opaque));
            if string_is(&ext, "pac") || string_is(&ext, "tga") || string_is(&ext, "jpg") || string_is(&ext, "png") {
                let new_path = with_name_exec(&e.path, string_concat(&stem, ".paa"));
                let dest = full_path_exec(root, &new_path);
                let command = self.paa_converter.binarize(&orig, &dest);
                steps.push(ConvertStep {
                    command,
                    remove_original: orig,
                    destination: dest,
                    validate_paths: true,
                    rename_back: None,
                    abort_on_failure: true,
                });
                entries = upsert_exec(entries, new_path, binary);
            } else if string_is(&ext, "cpp") {
                let new_path = with_name_exec(&e.path, string_concat(&stem, ".bin"));
                let dest = full_path_exec(root, &new_path);
                let command = self.config_converter.binarize(&orig, &dest);
                steps.push(ConvertStep {
                    command,
                    remove_original: orig,
                    destination: dest,
                    validate_paths: false,
                    rename_back: None,
                    abort_on_failure: true,
                });
                entries = upsert_exec(entries, new_path, binary);
            } else if string_is(&ext, "rvmat") {
                let tmp_path = with_name_exec(&e.path, string_concat(&stem, ".brvmat"));
                let tmp = full_path_exec(root, &tmp_path);
                let command = self.rvmat_converter.binarize(&orig, &tmp);
                steps.push(ConvertStep {
                    command,
                    remove_original: orig.clone(),
                    destination: tmp.clone(),
                    validate_paths: false,
                    rename_back: Some(RenameBack { from: tmp, to: orig }),
                    abort_on_failure: true,
                });
                entries = upsert_exec(entries, clone_strings(&e.path), binary);
            } else {
                proof {
                    self.lemma_convert_err_stable(tv, root@, i + 1, tv.len() as int);
                }
                return Err(PackError::UnknownExtension);
            }
            proof {
                assert(steps@.map_values(|s: ConvertStep| s@)
                    =~= self.spec_convert_raw_upto(tv, root@, i as int)->Ok_0.steps.push(
                        self.pack_convert_step(root@, tv[i as int])));
            }
            i += 1;
        }
        Ok((Tree { entries }, steps))
    }
}

/// The shape `pack_convert_step` is stated for: a file entry with a name.
pub open spec fn convert_selected_shape(e: EntryV) -> bool {
    e.node is File && e.path.len() > 0
}

/// Decides whether the conversion walk selects the file entry.
fn convert_selected_exec(t: &Tree, e: &FsEntry) -> (r: bool)
    ensures r == convert_selected(t@, e@),
{
    if matches!(&e.node, NodeData::Dir) {
        return false;
    }
    if e.path.len() == 0 {
        return false;
    }
    let name = &e.path[e.path.len() - 1];
    proof {
        assert(base_name(e@.path) == name@);
    }
    if string_is(name, ".convertignore") {
        return false;
    }
    walk_included_exec(t, ".convertignore", &e.path, false)
}


/// A file of any content stands at `p`.
pub open spec fn is_file_at(t: TreeV, p: PathV) -> bool {
    node_at(t, p) matches Some(NodeV::File(_))
}

/// `d` is a build unit: it holds a build manifest and no directory above it
/// holds one. Nesting never claims the inner directory, whatever order the
/// tree lists its entries in.
pub open spec fn is_unit_dir(t: TreeV, d: PathV) -> bool {
    &&& d.len() >= 1
    &&& is_file_at(t, d.push("pbo.json"@))
    &&& forall|k: int| 1 <= k < d.len() ==> !is_file_at(t, (#[trigger] d.take(k)).push("pbo.json"@))
}

/// The entry is the build manifest of a unit.
pub open spec fn unit_manifest_entry(t: TreeV, e: EntryV) -> bool {
    &&& e.node is File
    &&& e.path.len() >= 2
    &&& base_name(e.path) == "pbo.json"@
    &&& is_unit_dir(t, parent_of(e.path))
}

/// The unit directories named by the first `n` entries, in traversal order.
pub open spec fn spec_units_upto(t: TreeV, n: int) -> Seq<PathV>
    decreases n,
{
    if n <= 0 {
        Seq::empty()
    } else {
        let rest = spec_units_upto(t, n - 1);
        if unit_manifest_entry(t, t[n - 1]) {
            rest.push(parent_of(t[n - 1].path))
        } else {
            rest
        }
    }
}

/// Two of the units carry the same directory name.
pub open spec fn has_duplicate_names(units: Seq<PathV>) -> bool {
    exists|i: int, j: int| 0 <= i < j < units.len()
        && base_name(#[trigger] units[i]) == base_name(#[trigger] units[j])
}

/// What unit discovery returns: the unit directories in traversal order. A
/// build manifest at the destination root and units with equal names are
/// rejected, since both would make the outputs overwrite one another.
pub open spec fn spec_identify_units(t: TreeV) -> Result<Seq<PathV>, PackError> {
    if is_file_at(t, seq!["pbo.json"@]) {
        Err(PackError::InvariantViolation)
    } else if has_duplicate_names(spec_units_upto(t, t.len() as int)) {
        Err(PackError::DuplicateUnitName)
    } else {
        Ok(spec_units_upto(t, t.len() as int))
    }
}

/// What staging adds for one unit: its key descriptor, copied beside the
/// archives under the unit's name. A unit without one stages nothing.
pub open spec fn staged_for(t: TreeV, unit: PathV) -> Option<EntryV>
    recommends unit.len() > 0,
{
    match node_at(t, unit.push("key.json"@)) {
        Some(NodeV::File(ContentV::Leaf(LeafV::Descriptor(a)))) => Some(EntryV {
            path: seq!["addons"@, base_name(unit) + "_key.json"@],
            node: NodeV::File(ContentV::Leaf(LeafV::Descriptor(a))),
        }),
        _ => None,
    }
}

pub ghost struct StageOutV {
    pub tree: TreeV,
    pub copies: Seq<(PathV, PathV)>,
}

/// The tree after the first `n` units staged their key descriptors, and the
/// copies to perform, each from the unit's descriptor to its staged name.
pub open spec fn spec_stage_keys_upto(t: TreeV, units: Seq<PathV>, n: int) -> StageOutV
    decreases n,
{
    if n <= 0 {
        StageOutV { tree: t, copies: Seq::empty() }
    } else {
        let acc = spec_stage_keys_upto(t, units, n - 1);
        match staged_for(t, units[n - 1]) {
            Some(e) => StageOutV {
                tree: upsert_entry(acc.tree, e.path, e.node),
                copies: acc.copies.push((units[n - 1].push("key.json"@), e.path)),
            },
            None => acc,
        }
    }
}

pub open spec fn spec_stage_keys(t: TreeV, units: Seq<PathV>) -> StageOutV {
    spec_stage_keys_upto(t, units, units.len() as int)
}

impl ArmaToolsModPacker {
    /// Scans the tree for build manifests and returns the set of unit
    /// directories, outermost only: a manifest beneath a claimed unit is
    /// never a unit of its own. A manifest at the root, or two units of one
    /// name, abort the run.
    #[verifier::loop_isolation(false)]
    pub fn identify_pbo_folders(t: &Tree) -> (r: Result<Vec<Vec<String>>, PackError>)
        ensures
            (r matches Ok(us) ==> spec_identify_units(t@)
                == Ok::<Seq<PathV>, PackError>(us@.map_values(|p: Vec<String>| path_view(p)))),
            (r matches Err(e) ==> spec_identify_units(t@) == Err::<Seq<PathV>, PackError>(e)),
    {
        let ghost tv = t@;
        let root_manifest: Vec<String> = crate::paths::take_push(&Vec::new(), 0, "pbo.json");
        proof {
            assert(path_view(root_manifest) =~= seq!["pbo.json"@]);
        }
        match t.find(&root_manifest) {
            Some(i) => {
                if matches!(&t.entries[i].node, NodeData::File(_)) {
                    return Err(PackError::InvariantViolation);
                }
                assert(!is_file_at(tv, seq!["pbo.json"@]));
            },
            None => {
                assert(!is_file_at(tv, seq!["pbo.json"@]));
            },
        }
        let mut units: Vec<Vec<String>> = Vec::new();
        proof {
            assert(units@.map_values(|p: Vec<String>| path_view(p)) =~= spec_units_upto(tv, 0));
        }
        let mut i: usize = 0;
        while i < t.entries.len()
            invariant
                i <= t.entries@.len(),
                units@.map_values(|p: Vec<String>| path_view(p)) == spec_units_upto(tv, i as int),
            decreases t.entries@.len() - i,
        {
            let e = &t.entries[i];
            proof {
                assert(tv[i as int] == t.entries@[i as int]@);
            }
            if Self::unit_manifest_entry_exec(t, e) {
                units.push(take_comps(&e.path, e.path.len() - 1));
                proof {
                    assert(path_view(units@.last()) =~= parent_of(tv[i as int].path));
                    assert(units@.map_values(|p: Vec<String>| path_view(p)) =~= spec_units_upto(tv, i + 1));
                }
            }
            i += 1;
        }
        // Reject two units of one name: their archives would collide.
        let mut a: usize = 0;
        while a < units.len()
            invariant
                a <= units@.len(),
                units@.map_values(|p: Vec<String>| path_view(p)) == spec_units_upto(tv, tv.len() as int),
                forall|x: int, y: int| 0 <= x < y < units@.len() && x < a
                    ==> base_name(path_view(#[trigger] units@[x])) != base_name(path_view(#[trigger] units@[y])),
            decreases units@.len() - a,
        {
            let mut b: usize = a + 1;
            while b < units.len()
                invariant
                    a < b <= units@.len() || units@.len() == 0,
                    a < units@.len(),
                    forall|y: int| a < y < b
                        ==> base_name(path_view(units@[a as int])) != base_name(path_view(#[trigger] units@[y])),
                decreases units@.len() - b,
            {
                let ua = &units[a];
                let ub = &units[b];
                proof {
                    lemma_units_nonempty(tv, tv.len() as int);
                    let uvv = units@.map_values(|p: Vec<String>| path_view(p));
                    assert(uvv[a as int] == path_view(units@[a as int]));
                    assert(uvv[b as int] == path_view(units@[b as int]));
                    assert(path_view(units@[a as int]).len() >= 1);
                    assert(path_view(units@[b as int]).len() >= 1);
                }
                if string_eq(&ua[ua.len() - 1], &ub[ub.len() - 1]) {
                    proof {
                        assert(base_name(path_view(units@[a as int])) == base_name(path_view(units@[b as int])));
                        let uv = units@.map_values(|p: Vec<String>| path_view(p));
                        assert(base_name(uv[a as int]) == base_name(uv[b as int]));
                        assert(has_duplicate_names(uv));
                    }
                    return Err(PackError::DuplicateUnitName);
                }
                b += 1;
            }
            a += 1;
        }
        proof {
            let uv = units@.map_values(|p: Vec<String>| path_view(p));
            assert forall|x: int, y: int| 0 <= x < y < uv.len()
                implies base_name(#[trigger] uv[x]) != base_name(#[trigger] uv[y]) by {
                assert(base_name(path_view(units@[x])) != base_name(path_view(units@[y])));
            }
            assert(!has_duplicate_names(uv));
        }
        Ok(units)
    }

    /// Decides whether the entry is the build manifest of an outermost unit.
    #[verifier::loop_isolation(false)]
    fn unit_manifest_entry_exec(t: &Tree, e: &FsEntry) -> (r: bool)
        ensures r == unit_manifest_entry(t@, e@),
    {
        if matches!(&e.node, NodeData::Dir) {
            return false;
        }
        if e.path.len() < 2 {
            return false;
        }
        let name = &e.path[e.path.len() - 1];
        proof {
            assert(base_name(e@.path) == name@);
        }
        if !string_is(name, "pbo.json") {
            return false;
        }
        let ghost d = parent_of(e@.path);
        proof {
            assert(d.push("pbo.json"@) =~= e@.path);
        }
        match t.find(&e.path) {
            Some(i) => {
                if matches!(&t.entries[i].node, NodeData::Dir) {
                    assert(!is_file_at(t@, d.push("pbo.json"@)));
                    return false;
                }
                assert(is_file_at(t@, d.push("pbo.json"@)));
            },
            None => {
                assert(!is_file_at(t@, d.push("pbo.json"@)));
                return false;
            },
        }
        let mut k: usize = 1;
        while k < e.path.len() - 1
            invariant
                1 <= k <= e.path@.len() - 1,
                forall|j: int| 1 <= j < k ==> !is_file_at(t@, (#[trigger] d.take(j)).push("pbo.json"@)),
            decreases e.path@.len() - 1 - k,
        {
            let probe = crate::paths::take_push(&e.path, k, "pbo.json");
            proof {
                assert(path_view(probe) =~= d.take(k as int).push("pbo.json"@));
            }
            match t.find(&probe) {
                Some(i) => {
                    if matches!(&t.entries[i].node, NodeData::File(_)) {
                        assert(is_file_at(t@, d.take(k as int).push("pbo.json"@)));
                        return false;
                    }
                },
                None => {},
            }
            k += 1;
        }
        true
    }

    /// Copies each unit's key descriptor into the addons folder, renamed to
    /// `<unit-name>_key.json`. Returns the tree with the staged descriptors
    /// and the copies to perform.
    #[verifier::loop_isolation(false)]
    pub fn copy_key_files_from_pbo_folders(t: &Tree, units: &Vec<Vec<String>>) -> (r: (Tree, Vec<(Vec<String>, Vec<String>)>))
        requires
            forall|i: int| 0 <= i < units@.len() ==> (#[trigger] units@[i])@.len() > 0,
        ensures
            ({
                let out = spec_stage_keys(t@, units@.map_values(|p: Vec<String>| path_view(p)));
                r.0@ == out.tree
                    && r.1@.map_values(|c: (Vec<String>, Vec<String>)| (path_view(c.0), path_view(c.1))) == out.copies
            }),
    {
        let ghost tv = t@;
        let ghost uv = units@.map_values(|p: Vec<String>| path_view(p));
        let mut entries: Vec<FsEntry> = clone_tree_entries(t);
        let mut copies: Vec<(Vec<String>, Vec<String>)> = Vec::new();
        proof {
            assert(copies@.map_values(|c: (Vec<String>, Vec<String>)| (path_view(c.0), path_view(c.1)))
                =~= Seq::<(PathV, PathV)>::empty());
        }
        let mut i: usize = 0;
        while i < units.len()
            invariant
                i <= units@.len(),
                entries@.map_values(|e: FsEntry| e@) == spec_stage_keys_upto(tv, uv, i as int).tree,
                copies@.map_values(|c: (Vec<String>, Vec<String>)| (path_view(c.0), path_view(c.1)))
                    == spec_stage_keys_upto(tv, uv, i as int).copies,
            decreases units@.len() - i,
        {
            let unit = &units[i];
            proof {
                assert(uv[i as int] == path_view(*unit));
            }
            let descriptor = crate::paths::path_push(unit, &"key.json".to_owned());
            proof {
                reveal_strlit("key.json");
                assert(path_view(descriptor) =~= uv[i as int].push("key.json"@));
            }
            match t.find(&descriptor) {
                Some(di) => {
                    match &t.entries[di].node {
                        NodeData::File(FileContent::Leaf(LeafContent::Descriptor(k))) => {
                            let unit_name = &unit[unit.len() - 1];
                            proof {
                                assert(base_name(uv[i as int]) == unit_name@);
                            }
                            let staged_name = string_concat(unit_name, "_key.json");
                            let mut staged_path: Vec<String> = Vec::new();
                            staged_path.push("addons".to_owned());
                            staged_path.push(staged_name);
                            proof {
                                assert(path_view(staged_path)
                                    =~= seq!["addons"@, base_name(uv[i as int]) + "_key.json"@]);
                            }
                            let node = NodeData::File(FileContent::Leaf(LeafContent::Descriptor(k.duplicate())));
                            copies.push((clone_strings(&descriptor), clone_strings(&staged_path)));
                            entries = upsert_exec(entries, staged_path, node);
                            proof {
                                assert(copies@.map_values(|c: (Vec<String>, Vec<String>)| (path_view(c.0), path_view(c.1)))
                                    =~= spec_stage_keys_upto(tv, uv, i + 1).copies);
                            }
                        },
                        _ => {},
                    }
                },
                None => {},
            }
            i += 1;
        }
        (Tree { entries }, copies)
    }
}

/// Every discovered unit path is non-empty: it is the parent of a manifest
/// at depth two or more.
pub proof fn lemma_units_nonempty(t: TreeV, n: int)
    ensures forall|i: int| 0 <= i < spec_units_upto(t, n).len()
        ==> (#[trigger] spec_units_upto(t, n)[i]).len() >= 1,
    decreases n,
{
    if n > 0 {
        lemma_units_nonempty(t, n - 1);
        let rest = spec_units_upto(t, n - 1);
        let whole = spec_units_upto(t, n);
        assert forall|i: int| 0 <= i < whole.len() implies (#[trigger] whole[i]).len() >= 1 by {
            if unit_manifest_entry(t, t[n - 1]) {
                if i < rest.len() {
                    assert(whole[i] == rest[i]);
                } else {
                    assert(whole[i] == parent_of(t[n - 1].path));
                }
            }
        }
    }
}

/// Copies a tree's entries, keeping their views.
pub fn clone_tree_entries(t: &Tree) -> (r: Vec<FsEntry>)
    ensures r@.map_values(|e: FsEntry| e@) == t@,
{
    let mut r: Vec<FsEntry> = Vec::new();
    let mut i: usize = 0;
    while i < t.entries.len()
        invariant
            i <= t.entries@.len(),
            r@.len() == i,
            forall|j: int| 0 <= j < i ==> r@[j]@ == t.entries@[j]@,
        decreases t.entries@.len() - i,
    {
        r.push(t.entries[i].duplicate());
        i += 1;
    }
    proof {
        assert(r@.map_values(|e: FsEntry| e@) =~= t@);
    }
    r
}


/// Finds the first entry at `p` among the entries.
pub fn find_entry(entries: &Vec<FsEntry>, p: &Vec<String>) -> (r: Option<usize>)
    ensures
        match r {
            Some(i) => {
                &&& i < entries@.len()
                &&& entries@.map_values(|e: FsEntry| e@)[i as int].path == path_view(*p)
                &&& node_at(entries@.map_values(|e: FsEntry| e@), path_view(*p))
                    == Some(entries@.map_values(|e: FsEntry| e@)[i as int].node)
            },
            None => node_at(entries@.map_values(|e: FsEntry| e@), path_view(*p)) is None,
        },
{
    let ghost tv = entries@.map_values(|e: FsEntry| e@);
    let ghost pv = path_view(*p);
    proof { assert(tv.skip(0) =~= tv); }
    let mut i: usize = 0;
    while i < entries.len()
        invariant
            i <= entries@.len(),
            pv == path_view(*p),
            tv == entries@.map_values(|e: FsEntry| e@),
            node_at(tv, pv) == node_at(tv.skip(i as int), pv),
        decreases entries@.len() - i,
    {
        if path_eq(&entries[i].path, p) {
            proof { assert(tv.skip(i as int).first() == tv[i as int]); }
            return Some(i);
        }
        proof { assert(tv.skip(i as int).drop_first() =~= tv.skip(i + 1)); }
        i += 1;
    }
    proof { assert(tv.skip(i as int).len() == 0); }
    None
}

/// How a tree node is carried inside an archive: a nested archive is kept
/// only as its opaque bytes.
pub open spec fn arch_node_of(n: NodeV) -> ArchNodeV {
    match n {
        NodeV::Dir => ArchNodeV::Dir,
        NodeV::File(ContentV::Leaf(l)) => ArchNodeV::File(l),
        NodeV::File(ContentV::Archive(_)) => ArchNodeV::File(LeafV::Opaque),
    }
}

/// The archive contents of a unit from the first `n` entries: everything
/// strictly beneath the unit directory, at its path relative to it.
pub open spec fn spec_arch_of_upto(t: TreeV, unit: PathV, n: int) -> Seq<ArchEntryV>
    decreases n,
{
    if n <= 0 {
        Seq::empty()
    } else {
        let rest = spec_arch_of_upto(t, unit, n - 1);
        let e = t[n - 1];
        if is_strict_prefix_of(unit, e.path) {
            rest.push(ArchEntryV { path: e.path.skip(unit.len() as int), node: arch_node_of(e.node) })
        } else {
            rest
        }
    }
}

pub open spec fn spec_arch_of(t: TreeV, unit: PathV) -> Seq<ArchEntryV> {
    spec_arch_of_upto(t, unit, t.len() as int)
}

/// One archiving step: the manifest to write into the unit first, when a
/// prefix is configured, and the pack invocation.
pub struct PackStep {
    pub manifest_write: Option<(String, PBOJson)>,
    pub command: ToolCommand,
}

pub ghost struct PackStepV {
    pub manifest_write: Option<(Seq<char>, PBOJsonV)>,
    pub command: ToolCommandV,
}

impl View for PackStep {
    type V = PackStepV;

    open spec fn view(&self) -> PackStepV {
        PackStepV {
            manifest_write: match &self.manifest_write {
                Some(w) => Some((w.0@, w.1@)),
                None => None,
            },
            command: self.command@,
        }
    }
}

impl ArmaToolsModPacker {
    /// What archiving one unit does to the tree, and the step to run: the
    /// configured prefix is pinned into the unit's manifest, the unit's
    /// contents become `addons/<unit-name>.pbo`, and the tool runs in the
    /// addons folder. A non-manifest node at the manifest's path aborts.
    pub open spec fn spec_pack_one(self, acc: TreeV, unit: PathV, root: Seq<char>) -> Result<(TreeV, PackStepV), PackError>
        recommends unit.len() > 0,
    {
        let mpath = unit.push("pbo.json"@);
        let prefix = prefix_view(self.pbo_packer.prefix);
        let current = match node_at(acc, mpath) {
            None => Ok(Option::<PBOJsonV>::None),
            Some(NodeV::File(ContentV::Leaf(LeafV::Manifest(m)))) => Ok(Some(m)),
            Some(_) => Err(PackError::InvariantViolation),
        };
        match current {
            Err(e) => Err(e),
            Ok(m) => {
                let newm = spec_set_prefix(prefix, m);
                let acc1 = if prefix is Some {
                    upsert_entry(acc, mpath, NodeV::File(ContentV::Leaf(LeafV::Manifest(newm->Some_0))))
                } else {
                    acc
                };
                let contents = spec_arch_of(acc1, unit);
                let apath = seq!["addons"@, base_name(unit) + ".pbo"@];
                let acc2 = upsert_entry(acc1, apath, NodeV::File(ContentV::Archive(contents)));
                let step = PackStepV {
                    manifest_write: if prefix is Some {
                        Some((full_path(root, mpath), newm->Some_0))
                    } else {
                        None
                    },
                    command: self.pbo_packer.pack_command_spec(full_path(root, unit), full_path(root, seq!["addons"@])),
                };
                Ok((acc2, step))
            },
        }
    }

    /// The tree and the archiving steps after the first `n` units are packed.
    pub open spec fn spec_pack_units_upto(self, t: TreeV, units: Seq<PathV>, root: Seq<char>, n: int) -> Result<(TreeV, Seq<PackStepV>), PackError>
        decreases n,
    {
        if n <= 0 {
            Ok((t, Seq::empty()))
        } else {
            match self.spec_pack_units_upto(t, units, root, n - 1) {
                Err(e) => Err(e),
                Ok((acc, steps)) => match self.spec_pack_one(acc, units[n - 1], root) {
                    Err(e) => Err(e),
                    Ok((acc2, step)) => Ok((acc2, steps.push(step))),
                },
            }
        }
    }

    pub open spec fn spec_pack_units(self, t: TreeV, units: Seq<PathV>, root: Seq<char>) -> Result<(TreeV, Seq<PackStepV>), PackError> {
        self.spec_pack_units_upto(t, units, root, units.len() as int)
    }

    proof fn lemma_pack_units_err_stable(self, t: TreeV, units: Seq<PathV>, root: Seq<char>, n: int, m: int)
        requires n <= m, self.spec_pack_units_upto(t, units, root, n) is Err,
        ensures self.spec_pack_units_upto(t, units, root, m) == self.spec_pack_units_upto(t, units, root, n),
        decreases m - n,
    {
        if n < m {
            self.lemma_pack_units_err_stable(t, units, root, n, m - 1);
        }
    }

    /// Packs every discovered unit into an archive beside the others in the
    /// addons folder, pinning the configured prefix into each manifest first.
    #[verifier::loop_isolation(false)]
    pub fn pack_pbo_folders(&self, t: &Tree, units: &Vec<Vec<String>>, root: &String) -> (r: Result<(Tree, Vec<PackStep>), PackError>)
        requires
            forall|i: int| 0 <= i < units@.len() ==> (#[trigger] units@[i])@.len() > 0,
        ensures
            ({
                let uv = units@.map_values(|p: Vec<String>| path_view(p));
                &&& (r matches Ok(p) ==> self.spec_pack_units(t@, uv, root@)
                    == Ok::<(TreeV, Seq<PackStepV>), PackError>((p.0@, p.1@.map_values(|s: PackStep| s@))))
                &&& (r matches Err(e) ==> self.spec_pack_units(t@, uv, root@)
                    == Err::<(TreeV, Seq<PackStepV>), PackError>(e))
            }),
    {
        let ghost tv = t@;
        let ghost uv = units@.map_values(|p: Vec<String>| path_view(p));
        let mut entries: Vec<FsEntry> = clone_tree_entries(t);
        let mut steps: Vec<PackStep> = Vec::new();
        proof {
            assert(steps@.map_values(|x: PackStep| x@) =~= Seq::<PackStepV>::empty());
        }
        let mut i: usize = 0;
        while i < units.len()
            invariant
                i <= units@.len(),
                self.spec_pack_units_upto(tv, uv, root@, i as int)
                    == Ok::<(TreeV, Seq<PackStepV>), PackError>((
                        entries@.map_values(|e: FsEntry| e@),
                        steps@.map_values(|x: PackStep| x@),
                    )),
            decreases units@.len() - i,
        {
            let unit = &units[i];
            proof {
                assert(uv[i as int] == path_view(*unit));
            }
            let mpath = crate::paths::path_push(unit, &"pbo.json".to_owned());
            proof {
                reveal_strlit("pbo.json");
                assert(path_view(mpath) =~= uv[i as int].push("pbo.json"@));
            }
            let manifest: Option<&PBOJson> = match find_entry(&entries, &mpath) {
                None => None,
                Some(mi) => match &entries[mi].node {
                    NodeData::File(FileContent::Leaf(LeafContent::Manifest(m))) => Some(m),
                    _ => {
                        proof {
                            self.lemma_pack_units_err_stable(tv, uv, root@, i + 1, uv.len() as int);
                        }
                        return Err(PackError::InvariantViolation);
                    },
                },
            };
            let unit_full = full_path_exec(root, unit);
            let mut addons_path: Vec<String> = Vec::new();
            addons_path.push("addons".to_owned());
            proof {
                assert(path_view(addons_path) =~= seq!["addons"@]);
            }
            let addons_full = full_path_exec(root, &addons_path);
            let (newm, command) = self.pbo_packer.pack(&unit_full, &addons_full, manifest);
            let manifest_write: Option<(String, PBOJson)>;
            if self.pbo_packer.prefix.is_some() {
                let m = match newm {
                    Some(m) => m,
                    None => {
                        // Unreachable: a configured prefix always yields a manifest.
                        proof {
                            assert(spec_set_prefix(prefix_view(self.pbo_packer.prefix), match manifest {
                                Some(mm) => Some(mm@),
                                None => None,
                            }) is Some);
                        }
                        return Err(PackError::InvariantViolation);
                    },
                };
                entries = upsert_exec(
                    entries,
                    clone_strings(&mpath),
                    NodeData::File(FileContent::Leaf(LeafContent::Manifest(m.duplicate()))),
                );
                manifest_write = Some((full_path_exec(root, &mpath), m));
            } else {
                manifest_write = None;
            }
            // Collect the unit's contents, relative to the unit directory.
            let ghost acc1 = entries@.map_values(|e: FsEntry| e@);
            let mut contents: Vec<ArchEntry> = Vec::new();
            proof {
                assert(contents@.map_values(|a: ArchEntry| a@) =~= spec_arch_of_upto(acc1, uv[i as int], 0));
            }
            let mut j: usize = 0;
            while j < entries.len()
                invariant
                    j <= entries@.len(),
                    acc1 == entries@.map_values(|e: FsEntry| e@),
                    contents@.map_values(|a: ArchEntry| a@) == spec_arch_of_upto(acc1, uv[i as int], j as int),
                decreases entries@.len() - j,
            {
                let e = &entries[j];
                proof {
                    assert(acc1[j as int] == entries@[j as int]@);
                }
                if path_is_prefix(unit, &e.path) && e.path.len() > unit.len() {
                    let rel = skip_comps(&e.path, unit.len());
                    let node = match &e.node {
                        NodeData::Dir => ArchNode::Dir,
                        NodeData::File(FileContent::Leaf(l)) => ArchNode::File(l.duplicate()),
                        NodeData::File(FileContent::Archive(_)) => ArchNode::File(LeafContent::Opaque),
                    };
                    contents.push(ArchEntry { path: rel, node });
                    proof {
                        assert(contents@.map_values(|a: ArchEntry| a@)
                            =~= spec_arch_of_upto(acc1, uv[i as int], j + 1));
                    }
                }
                j += 1;
            }
            let unit_name = &unit[unit.len() - 1];
            let pbo_name = string_concat(unit_name, ".pbo");
            let mut apath: Vec<String> = Vec::new();
            apath.push("addons".to_owned());
            apath.push(pbo_name);
            proof {
                assert(base_name(uv[i as int]) == unit_name@);
                assert(path_view(apath) =~= seq!["addons"@, base_name(uv[i as int]) + ".pbo"@]);
            }
            entries = upsert_exec(entries, apath, NodeData::File(FileContent::Archive(contents)));
            steps.push(PackStep { manifest_write, command });
            proof {
                assert(steps@.map_values(|x: PackStep| x@)
                    =~= self.spec_pack_units_upto(tv, uv, root@, i as int)->Ok_0.1.push(
                        self.spec_pack_one(self.spec_pack_units_upto(tv, uv, root@, i as int)->Ok_0.0, uv[i as int], root@)->Ok_0.1));
            }
            i += 1;
        }
        Ok((Tree { entries }, steps))
    }
}

/// All entries of `t` except the directory `d` and everything beneath it.
pub open spec fn remove_subtree_upto(t: TreeV, d: PathV, n: int) -> TreeV
    decreases n,
{
    if n <= 0 {
        Seq::empty()
    } else {
        let rest = remove_subtree_upto(t, d, n - 1);
        if is_prefix_of(d, t[n - 1].path) {
            rest
        } else {
            rest.push(t[n - 1])
        }
    }
}

pub open spec fn remove_subtree(t: TreeV, d: PathV) -> TreeV {
    remove_subtree_upto(t, d, t.len() as int)
}

/// The tree after the first `n` unit directories are deleted whole.
pub open spec fn spec_delete_units_upto(t: TreeV, units: Seq<PathV>, n: int) -> TreeV
    decreases n,
{
    if n <= 0 {
        t
    } else {
        remove_subtree(spec_delete_units_upto(t, units, n - 1), units[n - 1])
    }
}

pub open spec fn spec_delete_units(t: TreeV, units: Seq<PathV>) -> TreeV {
    spec_delete_units_upto(t, units, units.len() as int)
}

/// Removes one subtree from the entries.
#[verifier::loop_isolation(false)]
fn remove_subtree_exec(entries: Vec<FsEntry>, d: &Vec<String>) -> (r: Vec<FsEntry>)
    ensures
        r@.map_values(|e: FsEntry| e@)
            == remove_subtree(entries@.map_values(|e: FsEntry| e@), path_view(*d)),
{
    let ghost tv = entries@.map_values(|e: FsEntry| e@);
    let ghost dv = path_view(*d);
    let mut out: Vec<FsEntry> = Vec::new();
    proof {
        assert(out@.map_values(|e: FsEntry| e@) =~= remove_subtree_upto(tv, dv, 0));
    }
    let mut i: usize = 0;
    while i < entries.len()
        invariant
            i <= entries@.len(),
            out@.map_values(|e: FsEntry| e@) == remove_subtree_upto(tv, dv, i as int),
        decreases entries@.len() - i,
    {
        proof {
            assert(tv[i as int] == entries@[i as int]@);
        }
        if !path_is_prefix(d, &entries[i].path) {
            out.push(entries[i].duplicate());
            proof {
                assert(out@.map_values(|e: FsEntry| e@) =~= remove_subtree_upto(tv, dv, i + 1));
            }
        }
        i += 1;
    }
    out
}


/// The entry is an archive lying directly in the addons folder.
pub open spec fn sign_candidate(e: EntryV) -> bool {
    &&& e.node is File
    &&& e.path.len() == 2
    &&& e.path[0] == "addons"@
    &&& ext_of(base_name(e.path)) == Some("pbo"@)
}

pub ghost struct SignOutV {
    pub tree: TreeV,
    pub used: Seq<Seq<char>>,
    pub commands: Seq<ToolCommandV>,
}

impl ArmaToolsModPacker {
    /// The signing pass over the first `n` entries: each archive whose staged
    /// descriptor is present is signed with its authority's private key from
    /// the keys folder, leaving `<stem>.bisign` beside it; an archive
    /// without a descriptor ships unsigned. The used public-key names are
    /// collected once each. A staged descriptor of the wrong kind, or a
    /// missing private key, aborts the run.
    pub open spec fn spec_sign_upto(self, t: TreeV, root: Seq<char>, n: int) -> Result<SignOutV, PackError>
        decreases n,
    {
        if n <= 0 {
            Ok(SignOutV { tree: t, used: Seq::empty(), commands: Seq::empty() })
        } else {
            match self.spec_sign_upto(t, root, n - 1) {
                Err(e) => Err(e),
                Ok(acc) => {
                    let e = t[n - 1];
                    if !sign_candidate(e) {
                        Ok(acc)
                    } else {
                        let stem = stem_of(base_name(e.path));
                        let dpath = seq!["addons"@, stem + "_key.json"@];
                        match node_at(t, dpath) {
                            None => Ok(acc),
                            Some(NodeV::File(ContentV::Leaf(LeafV::Descriptor(a)))) => {
                                let kpath = seq!["keys"@, a + ".biprivatekey"@];
                                if !(node_at(t, kpath) matches Some(NodeV::File(_))) {
                                    Err(PackError::MissingPrivateKey)
                                } else {
                                    let bikey = a + ".bikey"@;
                                    Ok(SignOutV {
                                        tree: upsert_entry(acc.tree, seq!["addons"@, stem + ".bisign"@],
                                            NodeV::File(ContentV::Leaf(LeafV::Opaque))),
                                        used: if acc.used.contains(bikey) { acc.used } else { acc.used.push(bikey) },
                                        commands: acc.commands.push(self.pbo_signer.sign_spec(
                                            full_path(root, e.path),
                                            full_path(root, kpath),
                                            full_path(root, seq!["addons"@]),
                                        )),
                                    })
                                }
                            },
                            Some(_) => Err(PackError::InvariantViolation),
                        }
                    }
                },
            }
        }
    }

    pub open spec fn spec_sign(self, t: TreeV, root: Seq<char>) -> Result<SignOutV, PackError> {
        self.spec_sign_upto(t, root, t.len() as int)
    }

    proof fn lemma_sign_err_stable(self, t: TreeV, root: Seq<char>, n: int, m: int)
        requires n <= m, self.spec_sign_upto(t, root, n) is Err,
        ensures self.spec_sign_upto(t, root, m) == self.spec_sign_upto(t, root, n),
        decreases m - n,
    {
        if n < m {
            self.lemma_sign_err_stable(t, root, n, m - 1);
        }
    }

    /// A signing pass that succeeds on a longer prefix succeeded on every
    /// shorter one.
    pub proof fn lemma_sign_not_err_prefix(packer: ArmaToolsModPacker, t: TreeV, root: Seq<char>, n: int, m: int)
        requires n <= m, packer.spec_sign_upto(t, root, m) is Ok,
        ensures packer.spec_sign_upto(t, root, n) is Ok,
    {
        if packer.spec_sign_upto(t, root, n) is Err {
            packer.lemma_sign_err_stable(t, root, n, m);
        }
    }

    /// Signs each packed archive that has a staged key descriptor, and
    /// returns the tree with the signatures, the names of the public keys
    /// the signed archives rely on, and the signing invocations in order.
    #[verifier::loop_isolation(false)]
    pub fn sign_packed_pbos(&self, t: &Tree, root: &String) -> (r: Result<(Tree, Vec<String>, Vec<ToolCommand>), PackError>)
        ensures
            (r matches Ok(p) ==> self.spec_sign(t@, root@) == Ok::<SignOutV, PackError>(SignOutV {
                tree: p.0@,
                used: p.1@.map_values(|s: String| s@),
                commands: p.2@.map_values(|c: ToolCommand| c@),
            })),
            (r matches Err(e) ==> self.spec_sign(t@, root@) == Err::<SignOutV, PackError>(e)),
    {
        let ghost tv = t@;
        let mut entries: Vec<FsEntry> = clone_tree_entries(t);
        let mut used: Vec<String> = Vec::new();
        let mut commands: Vec<ToolCommand> = Vec::new();
        proof {
            assert(used@.map_values(|s: String| s@) =~= Seq::<Seq<char>>::empty());
            assert(commands@.map_values(|c: ToolCommand| c@) =~= Seq::<ToolCommandV>::empty());
        }
        let mut i: usize = 0;
        while i < t.entries.len()
            invariant
                i <= t.entries@.len(),
                self.spec_sign_upto(tv, root@, i as int) == Ok::<SignOutV, PackError>(SignOutV {
                    tree: entries@.map_values(|e: FsEntry| e@),
                    used: used@.map_values(|s: String| s@),
                    commands: commands@.map_values(|c: ToolCommand| c@),
                }),
            decreases t.entries@.len() - i,
        {
            let e = &t.entries[i];
            proof {
                assert(tv[i as int] == t.entries@[i as int]@);
            }
            let candidate: bool;
            if e.path.len() != 2 || matches!(&e.node, NodeData::Dir) {
                candidate = false;
            } else if !string_is(&e.path[0], "addons") {
                candidate = false;
            } else {
                let (_stem, ext) = split_name(&e.path[1]);
                proof {
                    assert(base_name(tv[i as int].path) == e.path@[1]@);
                }
                candidate = match ext {
                    Some(x) => string_is(&x, "pbo"),
                    None => false,
                };
            }
            if !candidate {
                proof {
                    assert(!sign_candidate(tv[i as int]));
                }
                i += 1;
                continue;
            }
            let (stem, _ext) = split_name(&e.path[1]);
            proof {
                assert(base_name(tv[i as int].path) == e.path@[1]@);
            }
            let mut dpath: Vec<String> = Vec::new();
            dpath.push("addons".to_owned());
            dpath.push(string_concat(&stem, "_key.json"));
            proof {
                assert(path_view(dpath) =~= seq!["addons"@, stem_of(base_name(tv[i as int].path)) + "_key.json"@]);
            }
            let authority: String = match t.find(&dpath) {
                None => {
                    i += 1;
                    continue;
                },
                Some(di) => match &t.entries[di].node {
                    NodeData::File(FileContent::Leaf(LeafContent::Descriptor(k))) => k.authority_name.clone(),
                    _ => {
                        proof {
                            self.lemma_sign_err_stable(tv, root@, i + 1, tv.len() as int);
                        }
                        return Err(PackError::InvariantViolation);
                    },
                },
            };
            let mut kpath: Vec<String> = Vec::new();
            kpath.push("keys".to_owned());
            kpath.push(string_concat(&authority, ".biprivatekey"));
            proof {
                assert(path_view(kpath) =~= seq!["keys"@, authority@ + ".biprivatekey"@]);
            }
            let key_present = match t.find(&kpath) {
                None => false,
                Some(ki) => matches!(&t.entries[ki].node, NodeData::File(_)),
            };
            if !key_present {
                proof {
                    self.lemma_sign_err_stable(tv, root@, i + 1, tv.len() as int);
                }
                return Err(PackError::MissingPrivateKey);
            }
            let mut spath: Vec<String> = Vec::new();
            spath.push("addons".to_owned());
            spath.push(string_concat(&stem, ".bisign"));
            proof {
                assert(path_view(spath) =~= seq!["addons"@, stem_of(base_name(tv[i as int].path)) + ".bisign"@]);
            }
            entries = upsert_exec(entries, spath, NodeData::File(FileContent::Leaf(LeafContent::Opaque)));
            let bikey = string_concat(&authority, ".bikey");
            let ghost usedv = used@.map_values(|s: String| s@);
            let mut seen = false;
            let mut j: usize = 0;
            while j < used.len()
                invariant
                    j <= used@.len(),
                    usedv == used@.map_values(|s: String| s@),
                    seen ==> usedv.contains(bikey@),
                    !seen ==> forall|k: int| 0 <= k < j ==> usedv[k] != bikey@,
                decreases used@.len() - j,
            {
                if string_eq(&used[j], &bikey) {
                    proof {
                        assert(usedv[j as int] == bikey@);
                    }
                    seen = true;
                }
                j += 1;
            }
            if !seen {
                proof {
                    assert(!usedv.contains(bikey@));
                }
                used.push(bikey);
                proof {
                    assert(used@.map_values(|s: String| s@) =~= usedv.push(authority@ + ".bikey"@));
                }
            } else {
                proof {
                    assert(usedv.contains(authority@ + ".bikey"@));
                }
            }
            let mut addons_path: Vec<String> = Vec::new();
            addons_path.push("addons".to_owned());
            proof {
                assert(path_view(addons_path) =~= seq!["addons"@]);
            }
            let pbo_full = full_path_exec(root, &e.path);
            let key_full = full_path_exec(root, &kpath);
            let addons_full = full_path_exec(root, &addons_path);
            let command = self.pbo_signer.sign(&pbo_full, &key_full, &addons_full);
            commands.push(command);
            proof {
                assert(commands@.map_values(|c: ToolCommand| c@)
                    =~= self.spec_sign_upto(tv, root@, i as int)->Ok_0.commands.push(
                        self.pbo_signer.sign_spec(
                            full_path(root@, tv[i as int].path),
                            full_path(root@, seq!["keys"@, authority@ + ".biprivatekey"@]),
                            full_path(root@, seq!["addons"@]),
                        )));
            }
            i += 1;
        }
        Ok((Tree { entries }, used, commands))
    }

    /// Deletes every unit's source directory after its archive is built.
    #[verifier::loop_isolation(false)]
    pub fn delete_original_pbo_folders(t: &Tree, units: &Vec<Vec<String>>) -> (r: Tree)
        ensures r@ == spec_delete_units(t@, units@.map_values(|p: Vec<String>| path_view(p))),
    {
        let ghost uv = units@.map_values(|p: Vec<String>| path_view(p));
        let mut entries: Vec<FsEntry> = clone_tree_entries(t);
        let mut i: usize = 0;
        while i < units.len()
            invariant
                i <= units@.len(),
                entries@.map_values(|e: FsEntry| e@) == spec_delete_units_upto(t@, uv, i as int),
            decreases units@.len() - i,
        {
            proof {
                assert(uv[i as int] == path_view(units@[i as int]));
            }
            entries = remove_subtree_exec(entries, &units[i]);
            i += 1;
        }
        Tree { entries }
    }
}

/// A file lies strictly beneath `d`.
pub open spec fn has_file_under(t: TreeV, d: PathV) -> bool {
    exists|i: int| 0 <= i < t.len() && (#[trigger] t[i]).node is File && is_strict_prefix_of(d, t[i].path)
}

/// The first `n` entries with the empty directories pruned: a directory
/// stays only when a file lies somewhere beneath it.
pub open spec fn spec_prune_upto(t: TreeV, n: int) -> TreeV
    decreases n,
{
    if n <= 0 {
        Seq::empty()
    } else {
        let rest = spec_prune_upto(t, n - 1);
        let e = t[n - 1];
        if e.node is File || has_file_under(t, e.path) {
            rest.push(e)
        } else {
            rest
        }
    }
}

pub open spec fn spec_prune(t: TreeV) -> TreeV {
    spec_prune_upto(t, t.len() as int)
}

impl ArmaToolsModPacker {
    /// Removes the directories that hold no file anywhere beneath them.
    #[verifier::loop_isolation(false)]
    pub fn prune_empty_directories(t: &Tree) -> (r: Tree)
        ensures r@ == spec_prune(t@),
    {
        let ghost tv = t@;
        let mut kept: Vec<FsEntry> = Vec::new();
        proof {
            assert(kept@.map_values(|e: FsEntry| e@) =~= spec_prune_upto(tv, 0));
        }
        let mut i: usize = 0;
        while i < t.entries.len()
            invariant
                i <= t.entries@.len(),
                kept@.map_values(|e: FsEntry| e@) == spec_prune_upto(tv, i as int),
            decreases t.entries@.len() - i,
        {
            let e = &t.entries[i];
            proof {
                assert(tv[i as int] == t.entries@[i as int]@);
            }
            let keep: bool;
            if matches!(&e.node, NodeData::File(_)) {
                keep = true;
            } else {
                let mut found = false;
                let mut j: usize = 0;
                while j < t.entries.len()
                    invariant
                        j <= t.entries@.len(),
                        found ==> has_file_under(tv, tv[i as int].path),
                        !found ==> forall|k: int| 0 <= k < j ==> !((#[trigger] tv[k]).node is File
                            && is_strict_prefix_of(tv[i as int].path, tv[k].path)),
                    decreases t.entries@.len() - j,
                {
                    if !found {
                        let f = &t.entries[j];
                        proof {
                            assert(tv[j as int] == t.entries@[j as int]@);
                        }
                        if matches!(&f.node, NodeData::File(_)) {
                            if path_is_prefix(&e.path, &f.path) && f.path.len() > e.path.len() {
                                found = true;
                            }
                        }
                    }
                    j += 1;
                }
                keep = found;
                proof {
                    if !found {
                        assert(!has_file_under(tv, tv[i as int].path));
                    }
                }
            }
            if keep {
                kept.push(e.duplicate());
                proof {
                    assert(kept@.map_values(|e2: FsEntry| e2@) =~= spec_prune_upto(tv, i + 1));
                }
            }
            i += 1;
        }
        Tree { entries: kept }
    }

    /// Deletes every `.modignore` manifest left in the destination.
    pub fn delete_mod_ignore_files(t: &Tree) -> (r: (Tree, Vec<Vec<String>>))
        ensures
            r.0@ == spec_remove_files(t@, RemovalRuleV::ModIgnoreFiles).0,
            r.1@.map_values(|p: Vec<String>| path_view(p)) == spec_remove_files(t@, RemovalRuleV::ModIgnoreFiles).1,
    {
        remove_files(t, &RemovalRule::ModIgnoreFiles)
    }

    /// Deletes every `.convertignore` manifest once conversion is done.
    pub fn delete_convert_ignore_files(t: &Tree) -> (r: (Tree, Vec<Vec<String>>))
        ensures
            r.0@ == spec_remove_files(t@, RemovalRuleV::ConvertIgnoreFiles).0,
            r.1@.map_values(|p: Vec<String>| path_view(p)) == spec_remove_files(t@, RemovalRuleV::ConvertIgnoreFiles).1,
    {
        remove_files(t, &RemovalRule::ConvertIgnoreFiles)
    }

    /// Deletes every `key.json` that does not lie directly in the addons
    /// folder: descriptors elsewhere are authoring leftovers.
    pub fn delete_non_addon_key_files(t: &Tree, addons: &Vec<String>) -> (r: (Tree, Vec<Vec<String>>))
        ensures
            r.0@ == spec_remove_files(t@, RemovalRuleV::StrayKeyFiles { addons: path_view(*addons) }).0,
            r.1@.map_values(|p: Vec<String>| path_view(p))
                == spec_remove_files(t@, RemovalRuleV::StrayKeyFiles { addons: path_view(*addons) }).1,
    {
        remove_files(t, &RemovalRule::StrayKeyFiles { addons: clone_strings(addons) })
    }

    /// Deletes every private key under the keys folder, signed or not.
    pub fn delete_private_keys(t: &Tree, keys: &Vec<String>) -> (r: (Tree, Vec<Vec<String>>))
        ensures
            r.0@ == spec_remove_files(t@, RemovalRuleV::PrivateKeys { keys: path_view(*keys) }).0,
            r.1@.map_values(|p: Vec<String>| path_view(p))
                == spec_remove_files(t@, RemovalRuleV::PrivateKeys { keys: path_view(*keys) }).1,
    {
        remove_files(t, &RemovalRule::PrivateKeys { keys: clone_strings(keys) })
    }

    /// Deletes every public key under the keys folder that no signed archive
    /// relies on.
    pub fn delete_unused_bikeys(t: &Tree, keys: &Vec<String>, used: &Vec<String>) -> (r: (Tree, Vec<Vec<String>>))
        ensures
            ({
                let rule = RemovalRuleV::UnusedBikeys {
                    keys: path_view(*keys),
                    used: used@.map_values(|s: String| s@),
                };
                r.0@ == spec_remove_files(t@, rule).0
                    && r.1@.map_values(|p: Vec<String>| path_view(p)) == spec_remove_files(t@, rule).1
            }),
    {
        let mut used2: Vec<String> = Vec::new();
        let mut i: usize = 0;
        while i < used.len()
            invariant
                i <= used@.len(),
                used2@.len() == i,
                forall|j: int| 0 <= j < i ==> used2@[j]@ == used@[j]@,
            decreases used@.len() - i,
        {
            used2.push(used[i].clone());
            i += 1;
        }
        proof {
            assert(used2@.map_values(|s: String| s@) =~= used@.map_values(|s: String| s@));
        }
        remove_files(t, &RemovalRule::UnusedBikeys { keys: clone_strings(keys), used: used2 })
    }

    /// Deletes the key descriptors from the addons folder once signing is
    /// over: the staged `<unit>_key.json` files and any `key.json` beneath.
    pub fn delete_addon_key_json_files(t: &Tree, addons: &Vec<String>) -> (r: (Tree, Vec<Vec<String>>))
        ensures
            r.0@ == spec_remove_files(t@, RemovalRuleV::AddonKeyDescriptors { addons: path_view(*addons) }).0,
            r.1@.map_values(|p: Vec<String>| path_view(p))
                == spec_remove_files(t@, RemovalRuleV::AddonKeyDescriptors { addons: path_view(*addons) }).1,
    {
        remove_files(t, &RemovalRule::AddonKeyDescriptors { addons: clone_strings(addons) })
    }
}


/// The stem is `texheaders` in any letter case.
pub open spec fn is_texheaders_ci(stem: Seq<char>) -> bool {
    &&& stem.len() == 10
    &&& (stem[0] == 't' || stem[0] == 'T')
    &&& (stem[1] == 'e' || stem[1] == 'E')
    &&& (stem[2] == 'x' || stem[2] == 'X')
    &&& (stem[3] == 'h' || stem[3] == 'H')
    &&& (stem[4] == 'e' || stem[4] == 'E')
    &&& (stem[5] == 'a' || stem[5] == 'A')
    &&& (stem[6] == 'd' || stem[6] == 'D')
    &&& (stem[7] == 'e' || stem[7] == 'E')
    &&& (stem[8] == 'r' || stem[8] == 'R')
    &&& (stem[9] == 's' || stem[9] == 'S')
}

/// Decides whether the stem reads `texheaders`, ignoring letter case.
fn is_texheaders_ci_exec(stem: &String) -> (r: bool)
    ensures r == is_texheaders_ci(stem@),
{
    let s = stem.as_str();
    if s.unicode_len() != 10 {
        return false;
    }
    let c0 = s.get_char(0);
    let c1 = s.get_char(1);
    let c2 = s.get_char(2);
    let c3 = s.get_char(3);
    let c4 = s.get_char(4);
    let c5 = s.get_char(5);
    let c6 = s.get_char(6);
    let c7 = s.get_char(7);
    let c8 = s.get_char(8);
    let c9 = s.get_char(9);
    (c0 == 't' || c0 == 'T') && (c1 == 'e' || c1 == 'E') && (c2 == 'x' || c2 == 'X')
        && (c3 == 'h' || c3 == 'H') && (c4 == 'e' || c4 == 'E') && (c5 == 'a' || c5 == 'A')
        && (c6 == 'd' || c6 == 'D') && (c7 == 'e' || c7 == 'E') && (c8 == 'r' || c8 == 'R')
        && (c9 == 's' || c9 == 'S')
}

/// A file the unpack copy stage carries over: everything that is neither an
/// archive nor a signature, a file without an extension included.
pub open spec fn unpack_copy_file_kept(e: EntryV) -> bool {
    &&& e.node is File
    &&& e.path.len() > 0
    &&& match ext_of(base_name(e.path)) {
        Some(x) => x != "pbo"@ && x != "bisign"@,
        None => true,
    }
}

/// An entry the unpack copy stage carries over: a kept file, or a directory
/// above one — except the `addons` and `keys` directories, which the stage
/// creates itself.
pub open spec fn unpack_copy_kept(t: TreeV, e: EntryV) -> bool {
    if e.node is File {
        unpack_copy_file_kept(e)
    } else {
        &&& e.path != seq!["addons"@]
        &&& e.path != seq!["keys"@]
        &&& exists|i: int| 0 <= i < t.len()
            && unpack_copy_file_kept(#[trigger] t[i])
            && is_strict_prefix_of(e.path, t[i].path)
    }
}

pub open spec fn spec_unpack_copy_upto(t: TreeV, n: int) -> (TreeV, Seq<PathV>)
    decreases n,
{
    if n <= 0 {
        (Seq::empty(), Seq::empty())
    } else {
        let (kept, copies) = spec_unpack_copy_upto(t, n - 1);
        let e = t[n - 1];
        if unpack_copy_kept(t, e) {
            if e.node is File {
                (kept.push(e), copies.push(e.path))
            } else {
                (kept.push(e), copies)
            }
        } else {
            (kept, copies)
        }
    }
}

/// The destination the unpack copy stage produces: the `addons` and `keys`
/// directories, then everything copied from the source, in order.
pub open spec fn spec_unpack_copy(t: TreeV) -> (TreeV, Seq<PathV>) {
    let base = seq![
        EntryV { path: seq!["addons"@], node: NodeV::Dir },
        EntryV { path: seq!["keys"@], node: NodeV::Dir },
    ];
    (base + spec_unpack_copy_upto(t, t.len() as int).0, spec_unpack_copy_upto(t, t.len() as int).1)
}

/// The merge of one archive's entries beneath the extraction root.
pub open spec fn spec_merge_arch(acc: TreeV, extroot: PathV, es: Seq<ArchEntryV>, n: int) -> TreeV
    decreases n,
{
    if n <= 0 {
        acc
    } else {
        let before = spec_merge_arch(acc, extroot, es, n - 1);
        let a = es[n - 1];
        upsert_entry(before, extroot + a.path, match a.node {
            ArchNodeV::Dir => NodeV::Dir,
            ArchNodeV::File(l) => NodeV::File(ContentV::Leaf(l)),
        })
    }
}

impl ArmaToolsModPacker {
    /// What expanding one archive entry does: its contents are placed under
    /// a directory named by the archive's stem, beside the archive's place
    /// in the tree, and the configured prefix is pinned into the expanded
    /// manifest. An archive whose contents are not modelled aborts.
    pub open spec fn spec_expand_one(self, acc: TreeV, e: EntryV, src_root: Seq<char>, dest_root: Seq<char>) -> Result<(TreeV, ToolCommandV, Option<(Seq<char>, PBOJsonV)>), UnpackError>
        recommends e.path.len() > 0,
    {
        match e.node {
            NodeV::File(ContentV::Archive(es)) => {
                let extroot = parent_of(e.path).push(stem_of(base_name(e.path)));
                let acc1 = upsert_entry(acc, extroot, NodeV::Dir);
                let acc2 = spec_merge_arch(acc1, extroot, es, es.len() as int);
                let command = self.pbo_packer.unpack_command_spec(
                    full_path(src_root, e.path),
                    full_path(dest_root, parent_of(e.path)),
                );
                let prefix = prefix_view(self.pbo_packer.prefix);
                if prefix is None {
                    Ok((acc2, command, None))
                } else {
                    let mpath = extroot.push("pbo.json"@);
                    match node_at(acc2, mpath) {
                        None => {
                            let mm = spec_set_prefix(prefix, None)->Some_0;
                            Ok((upsert_entry(acc2, mpath, NodeV::File(ContentV::Leaf(LeafV::Manifest(mm)))),
                                command, Some((full_path(dest_root, mpath), mm))))
                        },
                        Some(NodeV::File(ContentV::Leaf(LeafV::Manifest(m)))) => {
                            let mm = spec_set_prefix(prefix, Some(m))->Some_0;
                            Ok((upsert_entry(acc2, mpath, NodeV::File(ContentV::Leaf(LeafV::Manifest(mm)))),
                                command, Some((full_path(dest_root, mpath), mm))))
                        },
                        Some(_) => Err(UnpackError::InvariantViolation),
                    }
                }
            },
            _ => Err(UnpackError::InvariantViolation),
        }
    }

    /// The expansion pass over the first `n` source entries: each `.pbo`
    /// file is expanded; anything else is skipped.
    pub open spec fn spec_expand_upto(self, src: TreeV, acc: TreeV, src_root: Seq<char>, dest_root: Seq<char>, n: int) -> Result<(TreeV, Seq<ToolCommandV>, Seq<(Seq<char>, PBOJsonV)>), UnpackError>
        decreases n,
    {
        if n <= 0 {
            Ok((acc, Seq::empty(), Seq::empty()))
        } else {
            match self.spec_expand_upto(src, acc, src_root, dest_root, n - 1) {
                Err(e) => Err(e),
                Ok((cur, commands, writes)) => {
                    let e = src[n - 1];
                    let is_archive_name = e.node is File && e.path.len() > 0
                        && ext_of(base_name(e.path)) == Some("pbo"@);
                    if !is_archive_name {
                        Ok((cur, commands, writes))
                    } else {
                        match self.spec_expand_one(cur, e, src_root, dest_root) {
                            Err(err) => Err(err),
                            Ok((cur2, command, write)) => Ok((cur2, commands.push(command), match write {
                                Some(w) => writes.push(w),
                                None => writes,
                            })),
                        }
                    }
                },
            }
        }
    }

    pub open spec fn spec_expand(self, src: TreeV, acc: TreeV, src_root: Seq<char>, dest_root: Seq<char>) -> Result<(TreeV, Seq<ToolCommandV>, Seq<(Seq<char>, PBOJsonV)>), UnpackError> {
        self.spec_expand_upto(src, acc, src_root, dest_root, src.len() as int)
    }

    proof fn lemma_expand_err_stable(self, src: TreeV, acc: TreeV, src_root: Seq<char>, dest_root: Seq<char>, n: int, m: int)
        requires n <= m, self.spec_expand_upto(src, acc, src_root, dest_root, n) is Err,
        ensures self.spec_expand_upto(src, acc, src_root, dest_root, m) == self.spec_expand_upto(src, acc, src_root, dest_root, n),
        decreases m - n,
    {
        if n < m {
            self.lemma_expand_err_stable(src, acc, src_root, dest_root, n, m - 1);
        }
    }

    /// What one entry becomes under the unpack conversion pass: compiled
    /// images come back as `png`, compiled configs as `cpp` (the engine's
    /// own `texheaders.bin` stays), materials keep their name; everything
    /// else is untouched.
    pub open spec fn unpack_convert_target(e: EntryV) -> EntryV {
        let name = base_name(e.path);
        let editable = NodeV::File(ContentV::Leaf(LeafV::Opaque));
        if !(e.node is File) || e.path.len() == 0 {
            e
        } else {
            match ext_of(name) {
                Some(x) => if x == "paa"@ {
                    EntryV { path: with_name(e.path, stem_of(name) + ".png"@), node: editable }
                } else if x == "bin"@ && !is_texheaders_ci(stem_of(name)) {
                    EntryV { path: with_name(e.path, stem_of(name) + ".cpp"@), node: editable }
                } else if x == "rvmat"@ {
                    EntryV { path: e.path, node: editable }
                } else {
                    e
                },
                None => e,
            }
        }
    }

    /// Whether the unpack conversion pass converts the entry at all.
    pub open spec fn unpack_converts(e: EntryV) -> bool {
        e.node is File && e.path.len() > 0 && match ext_of(base_name(e.path)) {
            Some(x) => x == "paa"@ || (x == "bin"@ && !is_texheaders_ci(stem_of(base_name(e.path)))) || x == "rvmat"@,
            None => false,
        }
    }

    /// The best-effort step that converts one file during unpack.
    pub open spec fn unpack_convert_step(self, root: Seq<char>, e: EntryV) -> ConvertStepV
        recommends Self::unpack_converts(e),
    {
        let name = base_name(e.path);
        let orig = full_path(root, e.path);
        match ext_of(name) {
            Some(x) => if x == "paa"@ {
                let dest = full_path(root, with_name(e.path, stem_of(name) + ".png"@));
                ConvertStepV {
                    command: self.paa_converter.debinarize_spec(orig, dest),
                    remove_original: orig,
                    destination: dest,
                    validate_paths: true,
                    rename_back: None,
                    abort_on_failure: false,
                }
            } else if x == "bin"@ {
                let dest = full_path(root, with_name(e.path, stem_of(name) + ".cpp"@));
                ConvertStepV {
                    command: self.config_converter.debinarize_spec(orig, dest),
                    remove_original: orig,
                    destination: dest,
                    validate_paths: false,
                    rename_back: None,
                    abort_on_failure: false,
                }
            } else {
                let tmp = full_path(root, with_name(e.path, stem_of(name) + ".dbrvmat"@));
                ConvertStepV {
                    command: self.rvmat_converter.debinarize_spec(orig, tmp),
                    remove_original: orig,
                    destination: tmp,
                    validate_paths: false,
                    rename_back: Some(RenameBackV { from: tmp, to: orig }),
                    abort_on_failure: false,
                }
            },
            None => ConvertStepV {
                command: self.rvmat_converter.debinarize_spec(orig, orig),
                remove_original: orig,
                destination: orig,
                validate_paths: false,
                rename_back: None,
                abort_on_failure: false,
            },
        }
    }

    /// The unpack conversion pass over the first `n` entries.
    pub open spec fn spec_unpack_convert_upto(self, t: TreeV, root: Seq<char>, n: int) -> ConvOutV
        decreases n,
    {
        if n <= 0 {
            ConvOutV { tree: Seq::empty(), steps: Seq::empty() }
        } else {
            let acc = self.spec_unpack_convert_upto(t, root, n - 1);
            let e = t[n - 1];
            let e2 = Self::unpack_convert_target(e);
            ConvOutV {
                tree: upsert_entry(acc.tree, e2.path, e2.node),
                steps: if Self::unpack_converts(e) {
                    acc.steps.push(self.unpack_convert_step(root, e))
                } else {
                    acc.steps
                },
            }
        }
    }

    pub open spec fn spec_unpack_convert(self, t: TreeV, root: Seq<char>) -> ConvOutV {
        self.spec_unpack_convert_upto(t, root, t.len() as int)
    }

    /// Copies everything but archives and signatures from the source into a
    /// fresh destination holding empty `addons` and `keys` folders.
    #[verifier::loop_isolation(false)]
    pub fn copy_files_in_folder(source: &Tree) -> (r: (Tree, Vec<Vec<String>>))
        ensures
            r.0@ == spec_unpack_copy(source@).0,
            r.1@.map_values(|p: Vec<String>| path_view(p)) == spec_unpack_copy(source@).1,
    {
        let ghost tv = source@;
        let mut kept: Vec<FsEntry> = Vec::new();
        let mut addons: Vec<String> = Vec::new();
        addons.push("addons".to_owned());
        let mut keys: Vec<String> = Vec::new();
        keys.push("keys".to_owned());
        proof {
            assert(path_view(addons) =~= seq!["addons"@]);
            assert(path_view(keys) =~= seq!["keys"@]);
        }
        kept.push(FsEntry { path: addons, node: NodeData::Dir });
        kept.push(FsEntry { path: keys, node: NodeData::Dir });
        let ghost base = seq![
            EntryV { path: seq!["addons"@], node: NodeV::Dir },
            EntryV { path: seq!["keys"@], node: NodeV::Dir },
        ];
        let mut copies: Vec<Vec<String>> = Vec::new();
        proof {
            assert(kept@.map_values(|e: FsEntry| e@) =~= base + spec_unpack_copy_upto(tv, 0).0);
            assert(copies@.map_values(|p: Vec<String>| path_view(p)) =~= spec_unpack_copy_upto(tv, 0).1);
        }
        let mut i: usize = 0;
        while i < source.entries.len()
            invariant
                i <= source.entries@.len(),
                kept@.map_values(|e: FsEntry| e@) == base + spec_unpack_copy_upto(tv, i as int).0,
                copies@.map_values(|p: Vec<String>| path_view(p)) == spec_unpack_copy_upto(tv, i as int).1,
            decreases source.entries@.len() - i,
        {
            let e = &source.entries[i];
            proof {
                assert(tv[i as int] == source.entries@[i as int]@);
            }
            let keep: bool;
            if matches!(&e.node, NodeData::Dir) {
                {
                    let is_addons = e.path.len() == 1 && string_is(&e.path[0], "addons");
                    let is_keys = e.path.len() == 1 && string_is(&e.path[0], "keys");
                    proof {
                        reveal_strlit("addons");
                        reveal_strlit("keys");
                        if is_addons { assert(path_view(e.path) =~= seq!["addons"@]); }
                        if is_keys { assert(path_view(e.path) =~= seq!["keys"@]); }
                        if !is_addons {
                            assert(path_view(e.path) != seq!["addons"@]) by {
                                if path_view(e.path) == seq!["addons"@] {
                                    assert(path_view(e.path).len() == 1);
                                    assert(path_view(e.path)[0] == "addons"@);
                                }
                            }
                        }
                        if !is_keys {
                            assert(path_view(e.path) != seq!["keys"@]) by {
                                if path_view(e.path) == seq!["keys"@] {
                                    assert(path_view(e.path).len() == 1);
                                    assert(path_view(e.path)[0] == "keys"@);
                                }
                            }
                        }
                    }
                    if is_addons || is_keys {
                        keep = false;
                    } else {
                        let mut found = false;
                        let mut j: usize = 0;
                        while j < source.entries.len()
                            invariant
                                j <= source.entries@.len(),
                                found ==> unpack_copy_kept(tv, tv[i as int]),
                                !found ==> forall|k: int| 0 <= k < j ==> !(unpack_copy_file_kept(#[trigger] tv[k])
                                    && is_strict_prefix_of(tv[i as int].path, tv[k].path)),
                            decreases source.entries@.len() - j,
                        {
                            if !found {
                                let f = &source.entries[j];
                                proof {
                                    assert(tv[j as int] == source.entries@[j as int]@);
                                }
                                if path_is_prefix(&e.path, &f.path) && f.path.len() > e.path.len() {
                                    if Self::unpack_copy_file_kept_exec(f) {
                                        found = true;
                                    }
                                }
                            }
                            j += 1;
                        }
                        keep = found;
                        proof {
                            if !found {
                                assert(!unpack_copy_kept(tv, tv[i as int]));
                            }
                        }
                    }
                }
            } else {
                keep = Self::unpack_copy_file_kept_exec(e);
            }
            if keep {
                proof {
                    assert(unpack_copy_kept(tv, tv[i as int]));
                }
                if matches!(&e.node, NodeData::File(_)) {
                    copies.push(clone_strings(&e.path));
                    proof {
                        assert(copies@.map_values(|p: Vec<String>| path_view(p))
                            =~= spec_unpack_copy_upto(tv, i + 1).1);
                    }
                }
                let ghost kept_before = kept@.map_values(|e2: FsEntry| e2@);
                kept.push(e.duplicate());
                proof {
                    assert(spec_unpack_copy_upto(tv, i + 1).0
                        == spec_unpack_copy_upto(tv, i as int).0.push(tv[i as int]));
                    assert(kept@.map_values(|e2: FsEntry| e2@) =~= kept_before.push(tv[i as int]));
                    assert(kept_before.push(tv[i as int])
                        =~= base + spec_unpack_copy_upto(tv, i + 1).0);
                    assert(kept@.map_values(|e2: FsEntry| e2@) == base + spec_unpack_copy_upto(tv, i + 1).0);
                }
            } else {
                proof {
                    assert(!unpack_copy_kept(tv, tv[i as int]));
                }
            }
            i += 1;
        }
        (Tree { entries: kept }, copies)
    }

    /// Decides whether the unpack copy stage carries the file over.
    fn unpack_copy_file_kept_exec(e: &FsEntry) -> (r: bool)
        ensures r == unpack_copy_file_kept(e@),
    {
        if matches!(&e.node, NodeData::Dir) {
            return false;
        }
        if e.path.len() == 0 {
            return false;
        }
        let name = &e.path[e.path.len() - 1];
        proof {
            assert(base_name(e@.path) == name@);
        }
        let (_stem, ext) = split_name(name);
        match ext {
            Some(x) => !string_is(&x, "pbo") && !string_is(&x, "bisign"),
            None => true,
        }
    }

    /// Expands every archive of the source tree into the destination: each
    /// archive's contents land under a directory named by its stem, beside
    /// where the archive lay, and the configured prefix is pinned into each
    /// expanded manifest. Returns the new destination, the unpack
    /// invocations, and the manifests to write.
    #[verifier::loop_isolation(false)]
    pub fn unpack_pbos_in_folder(&self, source: &Tree, dest: &Tree, src_root: &String, dest_root: &String) -> (r: Result<(Tree, Vec<ToolCommand>, Vec<(String, PBOJson)>), UnpackError>)
        ensures
            (r matches Ok(p) ==> self.spec_expand(source@, dest@, src_root@, dest_root@)
                == Ok::<(TreeV, Seq<ToolCommandV>, Seq<(Seq<char>, PBOJsonV)>), UnpackError>((
                    p.0@,
                    p.1@.map_values(|c: ToolCommand| c@),
                    p.2@.map_values(|w: (String, PBOJson)| (w.0@, w.1@)),
                ))),
            (r matches Err(e) ==> self.spec_expand(source@, dest@, src_root@, dest_root@)
                == Err::<(TreeV, Seq<ToolCommandV>, Seq<(Seq<char>, PBOJsonV)>), UnpackError>(e)),
    {
        let ghost sv = source@;
        let mut entries: Vec<FsEntry> = clone_tree_entries(dest);
        let mut commands: Vec<ToolCommand> = Vec::new();
        let mut writes: Vec<(String, PBOJson)> = Vec::new();
        proof {
            assert(commands@.map_values(|c: ToolCommand| c@) =~= Seq::<ToolCommandV>::empty());
            assert(writes@.map_values(|w: (String, PBOJson)| (w.0@, w.1@))
                =~= Seq::<(Seq<char>, PBOJsonV)>::empty());
        }
        let mut i: usize = 0;
        while i < source.entries.len()
            invariant
                i <= source.entries@.len(),
                self.spec_expand_upto(sv, dest@, src_root@, dest_root@, i as int)
                    == Ok::<(TreeV, Seq<ToolCommandV>, Seq<(Seq<char>, PBOJsonV)>), UnpackError>((
                        entries@.map_values(|e: FsEntry| e@),
                        commands@.map_values(|c: ToolCommand| c@),
                        writes@.map_values(|w: (String, PBOJson)| (w.0@, w.1@)),
                    )),
            decreases source.entries@.len() - i,
        {
            let e = &source.entries[i];
            proof {
                assert(sv[i as int] == source.entries@[i as int]@);
            }
            let mut is_archive_name = false;
            if e.path.len() > 0 && matches!(&e.node, NodeData::File(_)) {
                let name = &e.path[e.path.len() - 1];
                proof {
                    assert(base_name(sv[i as int].path) == name@);
                }
                let (_stem, ext) = split_name(name);
                is_archive_name = match ext {
                    Some(x) => string_is(&x, "pbo"),
                    None => false,
                };
            }
            if !is_archive_name {
                i += 1;
                continue;
            }
            let es: &Vec<ArchEntry> = match &e.node {
                NodeData::File(FileContent::Archive(es)) => es,
                _ => {
                    proof {
                        self.lemma_expand_err_stable(sv, dest@, src_root@, dest_root@, i + 1, sv.len() as int);
                    }
                    return Err(UnpackError::InvariantViolation);
                },
            };
            let name = &e.path[e.path.len() - 1];
            let (stem, _ext) = split_name(name);
            proof {
                assert(base_name(sv[i as int].path) == name@);
            }
            let mut extroot = take_comps(&e.path, e.path.len() - 1);
            extroot.push(stem);
            let ghost extrootv = parent_of(sv[i as int].path).push(stem_of(base_name(sv[i as int].path)));
            proof {
                assert(path_view(extroot) =~= extrootv);
            }
            entries = upsert_exec(entries, clone_strings(&extroot), NodeData::Dir);
            let ghost esv = es@.map_values(|a: ArchEntry| a@);
            let ghost acc1 = entries@.map_values(|x: FsEntry| x@);
            let mut j: usize = 0;
            while j < es.len()
                invariant
                    j <= es@.len(),
                    esv == es@.map_values(|a: ArchEntry| a@),
                    entries@.map_values(|x: FsEntry| x@) == spec_merge_arch(acc1, extrootv, esv, j as int),
                decreases es@.len() - j,
            {
                let a = &es[j];
                proof {
                    assert(esv[j as int] == es@[j as int]@);
                }
                let mut target = clone_strings(&extroot);
                let mut rel = clone_strings(&a.path);
                target.append(&mut rel);
                proof {
                    assert(path_view(target) =~= extrootv + esv[j as int].path);
                }
                let node = match &a.node {
                    ArchNode::Dir => NodeData::Dir,
                    ArchNode::File(l) => NodeData::File(FileContent::Leaf(l.duplicate())),
                };
                entries = upsert_exec(entries, target, node);
                j += 1;
            }
            let parent = take_comps(&e.path, e.path.len() - 1);
            proof {
                assert(path_view(parent) =~= parent_of(sv[i as int].path));
            }
            let src_full = full_path_exec(src_root, &e.path);
            let parent_full = full_path_exec(dest_root, &parent);
            if self.pbo_packer.prefix.is_some() {
                let mpath = crate::paths::path_push(&extroot, &"pbo.json".to_owned());
                proof {
                    reveal_strlit("pbo.json");
                    assert(path_view(mpath) =~= extrootv.push("pbo.json"@));
                }
                let current: Option<&PBOJson> = match find_entry(&entries, &mpath) {
                    None => None,
                    Some(mi) => match &entries[mi].node {
                        NodeData::File(FileContent::Leaf(LeafContent::Manifest(m))) => Some(m),
                        _ => {
                            proof {
                                self.lemma_expand_err_stable(sv, dest@, src_root@, dest_root@, i + 1, sv.len() as int);
                            }
                            return Err(UnpackError::InvariantViolation);
                        },
                    },
                };
                let (newm, command) = self.pbo_packer.unpack(&src_full, &parent_full, current);
                let mm = match newm {
                    Some(m) => m,
                    None => {
                        // Unreachable: a configured prefix always yields a manifest.
                        proof {
                            assert(spec_set_prefix(prefix_view(self.pbo_packer.prefix), match current {
                                Some(c) => Some(c@),
                                None => None,
                            }) is Some);
                        }
                        return Err(UnpackError::InvariantViolation);
                    },
                };
                let mfull = full_path_exec(dest_root, &mpath);
                entries = upsert_exec(entries, mpath, NodeData::File(FileContent::Leaf(LeafContent::Manifest(mm.duplicate()))));
                writes.push((mfull, mm));
                commands.push(command);
                proof {
                    assert(writes@.map_values(|w: (String, PBOJson)| (w.0@, w.1@))
                        =~= self.spec_expand_upto(sv, dest@, src_root@, dest_root@, i as int)->Ok_0.2.push(
                            (full_path(dest_root@, extrootv.push("pbo.json"@)),
                             spec_set_prefix(prefix_view(self.pbo_packer.prefix), match current {
                                 Some(c) => Some(c@),
                                 None => None,
                             })->Some_0)));
                    assert(commands@.map_values(|c: ToolCommand| c@)
                        =~= self.spec_expand_upto(sv, dest@, src_root@, dest_root@, i as int)->Ok_0.1.push(
                            self.pbo_packer.unpack_command_spec(full_path(src_root@, sv[i as int].path),
                                full_path(dest_root@, parent_of(sv[i as int].path)))));
                }
            } else {
                let command = self.pbo_packer.unpack(&src_full, &parent_full, None).1;
                commands.push(command);
                proof {
                    assert(commands@.map_values(|c: ToolCommand| c@)
                        =~= self.spec_expand_upto(sv, dest@, src_root@, dest_root@, i as int)->Ok_0.1.push(
                            self.pbo_packer.unpack_command_spec(full_path(src_root@, sv[i as int].path),
                                full_path(dest_root@, parent_of(sv[i as int].path)))));
                }
            }
            i += 1;
        }
        Ok((Tree { entries }, commands, writes))
    }

    /// Converts every compiled file of the destination back to its editable
    /// form, best effort: a failing tool leaves its file compiled and the
    /// pass goes on. Returns the converted tree and the steps in order.
    #[verifier::loop_isolation(false)]
    pub fn convert_files(&self, t: &Tree, root: &String) -> (r: (Tree, Vec<ConvertStep>))
        ensures
            self.spec_unpack_convert(t@, root@) == (ConvOutV {
                tree: r.0@,
                steps: r.1@.map_values(|s: ConvertStep| s@),
            }),
    {
        let ghost tv = t@;
        let mut entries: Vec<FsEntry> = Vec::new();
        let mut steps: Vec<ConvertStep> = Vec::new();
        proof {
            assert(entries@.map_values(|e: FsEntry| e@) =~= Seq::<EntryV>::empty());
            assert(steps@.map_values(|s: ConvertStep| s@) =~= Seq::<ConvertStepV>::empty());
        }
        let mut i: usize = 0;
        while i < t.entries.len()
            invariant
                i <= t.entries@.len(),
                self.spec_unpack_convert_upto(tv, root@, i as int) == (ConvOutV {
                    tree: entries@.map_values(|e: FsEntry| e@),
                    steps: steps@.map_values(|s: ConvertStep| s@),
                }),
            decreases t.entries@.len() - i,
        {
            let e = &t.entries[i];
            proof {
                assert(tv[i as int] == t.entries@[i as int]@);
            }
            if e.path.len() == 0 || matches!(&e.node, NodeData::Dir) {
                entries = upsert_exec(entries, clone_strings(&e.path), e.node.duplicate());
                i += 1;
                continue;
            }
            let name = &e.path[e.path.len() - 1];
            proof {
                assert(base_name(tv[i as int].path) == name@);
            }
            let (stem, ext) = split_name(name);
            let editable = NodeData::File(FileContent::Leaf(LeafContent::Opaque));
            let converted: bool;
            match ext {
                None => { converted = false; },
                Some(x) => {
                    if string_is(&x, "paa") {
                        let new_path = with_name_exec(&e.path, string_concat(&stem, ".png"));
                        let orig = full_path_exec(root, &e.path);
                        let dest = full_path_exec(root, &new_path);
                        let command = self.paa_converter.debinarize(&orig, &dest);
                        steps.push(ConvertStep {
                            command,
                            remove_original: orig,
                            destination: dest,
                            validate_paths: true,
                            rename_back: None,
                            abort_on_failure: false,
                        });
                        proof {
                            assert(steps@.last()@ == self.unpack_convert_step(root@, tv[i as int]));
                        }
                        entries = upsert_exec(entries, new_path, editable);
                        converted = true;
                    } else if string_is(&x, "bin") && !is_texheaders_ci_exec(&stem) {
                        let new_path = with_name_exec(&e.path, string_concat(&stem, ".cpp"));
                        let orig = full_path_exec(root, &e.path);
                        let dest = full_path_exec(root, &new_path);
                        let command = self.config_converter.debinarize(&orig, &dest);
                        steps.push(ConvertStep {
                            command,
                            remove_original: orig,
                            destination: dest,
                            validate_paths: false,
                            rename_back: None,
                            abort_on_failure: false,
                        });
                        proof {
                            assert(steps@.last()@ == self.unpack_convert_step(root@, tv[i as int]));
                        }
                        entries = upsert_exec(entries, new_path, editable);
                        converted = true;
                    } else if string_is(&x, "rvmat") {
                        let tmp_path = with_name_exec(&e.path, string_concat(&stem, ".dbrvmat"));
                        let orig = full_path_exec(root, &e.path);
                        let tmp = full_path_exec(root, &tmp_path);
                        let command = self.rvmat_converter.debinarize(&orig, &tmp);
                        steps.push(ConvertStep {
                            command,
                            remove_original: orig.clone(),
                            destination: tmp.clone(),
                            validate_paths: false,
                            rename_back: Some(RenameBack { from: tmp, to: orig }),
                            abort_on_failure: false,
                        });
                        proof {
                            reveal_strlit("paa");
                            reveal_strlit("bin");
                            reveal_strlit("rvmat");
                            assert(x@ == "rvmat"@);
                            assert("rvmat"@.len() == 5);
                            assert("bin"@.len() == 3);
                            assert("paa"@.len() == 3);
                            assert(x@ != "paa"@);
                            assert(x@ != "bin"@);
                            assert(ext_of(base_name(tv[i as int].path)) == Some(x@));
                            assert(steps@.last()@ == self.unpack_convert_step(root@, tv[i as int]));
                        }
                        entries = upsert_exec(entries, clone_strings(&e.path), editable);
                        converted = true;
                    } else {
                        converted = false;
                    }
                },
            }
            if !converted {
                entries = upsert_exec(entries, clone_strings(&e.path), e.node.duplicate());
            } else {
                proof {
                    assert(steps@.map_values(|s: ConvertStep| s@)
                        =~= self.spec_unpack_convert_upto(tv, root@, i as int).steps.push(
                            self.unpack_convert_step(root@, tv[i as int])));
                }
            }
            i += 1;
        }
        (Tree { entries }, steps)
    }
}


/// Everything one pack run performs, in stage order: what to copy from the
/// source, what to delete, what to convert, pack and sign, and the
/// destination tree that is left when every step has succeeded.
pub struct PackPlan {
    pub tree: Tree,
    pub copies: Vec<Vec<String>>,
    pub mod_ignore_removals: Vec<Vec<String>>,
    pub convert_steps: Vec<ConvertStep>,
    pub convert_ignore_removals: Vec<Vec<String>>,
    pub units: Vec<Vec<String>>,
    pub staged_key_copies: Vec<(Vec<String>, Vec<String>)>,
    pub stray_key_removals: Vec<Vec<String>>,
    pub pack_steps: Vec<PackStep>,
    pub sign_commands: Vec<ToolCommand>,
    pub used_public_keys: Vec<String>,
    pub private_key_removals: Vec<Vec<String>>,
    pub unused_bikey_removals: Vec<Vec<String>>,
    pub descriptor_removals: Vec<Vec<String>>,
}

pub ghost struct PackPlanV {
    pub tree: TreeV,
    pub copies: Seq<PathV>,
    pub mod_ignore_removals: Seq<PathV>,
    pub convert_steps: Seq<ConvertStepV>,
    pub convert_ignore_removals: Seq<PathV>,
    pub units: Seq<PathV>,
    pub staged_key_copies: Seq<(PathV, PathV)>,
    pub stray_key_removals: Seq<PathV>,
    pub pack_steps: Seq<PackStepV>,
    pub sign_commands: Seq<ToolCommandV>,
    pub used_public_keys: Seq<Seq<char>>,
    pub private_key_removals: Seq<PathV>,
    pub unused_bikey_removals: Seq<PathV>,
    pub descriptor_removals: Seq<PathV>,
}

impl View for PackPlan {
    type V = PackPlanV;

    open spec fn view(&self) -> PackPlanV {
        PackPlanV {
            tree: self.tree@,
            copies: self.copies@.map_values(|p: Vec<String>| path_view(p)),
            mod_ignore_removals: self.mod_ignore_removals@.map_values(|p: Vec<String>| path_view(p)),
            convert_steps: self.convert_steps@.map_values(|s: ConvertStep| s@),
            convert_ignore_removals: self.convert_ignore_removals@.map_values(|p: Vec<String>| path_view(p)),
            units: self.units@.map_values(|p: Vec<String>| path_view(p)),
            staged_key_copies: self.staged_key_copies@.map_values(|c: (Vec<String>, Vec<String>)| (path_view(c.0), path_view(c.1))),
            stray_key_removals: self.stray_key_removals@.map_values(|p: Vec<String>| path_view(p)),
            pack_steps: self.pack_steps@.map_values(|s: PackStep| s@),
            sign_commands: self.sign_commands@.map_values(|c: ToolCommand| c@),
            used_public_keys: self.used_public_keys@.map_values(|s: String| s@),
            private_key_removals: self.private_key_removals@.map_values(|p: Vec<String>| path_view(p)),
            unused_bikey_removals: self.unused_bikey_removals@.map_values(|p: Vec<String>| path_view(p)),
            descriptor_removals: self.descriptor_removals@.map_values(|p: Vec<String>| path_view(p)),
        }
    }
}

/// Everything one unpack run performs: what to copy, the archives to
/// expand, the manifests to write, and the best-effort conversions, with
/// the destination tree they produce together.
pub struct UnpackPlan {
    pub tree: Tree,
    pub copies: Vec<Vec<String>>,
    pub unpack_commands: Vec<ToolCommand>,
    pub manifest_writes: Vec<(String, PBOJson)>,
    pub convert_steps: Vec<ConvertStep>,
}

pub ghost struct UnpackPlanV {
    pub tree: TreeV,
    pub copies: Seq<PathV>,
    pub unpack_commands: Seq<ToolCommandV>,
    pub manifest_writes: Seq<(Seq<char>, PBOJsonV)>,
    pub convert_steps: Seq<ConvertStepV>,
}

impl View for UnpackPlan {
    type V = UnpackPlanV;

    open spec fn view(&self) -> UnpackPlanV {
        UnpackPlanV {
            tree: self.tree@,
            copies: self.copies@.map_values(|p: Vec<String>| path_view(p)),
            unpack_commands: self.unpack_commands@.map_values(|c: ToolCommand| c@),
            manifest_writes: self.manifest_writes@.map_values(|w: (String, PBOJson)| (w.0@, w.1@)),
            convert_steps: self.convert_steps@.map_values(|s: ConvertStep| s@),
        }
    }
}

impl ArmaToolsModPacker {
    /// What one pack run does with a source tree, stage by stage: copy with
    /// `.modignore` honoured, purge the manifests, convert with
    /// `.convertignore` honoured and purge those too, discover the units,
    /// stage their key descriptors beside the archives, purge stray
    /// descriptors, pack each unit and delete its directory, sign what has a
    /// descriptor, purge private keys, unused public keys and the staged
    /// descriptors, and prune the directories left empty.
    pub open spec fn spec_pack(self, t: TreeV, root: Seq<char>) -> Result<PackPlanV, PackError> {
        let (t1, copies) = spec_copy_raw(t);
        let (t2, mir) = spec_remove_files(t1, RemovalRuleV::ModIgnoreFiles);
        match self.spec_convert_raw(t2, root) {
            Err(e) => Err(e),
            Ok(conv) => {
                let (t4, cir) = spec_remove_files(conv.tree, RemovalRuleV::ConvertIgnoreFiles);
                match spec_identify_units(t4) {
                    Err(e) => Err(e),
                    Ok(units) => {
                        let staged = spec_stage_keys(t4, units);
                        let (t6, skr) = spec_remove_files(staged.tree, RemovalRuleV::StrayKeyFiles { addons: seq!["addons"@] });
                        match self.spec_pack_units(t6, units, root) {
                            Err(e) => Err(e),
                            Ok((t7, psteps)) => {
                                let t8 = spec_delete_units(t7, units);
                                match self.spec_sign(t8, root) {
                                    Err(e) => Err(e),
                                    Ok(so) => {
                                        let (t10, pkr) = spec_remove_files(so.tree, RemovalRuleV::PrivateKeys { keys: seq!["keys"@] });
                                        let (t11, ubr) = spec_remove_files(t10, RemovalRuleV::UnusedBikeys { keys: seq!["keys"@], used: so.used });
                                        let (t12, dkr) = spec_remove_files(t11, RemovalRuleV::AddonKeyDescriptors { addons: seq!["addons"@] });
                                        Ok(PackPlanV {
                                            tree: spec_prune(t12),
                                            copies: copies,
                                            mod_ignore_removals: mir,
                                            convert_steps: conv.steps,
                                            convert_ignore_removals: cir,
                                            units: units,
                                            staged_key_copies: staged.copies,
                                            stray_key_removals: skr,
                                            pack_steps: psteps,
                                            sign_commands: so.commands,
                                            used_public_keys: so.used,
                                            private_key_removals: pkr,
                                            unused_bikey_removals: ubr,
                                            descriptor_removals: dkr,
                                        })
                                    },
                                }
                            },
                        }
                    },
                }
            },
        }
    }

    /// Plans one pack run over the source tree. The run is fatal on the
    /// first failure; the plan exists only when every stage can be planned.
    pub fn pack(&self, source: &Tree, root: &String) -> (r: Result<PackPlan, PackError>)
        ensures
            (r matches Ok(p) ==> self.spec_pack(source@, root@) == Ok::<PackPlanV, PackError>(p@)),
            (r matches Err(e) ==> self.spec_pack(source@, root@) == Err::<PackPlanV, PackError>(e)),
    {
        let (t1, copies) = copy_raw_files_for_packing(source);
        let (t2, mod_ignore_removals) = Self::delete_mod_ignore_files(&t1);
        let (t3, convert_steps) = match self.convert_raw_files(&t2, root) {
            Ok(p) => p,
            Err(e) => { return Err(e); },
        };
        let (t4, convert_ignore_removals) = Self::delete_convert_ignore_files(&t3);
        let units = match Self::identify_pbo_folders(&t4) {
            Ok(us) => us,
            Err(e) => { return Err(e); },
        };
        proof {
            lemma_units_nonempty(t4@, t4@.len() as int);
            assert forall|i: int| 0 <= i < units@.len() implies (#[trigger] units@[i])@.len() > 0 by {
                let uv = units@.map_values(|p: Vec<String>| path_view(p));
                assert(uv[i] == path_view(units@[i]));
            }
        }
        let (t5, staged_key_copies) = Self::copy_key_files_from_pbo_folders(&t4, &units);
        let mut addons: Vec<String> = Vec::new();
        addons.push("addons".to_owned());
        let mut keys: Vec<String> = Vec::new();
        keys.push("keys".to_owned());
        proof {
            assert(path_view(addons) =~= seq!["addons"@]);
            assert(path_view(keys) =~= seq!["keys"@]);
        }
        let (t6, stray_key_removals) = Self::delete_non_addon_key_files(&t5, &addons);
        let (t7, pack_steps) = match self.pack_pbo_folders(&t6, &units, root) {
            Ok(p) => p,
            Err(e) => { return Err(e); },
        };
        let t8 = Self::delete_original_pbo_folders(&t7, &units);
        let (t9, used_public_keys, sign_commands) = match self.sign_packed_pbos(&t8, root) {
            Ok(p) => p,
            Err(e) => { return Err(e); },
        };
        let (t10, private_key_removals) = Self::delete_private_keys(&t9, &keys);
        let (t11, unused_bikey_removals) = Self::delete_unused_bikeys(&t10, &keys, &used_public_keys);
        let (t12, descriptor_removals) = Self::delete_addon_key_json_files(&t11, &addons);
        let tree = Self::prune_empty_directories(&t12);
        Ok(PackPlan {
            tree,
            copies,
            mod_ignore_removals,
            convert_steps,
            convert_ignore_removals,
            units,
            staged_key_copies,
            stray_key_removals,
            pack_steps,
            sign_commands,
            used_public_keys,
            private_key_removals,
            unused_bikey_removals,
            descriptor_removals,
        })
    }

    /// What one unpack run does with a distribution tree: start the
    /// destination with empty `addons` and `keys` folders, copy everything
    /// but archives and signatures, expand every archive where it lay, and
    /// convert the compiled files back, best effort.
    pub open spec fn spec_unpack(self, t: TreeV, src_root: Seq<char>, dest_root: Seq<char>) -> Result<UnpackPlanV, UnpackError> {
        let (t1, copies) = spec_unpack_copy(t);
        match self.spec_expand(t, t1, src_root, dest_root) {
            Err(e) => Err(e),
            Ok((t2, commands, writes)) => {
                let conv = self.spec_unpack_convert(t2, dest_root);
                Ok(UnpackPlanV {
                    tree: conv.tree,
                    copies: copies,
                    unpack_commands: commands,
                    manifest_writes: writes,
                    convert_steps: conv.steps,
                })
            },
        }
    }

    /// Plans one unpack run from a distribution tree whose archives carry
    /// their modelled contents.
    pub fn unpack(&self, source: &Tree, src_root: &String, dest_root: &String) -> (r: Result<UnpackPlan, UnpackError>)
        ensures
            (r matches Ok(p) ==> self.spec_unpack(source@, src_root@, dest_root@) == Ok::<UnpackPlanV, UnpackError>(p@)),
            (r matches Err(e) ==> self.spec_unpack(source@, src_root@, dest_root@) == Err::<UnpackPlanV, UnpackError>(e)),
    {
        let (t1, copies) = Self::copy_files_in_folder(source);
        let (t2, unpack_commands, manifest_writes) = match self.unpack_pbos_in_folder(source, &t1, src_root, dest_root) {
            Ok(p) => p,
            Err(e) => { return Err(e); },
        };
        let (tree, convert_steps) = self.convert_files(&t2, dest_root);
        Ok(UnpackPlan { tree, copies, unpack_commands, manifest_writes, convert_steps })
    }

    /// Builds the orchestrator from the settings naming the external tools.
    /// No archive prefix is configured by default.
    pub fn create(paths: PathJson) -> (r: Self)
        ensures
            r.paa_converter.tool_path@ == paths.paa_converter_path@,
            r.config_converter.tool_path@ == paths.config_converter_path@,
            r.rvmat_converter.tool_path@ == paths.rvmat_converter_path@,
            r.pbo_packer.tool_path@ == paths.pbo_packer_path@,
            r.pbo_packer.prefix is None,
            r.pbo_signer.tool_path@ == paths.pbo_signer_path@,
    {
        let paa_converter = ArmaToolsPAAConverter { tool_path: paths.paa_converter_path };
        let config_converter = ArmaToolsConfigConverter { tool_path: paths.config_converter_path };
        let rvmat_converter = ArmaToolsConfigConverter { tool_path: paths.rvmat_converter_path };
        let pbo_packer = ArmaToolsPBOPacker { tool_path: paths.pbo_packer_path, prefix: None };
        let pbo_signer = ArmaToolsPBOSigner { tool_path: paths.pbo_signer_path };
        ArmaToolsModPacker { pbo_packer, config_converter, paa_converter, rvmat_converter, pbo_signer }
    }
}

/// A packer over whole mod trees.
pub trait ModPacker: Packer {}

impl ModPacker for ArmaToolsModPacker {}

/// A pack request handed through the `Packer` entry point.
pub struct PackRequest {
    pub tree: Tree,
    pub root: String,
}

/// An unpack request handed through the `Packer` entry point.
pub struct UnpackRequest {
    pub tree: Tree,
    pub source_root: String,
    pub destination_root: String,
}

impl Packer for ArmaToolsModPacker {
    type PackSource = PackRequest;
    type PackPlan = PackPlan;
    type PackError = PackError;
    type UnpackSource = UnpackRequest;
    type UnpackPlan = UnpackPlan;
    type UnpackError = UnpackError;

    fn pack(&self, source: PackRequest) -> Result<PackPlan, PackError> {
        self.pack(&source.tree, &source.root)
    }

    fn unpack(&self, source: UnpackRequest) -> Result<UnpackPlan, UnpackError> {
        self.unpack(&source.tree, &source.source_root, &source.destination_root)
    }
}

} // verus!
