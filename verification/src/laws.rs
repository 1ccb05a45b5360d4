use vstd::prelude::*;
use crate::fs_model::{TreeV, EntryV, NodeV, ContentV, LeafV, node_at, tree_wf};
use crate::mod_packer::{
    ArmaToolsModPacker, RemovalRuleV, rule_matches, spec_remove_files,
    spec_remove_files_upto, spec_identify_units, spec_units_upto, is_unit_dir, is_file_at,
    unit_manifest_entry, spec_copy_raw, spec_copy_raw_upto, copy_kept, copy_file_kept,
    spec_prune, spec_prune_upto,
};
use crate::paths::{PathV, base_name, parent_of, is_prefix_of, is_strict_prefix_of, ext_of};
use crate::tree_walker::{combined_verdict, prefix_verdict, walk_included};

verus! {

/// Every member of the filtered tree is a member of the input that the rule
/// does not match.
pub proof fn lemma_remove_files_members(t: TreeV, rule: RemovalRuleV, n: int, e: EntryV)
    requires
        n <= t.len(),
        spec_remove_files_upto(t, rule, n).0.contains(e),
    ensures
        !rule_matches(rule, e),
        exists|i: int| 0 <= i < t.len() && t[i] == e,
    decreases n,
{
    if n > 0 {
        let (kept, _) = spec_remove_files_upto(t, rule, n - 1);
        if rule_matches(rule, t[n - 1]) {
            lemma_remove_files_members(t, rule, n - 1, e);
        } else {
            let pushed = kept.push(t[n - 1]);
            let j = choose|j: int| 0 <= j < pushed.len() && pushed[j] == e;
            if j < kept.len() {
                assert(pushed[j] == kept[j]);
                assert(kept.contains(e));
                lemma_remove_files_members(t, rule, n - 1, e);
            } else {
                assert(t[n - 1] == e);
                assert(0 <= n - 1 < t.len() && t[n - 1] == e);
            }
        }
    }
}

/// Every member of the pruned tree is a member of the input.
pub proof fn lemma_prune_members(t: TreeV, n: int, e: EntryV)
    requires
        n <= t.len(),
        spec_prune_upto(t, n).contains(e),
    ensures exists|i: int| 0 <= i < t.len() && t[i] == e,
    decreases n,
{
    if n > 0 {
        let rest = spec_prune_upto(t, n - 1);
        if t[n - 1].node is File || crate::mod_packer::has_file_under(t, t[n - 1].path) {
            let pushed = rest.push(t[n - 1]);
            let j = choose|j: int| 0 <= j < pushed.len() && pushed[j] == e;
            if j < rest.len() {
                assert(pushed[j] == rest[j]);
                assert(rest.contains(e));
                lemma_prune_members(t, n - 1, e);
            } else {
                assert(t[n - 1] == e);
                assert(0 <= n - 1 < t.len() && t[n - 1] == e);
            }
        } else {
            lemma_prune_members(t, n - 1, e);
        }
    }
}

/// Every discovered unit directory really is one: it holds a build manifest
/// and no directory above it holds one.
pub proof fn lemma_units_are_unit_dirs(t: TreeV, n: int)
    ensures forall|j: int| 0 <= j < spec_units_upto(t, n).len()
        ==> is_unit_dir(t, #[trigger] spec_units_upto(t, n)[j]),
    decreases n,
{
    if n > 0 {
        lemma_units_are_unit_dirs(t, n - 1);
        let rest = spec_units_upto(t, n - 1);
        let whole = spec_units_upto(t, n);
        assert forall|j: int| 0 <= j < whole.len() implies is_unit_dir(t, #[trigger] whole[j]) by {
            if unit_manifest_entry(t, t[n - 1]) {
                if j < rest.len() {
                    assert(whole[j] == rest[j]);
                } else {
                    assert(whole[j] == parent_of(t[n - 1].path));
                }
            }
        }
    }
}

/// A build manifest nested beneath another unit's directory never yields a
/// unit of its own: discovery returns only the outer directory, whatever
/// order the tree lists its entries in.
pub proof fn lemma_discovery_suppresses_nested(t: TreeV, outer: PathV, inner: PathV)
    requires
        spec_identify_units(t) is Ok,
        outer.len() >= 1,
        is_file_at(t, outer.push("pbo.json"@)),
        is_strict_prefix_of(outer, inner),
    ensures
        !spec_identify_units(t)->Ok_0.contains(inner),
{
    let units = spec_identify_units(t)->Ok_0;
    assert(!is_unit_dir(t, inner)) by {
        assert(inner.take(outer.len() as int) == outer);
        assert(1 <= outer.len() < inner.len());
    }
    lemma_units_are_unit_dirs(t, t.len() as int);
    if units.contains(inner) {
        let j = choose|j: int| 0 <= j < units.len() && units[j] == inner;
        assert(is_unit_dir(t, units[j]));
    }
}

/// A directory that holds a build manifest, with no manifest above it, is
/// always discovered as a unit.
pub proof fn lemma_outer_unit_is_discovered(t: TreeV, i: int)
    requires
        0 <= i < t.len(),
        spec_identify_units(t) is Ok,
        unit_manifest_entry(t, t[i]),
    ensures
        spec_identify_units(t)->Ok_0.contains(parent_of(t[i].path)),
{
    lemma_units_upto_collects(t, i, t.len() as int);
}

proof fn lemma_units_upto_collects(t: TreeV, i: int, n: int)
    requires 0 <= i < n <= t.len(), unit_manifest_entry(t, t[i]),
    ensures spec_units_upto(t, n).contains(parent_of(t[i].path)),
    decreases n,
{
    if i == n - 1 {
        let whole = spec_units_upto(t, n);
        assert(whole.last() == parent_of(t[i].path));
    } else {
        lemma_units_upto_collects(t, i, n - 1);
        let rest = spec_units_upto(t, n - 1);
        let whole = spec_units_upto(t, n);
        let j = choose|j: int| 0 <= j < rest.len() && rest[j] == parent_of(t[i].path);
        if unit_manifest_entry(t, t[n - 1]) {
            assert(whole[j] == rest[j]);
        }
        assert(whole.contains(parent_of(t[i].path)));
    }
}

/// After a completed pack run, no private key file stands anywhere under the
/// keys folder, signed or not.
pub proof fn lemma_no_private_keys_after_pack(packer: ArmaToolsModPacker, t: TreeV, root: Seq<char>, e: EntryV)
    requires
        packer.spec_pack(t, root) is Ok,
        packer.spec_pack(t, root)->Ok_0.tree.contains(e),
    ensures
        !(e.node is File && is_strict_prefix_of(seq!["keys"@], e.path)
            && ext_of(base_name(e.path)) == Some("biprivatekey"@)),
{
    let plan = packer.spec_pack(t, root)->Ok_0;
    let conv = packer.spec_convert_raw(spec_remove_files(spec_copy_raw(t).0, RemovalRuleV::ModIgnoreFiles).0, root)->Ok_0;
    let (t4, _) = spec_remove_files(conv.tree, RemovalRuleV::ConvertIgnoreFiles);
    let units = spec_identify_units(t4)->Ok_0;
    let staged = crate::mod_packer::spec_stage_keys(t4, units);
    let (t6, _) = spec_remove_files(staged.tree, RemovalRuleV::StrayKeyFiles { addons: seq!["addons"@] });
    let (t7, _) = packer.spec_pack_units(t6, units, root)->Ok_0;
    let t8 = crate::mod_packer::spec_delete_units(t7, units);
    let so = packer.spec_sign(t8, root)->Ok_0;
    let (t10, _) = spec_remove_files(so.tree, RemovalRuleV::PrivateKeys { keys: seq!["keys"@] });
    let (t11, _) = spec_remove_files(t10, RemovalRuleV::UnusedBikeys { keys: seq!["keys"@], used: so.used });
    let (t12, _) = spec_remove_files(t11, RemovalRuleV::AddonKeyDescriptors { addons: seq!["addons"@] });
    assert(plan.tree == spec_prune(t12));
    lemma_prune_members(t12, t12.len() as int, e);
    let i12 = choose|i: int| 0 <= i < t12.len() && t12[i] == e;
    assert(t12.contains(e));
    lemma_remove_files_members(t11, RemovalRuleV::AddonKeyDescriptors { addons: seq!["addons"@] }, t11.len() as int, e);
    assert(t11.contains(e));
    lemma_remove_files_members(t10, RemovalRuleV::UnusedBikeys { keys: seq!["keys"@], used: so.used }, t10.len() as int, e);
    assert(t10.contains(e));
    lemma_remove_files_members(so.tree, RemovalRuleV::PrivateKeys { keys: seq!["keys"@] }, so.tree.len() as int, e);
    assert(!rule_matches(RemovalRuleV::PrivateKeys { keys: seq!["keys"@] }, e));
    if e.node is File && is_strict_prefix_of(seq!["keys"@], e.path)
        && ext_of(base_name(e.path)) == Some("biprivatekey"@) {
        assert(e.path.len() > 1);
    }
}


/// Every member of the copied tree passed the ignore walk.
pub proof fn lemma_copy_raw_members(t: TreeV, n: int, e: EntryV)
    requires
        n <= t.len(),
        spec_copy_raw_upto(t, n).0.contains(e),
    ensures
        copy_kept(t, e),
        exists|i: int| 0 <= i < t.len() && t[i] == e,
    decreases n,
{
    if n > 0 {
        let (kept, _) = spec_copy_raw_upto(t, n - 1);
        if copy_kept(t, t[n - 1]) {
            let pushed = kept.push(t[n - 1]);
            let j = choose|j: int| 0 <= j < pushed.len() && pushed[j] == e;
            if j < kept.len() {
                assert(pushed[j] == kept[j]);
                assert(kept.contains(e));
                lemma_copy_raw_members(t, n - 1, e);
            } else {
                assert(t[n - 1] == e);
                assert(0 <= n - 1 < t.len() && t[n - 1] == e);
            }
        } else {
            lemma_copy_raw_members(t, n - 1, e);
        }
    }
}

/// A path that a `.modignore` manifest above it rules out is excluded from
/// the copied tree, and so is everything beneath it: the walk prunes an
/// ignored directory whole.
pub proof fn lemma_modignore_excludes_subtree(t: TreeV, p: PathV, e: EntryV)
    requires
        p.len() >= 1,
        is_prefix_of(p, e.path),
        combined_verdict(t, ".modignore"@, p, p.len() < e.path.len() || e.node is Dir) is Ignored,
    ensures !spec_copy_raw(t).0.contains(e),
{
    if spec_copy_raw(t).0.contains(e) {
        lemma_copy_raw_members(t, t.len() as int, e);
        assert(copy_kept(t, e));
        if e.node is File {
            assert(e.path.take(p.len() as int) == p);
            assert(prefix_verdict(t, ".modignore"@, e.path, false, p.len() as int) is Ignored);
            assert(!walk_included(t, ".modignore"@, e.path, false));
            assert(!copy_file_kept(t, e));
        } else {
            let i = choose|i: int| 0 <= i < t.len()
                && copy_file_kept(t, #[trigger] t[i])
                && is_strict_prefix_of(e.path, t[i].path);
            let f = t[i];
            assert(f.path.take(e.path.len() as int) == e.path);
            assert(f.path.take(e.path.len() as int).take(p.len() as int) =~= f.path.take(p.len() as int));
            assert(f.path.take(p.len() as int) == p);
            assert(p.len() < f.path.len());
            assert(prefix_verdict(t, ".modignore"@, f.path, false, p.len() as int) is Ignored);
            assert(!walk_included(t, ".modignore"@, f.path, false));
        }
    }
}

/// The `.modignore` manifests themselves never reach the destination: the
/// copy skips them, and the purge after it removes any that slipped in.
pub proof fn lemma_modignore_never_copied(t: TreeV, e: EntryV)
    requires
        e.node is File,
        e.path.len() > 0,
        base_name(e.path) == ".modignore"@,
    ensures
        !spec_copy_raw(t).0.contains(e),
        !spec_remove_files(spec_copy_raw(t).0, RemovalRuleV::ModIgnoreFiles).0.contains(e),
{
    if spec_copy_raw(t).0.contains(e) {
        lemma_copy_raw_members(t, t.len() as int, e);
        assert(!copy_file_kept(t, e));
    }
    let copied = spec_copy_raw(t).0;
    if spec_remove_files(copied, RemovalRuleV::ModIgnoreFiles).0.contains(e) {
        lemma_remove_files_members(copied, RemovalRuleV::ModIgnoreFiles, copied.len() as int, e);
        assert(rule_matches(RemovalRuleV::ModIgnoreFiles, e));
    }
}

/// An entry the rule does not match is kept by the cleanup pass.
pub proof fn lemma_remove_files_keeps(t: TreeV, rule: RemovalRuleV, n: int, i: int)
    requires 0 <= i < n <= t.len(), !rule_matches(rule, t[i]),
    ensures spec_remove_files_upto(t, rule, n).0.contains(t[i]),
    decreases n,
{
    if i == n - 1 {
        let (kept, _) = spec_remove_files_upto(t, rule, n);
        assert(kept.last() == t[i]);
    } else {
        lemma_remove_files_keeps(t, rule, n - 1, i);
        let (kept, _) = spec_remove_files_upto(t, rule, n - 1);
        let j = choose|j: int| 0 <= j < kept.len() && kept[j] == t[i];
        if !rule_matches(rule, t[n - 1]) {
            assert(kept.push(t[n - 1])[j] == kept[j]);
        }
        assert(spec_remove_files_upto(t, rule, n).0.contains(t[i]));
    }
}

/// The signing pass records every authority a staged descriptor names: its
/// public key lands in the used set, so the later purge keeps it.
pub proof fn lemma_sign_records_authority(packer: ArmaToolsModPacker, t: TreeV, root: Seq<char>, i: int, a: Seq<char>)
    requires
        0 <= i < t.len(),
        crate::mod_packer::sign_candidate(t[i]),
        node_at(t, seq!["addons"@, crate::paths::stem_of(base_name(t[i].path)) + "_key.json"@])
            == Some(NodeV::File(ContentV::Leaf(LeafV::Descriptor(a)))),
        packer.spec_sign(t, root) is Ok,
    ensures
        packer.spec_sign(t, root)->Ok_0.used.contains(a + ".bikey"@),
{
    lemma_sign_used_from(packer, t, root, i, a, t.len() as int);
}

proof fn lemma_sign_used_from(packer: ArmaToolsModPacker, t: TreeV, root: Seq<char>, i: int, a: Seq<char>, n: int)
    requires
        0 <= i < n <= t.len(),
        crate::mod_packer::sign_candidate(t[i]),
        node_at(t, seq!["addons"@, crate::paths::stem_of(base_name(t[i].path)) + "_key.json"@])
            == Some(NodeV::File(ContentV::Leaf(LeafV::Descriptor(a)))),
        packer.spec_sign_upto(t, root, n) is Ok,
    ensures
        packer.spec_sign_upto(t, root, n)->Ok_0.used.contains(a + ".bikey"@),
    decreases n,
{
    if i == n - 1 {
        let acc = packer.spec_sign_upto(t, root, n - 1)->Ok_0;
        if !acc.used.contains(a + ".bikey"@) {
            let pushed = acc.used.push(a + ".bikey"@);
            assert(pushed.last() == a + ".bikey"@);
        }
    } else {
        let prev = packer.spec_sign_upto(t, root, n - 1);
        if prev is Err {
            assert(packer.spec_sign_upto(t, root, n) is Err);
        } else {
            lemma_sign_used_from(packer, t, root, i, a, n - 1);
            let used0 = prev->Ok_0.used;
            let used1 = packer.spec_sign_upto(t, root, n)->Ok_0.used;
            let j = choose|j: int| 0 <= j < used0.len() && used0[j] == a + ".bikey"@;
            assert(used1 == used0 || exists|b: Seq<char>| used1 == used0.push(b)) by {
                let e = t[n - 1];
                if crate::mod_packer::sign_candidate(e) {
                    let stem = crate::paths::stem_of(base_name(e.path));
                    let dpath = seq!["addons"@, stem + "_key.json"@];
                    match node_at(t, dpath) {
                        Some(NodeV::File(ContentV::Leaf(LeafV::Descriptor(b)))) => {
                            if !used0.contains(b + ".bikey"@) {
                                assert(used1 == used0.push(b + ".bikey"@));
                            }
                        },
                        _ => {},
                    }
                }
            }
            if used1 != used0 {
                let b = choose|b: Seq<char>| used1 == used0.push(b);
                assert(used0.push(b)[j] == used0[j]);
            }
            assert(used1.contains(a + ".bikey"@));
        }
    }
}

/// After the public-key purge, a public key under the keys folder stands in
/// the tree exactly when some signed archive relies on it: the used names
/// stay, every other public key goes.
pub proof fn lemma_public_key_pruning(t: TreeV, used: Seq<Seq<char>>, i: int)
    requires
        0 <= i < t.len(),
        t[i].node is File,
        is_strict_prefix_of(seq!["keys"@], t[i].path),
        ext_of(base_name(t[i].path)) == Some("bikey"@),
    ensures
        spec_remove_files(t, RemovalRuleV::UnusedBikeys { keys: seq!["keys"@], used: used }).0.contains(t[i])
            == used.contains(base_name(t[i].path)),
{
    let rule = RemovalRuleV::UnusedBikeys { keys: seq!["keys"@], used: used };
    if used.contains(base_name(t[i].path)) {
        assert(!rule_matches(rule, t[i]));
        lemma_remove_files_keeps(t, rule, t.len() as int, i);
    } else {
        assert(t[i].path.len() > 1);
        assert(rule_matches(rule, t[i]));
        if spec_remove_files(t, rule).0.contains(t[i]) {
            lemma_remove_files_members(t, rule, t.len() as int, t[i]);
        }
    }
}


proof fn lemma_last_dot_bounds(name: Seq<char>, i: int)
    ensures match crate::paths::last_dot_from(name, i) {
        Some(d) => 1 <= d < i,
        None => true,
    },
    decreases i,
{
    if i > 1 {
        lemma_last_dot_bounds(name, i - 1);
    }
}

proof fn lemma_last_dot_skip_range(s: Seq<char>, i: int, j: int)
    requires 1 <= i <= j <= s.len(), forall|k: int| i <= k < j ==> s[k] != '.',
    ensures crate::paths::last_dot_from(s, j) == crate::paths::last_dot_from(s, i),
    decreases j - i,
{
    if j > i {
        lemma_last_dot_skip_range(s, i, j - 1);
    }
}

/// Gluing a dotted suffix onto a non-empty stem gives a name whose stem and
/// extension are exactly the two parts.
pub proof fn lemma_ext_of_concat(stem: Seq<char>, suffix: Seq<char>)
    requires
        stem.len() >= 1,
        suffix.len() >= 2,
        suffix[0] == '.',
        forall|k: int| 1 <= k < suffix.len() ==> suffix[k] != '.',
    ensures
        ext_of(stem + suffix) == Some(suffix.subrange(1, suffix.len() as int)),
        crate::paths::stem_of(stem + suffix) == stem,
{
    let s = stem + suffix;
    let d = stem.len() as int;
    assert(s[d] == suffix[0]);
    assert forall|k: int| d + 1 <= k < s.len() implies s[k] != '.' by {
        assert(s[k] == suffix[k - d]);
    }
    lemma_last_dot_skip_range(s, d + 1, s.len() as int);
    assert(crate::paths::last_dot_from(s, d + 1) == Some(d));
    assert(ext_of(s) == Some(s.subrange(d + 1, s.len() as int)));
    assert(s.subrange(d + 1, s.len() as int) =~= suffix.subrange(1, suffix.len() as int));
    assert(s.subrange(0, d) =~= stem);
}

proof fn lemma_remove_at_members(t: TreeV, p: PathV, e: EntryV)
    requires crate::mod_packer::remove_at(t, p).contains(e),
    ensures t.contains(e), e.path != p,
    decreases t.len(),
{
    if t.len() > 0 {
        let rest = crate::mod_packer::remove_at(t.drop_last(), p);
        if t.last().path == p {
            lemma_remove_at_members(t.drop_last(), p, e);
            let i = choose|i: int| 0 <= i < t.drop_last().len() && t.drop_last()[i] == e;
            assert(t[i] == e);
        } else {
            let pushed = rest.push(t.last());
            let j = choose|j: int| 0 <= j < pushed.len() && pushed[j] == e;
            if j < rest.len() {
                assert(pushed[j] == rest[j]);
                assert(rest.contains(e));
                lemma_remove_at_members(t.drop_last(), p, e);
                let i = choose|i: int| 0 <= i < t.drop_last().len() && t.drop_last()[i] == e;
                assert(t[i] == e);
            } else {
                assert(t.last() == e);
                assert(t[t.len() - 1] == e);
            }
        }
    }
}

proof fn lemma_remove_at_keeps(t: TreeV, p: PathV, i: int)
    requires 0 <= i < t.len(), t[i].path != p,
    ensures crate::mod_packer::remove_at(t, p).contains(t[i]),
    decreases t.len(),
{
    if i == t.len() - 1 {
        let out = crate::mod_packer::remove_at(t, p);
        assert(out.last() == t[i]);
    } else {
        lemma_remove_at_keeps(t.drop_last(), p, i);
        let rest = crate::mod_packer::remove_at(t.drop_last(), p);
        assert(t.drop_last()[i] == t[i]);
        let j = choose|j: int| 0 <= j < rest.len() && rest[j] == t[i];
        if t.last().path != p {
            assert(rest.push(t.last())[j] == rest[j]);
        }
        assert(crate::mod_packer::remove_at(t, p).contains(t[i]));
    }
}

/// Membership through an upsert: whatever stands in the new tree was there
/// before at another path, or is the upserted entry itself.
pub proof fn lemma_upsert_members(t: TreeV, p: PathV, node: NodeV, e: EntryV)
    requires crate::mod_packer::upsert_entry(t, p, node).contains(e),
    ensures e == (EntryV { path: p, node: node }) || (t.contains(e) && e.path != p),
{
    let removed = crate::mod_packer::remove_at(t, p);
    let pushed = removed.push(EntryV { path: p, node: node });
    let j = choose|j: int| 0 <= j < pushed.len() && pushed[j] == e;
    if j < removed.len() {
        assert(pushed[j] == removed[j]);
        assert(removed.contains(e));
        lemma_remove_at_members(t, p, e);
    } else {
        assert(pushed.last() == e);
    }
}

/// An entry at another path survives an upsert.
pub proof fn lemma_upsert_keeps(t: TreeV, p: PathV, node: NodeV, i: int)
    requires 0 <= i < t.len(), t[i].path != p,
    ensures crate::mod_packer::upsert_entry(t, p, node).contains(t[i]),
{
    lemma_remove_at_keeps(t, p, i);
    let removed = crate::mod_packer::remove_at(t, p);
    let j = choose|j: int| 0 <= j < removed.len() && removed[j] == t[i];
    assert(removed.push(EntryV { path: p, node: node })[j] == removed[j]);
}

/// The path an entry occupies in the converted tree: its conversion target
/// when it is selected, its own path otherwise.
pub open spec fn convert_result_path(t: TreeV, e: EntryV) -> PathV {
    if crate::mod_packer::convert_selected(t, e) {
        match crate::mod_packer::pack_convert_target(e) {
            Some(e2) => e2.path,
            None => e.path,
        }
    } else {
        e.path
    }
}

proof fn lemma_convert_preserves_member(packer: ArmaToolsModPacker, t: TreeV, root: Seq<char>, n: int, m: int, e: EntryV)
    requires
        0 <= n <= m <= t.len(),
        packer.spec_convert_raw_upto(t, root, m) is Ok,
        packer.spec_convert_raw_upto(t, root, n)->Ok_0.tree.contains(e),
        forall|j: int| n <= j < m ==> convert_result_path(t, #[trigger] t[j]) != e.path,
    ensures
        packer.spec_convert_raw_upto(t, root, m)->Ok_0.tree.contains(e),
    decreases m - n,
{
    if n < m {
        ArmaToolsModPacker::lemma_convert_not_err_prefix(packer, t, root, n + 1, m);
        let cur = packer.spec_convert_raw_upto(t, root, n)->Ok_0.tree;
        let next = packer.spec_convert_raw_upto(t, root, n + 1)->Ok_0.tree;
        let i = choose|i: int| 0 <= i < cur.len() && cur[i] == e;
        let ej = t[n];
        if !crate::mod_packer::convert_selected(t, ej) {
            lemma_upsert_keeps(cur, ej.path, ej.node, i);
        } else {
            let e2 = crate::mod_packer::pack_convert_target(ej)->Some_0;
            lemma_upsert_keeps(cur, e2.path, e2.node, i);
        }
        assert(next.contains(e));
        lemma_convert_preserves_member(packer, t, root, n + 1, m, e);
    }
}

/// Converting a material file leaves a file at exactly its old name in the
/// converted tree: the shared-extension two-phase rename ends where it
/// started, with the content compiled.
pub proof fn lemma_rvmat_keeps_its_name(packer: ArmaToolsModPacker, t: TreeV, root: Seq<char>, i: int)
    requires
        tree_wf(t),
        0 <= i < t.len(),
        crate::mod_packer::convert_selected(t, t[i]),
        ext_of(base_name(t[i].path)) == Some("rvmat"@),
        packer.spec_convert_raw(t, root) is Ok,
    ensures
        packer.spec_convert_raw(t, root)->Ok_0.tree.contains(
            EntryV { path: t[i].path, node: NodeV::File(ContentV::Leaf(LeafV::Opaque)) }
        ),
{
    reveal_strlit("rvmat");
    reveal_strlit(".paa");
    reveal_strlit(".bin");
    reveal_strlit("paa");
    reveal_strlit("bin");
    reveal_strlit("pac");
    reveal_strlit("tga");
    reveal_strlit("jpg");
    reveal_strlit("png");
    reveal_strlit("cpp");
    assert("rvmat"@.len() == 5);
    assert("pac"@.len() == 3);
    assert("tga"@.len() == 3);
    assert("jpg"@.len() == 3);
    assert("png"@.len() == 3);
    assert("cpp"@.len() == 3);
    assert("paa"@.len() == 3);
    assert("bin"@.len() == 3);
    ArmaToolsModPacker::lemma_convert_not_err_prefix(packer, t, root, i + 1, t.len() as int);
    let target = EntryV { path: t[i].path, node: NodeV::File(ContentV::Leaf(LeafV::Opaque)) };
    let x = ext_of(base_name(t[i].path))->Some_0;
    assert(x == "rvmat"@);
    assert(x != "pac"@ && x != "tga"@ && x != "jpg"@ && x != "png"@);
    assert(!crate::mod_packer::is_image_ext(x));
    assert(x != "cpp"@);
    assert(crate::mod_packer::pack_convert_target(t[i]) == Some(target));
    let after = packer.spec_convert_raw_upto(t, root, i + 1)->Ok_0.tree;
    assert(after.contains(target)) by {
        let before = packer.spec_convert_raw_upto(t, root, i as int)->Ok_0.tree;
        let pushed = crate::mod_packer::remove_at(before, target.path).push(target);
        assert(pushed.last() == target);
    }
    assert forall|j: int| i + 1 <= j < t.len()
        implies convert_result_path(t, #[trigger] t[j]) != target.path by {
        lemma_other_entries_miss_path(t, i, j);
    }
    lemma_convert_preserves_member(packer, t, root, i + 1, t.len() as int, target);
}

proof fn lemma_other_entries_miss_path(t: TreeV, i: int, j: int)
    requires
        tree_wf(t),
        0 <= i < t.len(),
        0 <= j < t.len(),
        j != i,
        ext_of(base_name(t[i].path)) == Some("rvmat"@),
        t[i].path.len() > 0,
    ensures convert_result_path(t, t[j]) != t[i].path,
{
    reveal_strlit("rvmat");
    reveal_strlit(".paa");
    reveal_strlit(".bin");
    reveal_strlit("paa");
    reveal_strlit("bin");
    reveal_strlit("pac");
    reveal_strlit("tga");
    reveal_strlit("jpg");
    reveal_strlit("png");
    reveal_strlit("cpp");
    assert("rvmat"@.len() == 5);
    assert("pac"@.len() == 3);
    assert("tga"@.len() == 3);
    assert("jpg"@.len() == 3);
    assert("png"@.len() == 3);
    assert("cpp"@.len() == 3);
    assert("paa"@.len() == 3);
    assert("bin"@.len() == 3);
    assert(t[i].path != t[j].path);
    if crate::mod_packer::convert_selected(t, t[j]) {
        match crate::mod_packer::pack_convert_target(t[j]) {
            Some(e2) => {
                let name = base_name(t[j].path);
                let x = ext_of(name)->Some_0;
                let stem = crate::paths::stem_of(name);
                assert(stem.len() >= 1) by {
                    lemma_last_dot_bounds(name, name.len() as int);
                }
                if crate::mod_packer::is_image_ext(x) {
                    lemma_ext_of_concat(stem, ".paa"@);
                    assert(base_name(e2.path) == stem + ".paa"@);
                    assert(ext_of(base_name(e2.path)) == Some("paa"@)) by {
                        assert((".paa"@).subrange(1, 4) =~= "paa"@);
                    }
                    if e2.path == t[i].path {
                        assert(ext_of(base_name(t[i].path)) == Some("paa"@));
                        assert("paa"@ != "rvmat"@);
                    }
                } else if x == "cpp"@ {
                    lemma_ext_of_concat(stem, ".bin"@);
                    assert(base_name(e2.path) == stem + ".bin"@);
                    assert(ext_of(base_name(e2.path)) == Some("bin"@)) by {
                        assert((".bin"@).subrange(1, 4) =~= "bin"@);
                    }
                    if e2.path == t[i].path {
                        assert(ext_of(base_name(t[i].path)) == Some("bin"@));
                        assert("bin"@ != "rvmat"@);
                    }
                } else {
                    assert(e2.path == t[j].path);
                }
            },
            None => {},
        }
    }
}


/// Everything in the converted tree is an untouched input entry or the
/// conversion target of a selected one.
pub proof fn lemma_convert_members(packer: ArmaToolsModPacker, t: TreeV, root: Seq<char>, n: int, e: EntryV)
    requires
        n <= t.len(),
        packer.spec_convert_raw_upto(t, root, n) is Ok,
        packer.spec_convert_raw_upto(t, root, n)->Ok_0.tree.contains(e),
    ensures
        exists|j: int| 0 <= j < t.len() && (e == t[j]
            || (crate::mod_packer::convert_selected(t, #[trigger] t[j])
                && crate::mod_packer::pack_convert_target(t[j]) == Some(e))),
    decreases n,
{
    if n > 0 {
        ArmaToolsModPacker::lemma_convert_not_err_prefix(packer, t, root, n - 1, n);
        let prev = packer.spec_convert_raw_upto(t, root, n - 1)->Ok_0.tree;
        let ej = t[n - 1];
        if !crate::mod_packer::convert_selected(t, ej) {
            lemma_upsert_members(prev, ej.path, ej.node, e);
            if e == (EntryV { path: ej.path, node: ej.node }) {
                assert(e == t[n - 1]);
            } else {
                lemma_convert_members(packer, t, root, n - 1, e);
            }
        } else {
            let e2 = crate::mod_packer::pack_convert_target(ej)->Some_0;
            lemma_upsert_members(prev, e2.path, e2.node, e);
            if e == (EntryV { path: e2.path, node: e2.node }) {
                assert(crate::mod_packer::pack_convert_target(t[n - 1]) == Some(e));
            } else {
                lemma_convert_members(packer, t, root, n - 1, e);
            }
        }
    }
}

/// The pack conversion leaves no temporary behind: when no source file
/// carried a `brvmat` or `dbrvmat` name, no file of the converted tree
/// does either.
pub proof fn lemma_no_temporaries_left(packer: ArmaToolsModPacker, t: TreeV, root: Seq<char>, e: EntryV)
    requires
        packer.spec_convert_raw(t, root) is Ok,
        packer.spec_convert_raw(t, root)->Ok_0.tree.contains(e),
        forall|j: int| 0 <= j < t.len() ==> ext_of(base_name((#[trigger] t[j]).path)) != Some("brvmat"@)
            && ext_of(base_name(t[j].path)) != Some("dbrvmat"@),
    ensures
        ext_of(base_name(e.path)) != Some("brvmat"@),
        ext_of(base_name(e.path)) != Some("dbrvmat"@),
{
    reveal_strlit("brvmat");
    reveal_strlit("dbrvmat");
    reveal_strlit("paa");
    reveal_strlit("bin");
    reveal_strlit(".paa");
    reveal_strlit(".bin");
    reveal_strlit("cpp");
    assert("brvmat"@.len() == 6);
    assert("dbrvmat"@.len() == 7);
    assert("paa"@.len() == 3);
    assert("bin"@.len() == 3);
    assert("cpp"@.len() == 3);
    lemma_convert_members(packer, t, root, t.len() as int, e);
    let j = choose|j: int| 0 <= j < t.len() && (e == t[j]
        || (crate::mod_packer::convert_selected(t, #[trigger] t[j])
            && crate::mod_packer::pack_convert_target(t[j]) == Some(e)));
    if e != t[j] {
        let name = base_name(t[j].path);
        let x = ext_of(name)->Some_0;
        let stem = crate::paths::stem_of(name);
        assert(stem.len() >= 1) by {
            lemma_last_dot_bounds(name, name.len() as int);
        }
        if crate::mod_packer::is_image_ext(x) {
            lemma_ext_of_concat(stem, ".paa"@);
            assert(ext_of(base_name(e.path)) == Some("paa"@)) by {
                assert((".paa"@).subrange(1, 4) =~= "paa"@);
            }
        } else if x == "cpp"@ {
            lemma_ext_of_concat(stem, ".bin"@);
            assert(ext_of(base_name(e.path)) == Some("bin"@)) by {
                assert((".bin"@).subrange(1, 4) =~= "bin"@);
            }
        } else {
            assert(e.path == t[j].path);
        }
    }
}


proof fn lemma_concat_cancel(x: PathV, a: PathV, b: PathV)
    requires x + a == x + b,
    ensures a == b,
{
    assert((x + a).len() == x.len() + a.len());
    assert((x + b).len() == x.len() + b.len());
    assert(a.len() == b.len());
    assert forall|i: int| 0 <= i < a.len() implies a[i] == b[i] by {
        assert((x + a)[x.len() + i] == a[i]);
        assert((x + b)[x.len() + i] == b[i]);
    }
    assert(a =~= b);
}

/// The node the archive merge leaves at one merged path: the entry's own,
/// when no later archive entry shares its path.
proof fn lemma_merge_arch_places(acc: TreeV, extroot: PathV, es: Seq<crate::fs_model::ArchEntryV>, n: int, i: int)
    requires
        0 <= i < n <= es.len(),
        forall|j: int| i < j < n ==> (#[trigger] es[j]).path != es[i].path,
    ensures
        node_at(crate::mod_packer::spec_merge_arch(acc, extroot, es, n), extroot + es[i].path)
            == Some(match es[i].node {
                crate::fs_model::ArchNodeV::Dir => NodeV::Dir,
                crate::fs_model::ArchNodeV::File(l) => NodeV::File(ContentV::Leaf(l)),
            }),
    decreases n,
{
    let before = crate::mod_packer::spec_merge_arch(acc, extroot, es, n - 1);
    let node = match es[n - 1].node {
        crate::fs_model::ArchNodeV::Dir => NodeV::Dir,
        crate::fs_model::ArchNodeV::File(l) => NodeV::File(ContentV::Leaf(l)),
    };
    crate::mod_packer::lemma_upsert_entry(before, extroot + es[n - 1].path, node);
    if i == n - 1 {
    } else {
        lemma_merge_arch_places(acc, extroot, es, n - 1, i);
        if extroot + es[n - 1].path == extroot + es[i].path {
            lemma_concat_cancel(extroot, es[n - 1].path, es[i].path);
        }
    }
}

/// Expanding an archive restores its build manifest: the expanded unit
/// carries `pbo.json` with exactly the manifest the archive held — the
/// metadata a later pack run reads back. Stated for runs without a
/// configured prefix; with one, the same manifest with the prefix pinned
/// stands there instead.
pub proof fn lemma_expand_restores_manifest(
    packer: ArmaToolsModPacker,
    acc: TreeV,
    e: EntryV,
    src_root: Seq<char>,
    dest_root: Seq<char>,
    es: Seq<crate::fs_model::ArchEntryV>,
    i: int,
    m: crate::models::PBOJsonV,
)
    requires
        e.path.len() > 0,
        e.node == NodeV::File(ContentV::Archive(es)),
        0 <= i < es.len(),
        es[i].path == seq!["pbo.json"@],
        es[i].node == crate::fs_model::ArchNodeV::File(LeafV::Manifest(m)),
        forall|j: int| i < j < es.len() ==> (#[trigger] es[j]).path != seq!["pbo.json"@],
        crate::pbo_packer::prefix_view(packer.pbo_packer.prefix) is None,
    ensures
        packer.spec_expand_one(acc, e, src_root, dest_root) is Ok,
        ({
            let extroot = parent_of(e.path).push(crate::paths::stem_of(base_name(e.path)));
            node_at(packer.spec_expand_one(acc, e, src_root, dest_root)->Ok_0.0, extroot.push("pbo.json"@))
                == Some(NodeV::File(ContentV::Leaf(LeafV::Manifest(m))))
        }),
{
    let extroot = parent_of(e.path).push(crate::paths::stem_of(base_name(e.path)));
    let acc1 = crate::mod_packer::upsert_entry(acc, extroot, NodeV::Dir);
    lemma_merge_arch_places(acc1, extroot, es, es.len() as int, i);
    assert(extroot + es[i].path =~= extroot.push("pbo.json"@));
}

/// Packing a unit archives its build manifest: the produced archive's
/// contents carry `pbo.json` with the prefix-pinned manifest, so the
/// metadata survives into the distributable form.
pub proof fn lemma_pack_one_archives_manifest(packer: ArmaToolsModPacker, acc: TreeV, unit: PathV, root: Seq<char>)
    requires
        unit.len() >= 1,
        crate::pbo_packer::prefix_view(packer.pbo_packer.prefix) is Some,
        match node_at(acc, unit.push("pbo.json"@)) {
            None => true,
            Some(NodeV::File(ContentV::Leaf(LeafV::Manifest(_)))) => true,
            Some(_) => false,
        },
    ensures
        packer.spec_pack_one(acc, unit, root) is Ok,
        ({
            let prefix = crate::pbo_packer::prefix_view(packer.pbo_packer.prefix);
            let m = match node_at(acc, unit.push("pbo.json"@)) {
                Some(NodeV::File(ContentV::Leaf(LeafV::Manifest(mm)))) => Some(mm),
                _ => None,
            };
            let pinned = crate::pbo_packer::spec_set_prefix(prefix, m)->Some_0;
            match node_at(packer.spec_pack_one(acc, unit, root)->Ok_0.0,
                seq!["addons"@, base_name(unit) + ".pbo"@]) {
                Some(NodeV::File(ContentV::Archive(contents))) => contents.contains(
                    crate::fs_model::ArchEntryV {
                        path: seq!["pbo.json"@],
                        node: crate::fs_model::ArchNodeV::File(LeafV::Manifest(pinned)),
                    }
                ),
                _ => false,
            }
        }),
{
    let prefix = crate::pbo_packer::prefix_view(packer.pbo_packer.prefix);
    let mpath = unit.push("pbo.json"@);
    let m = match node_at(acc, mpath) {
        Some(NodeV::File(ContentV::Leaf(LeafV::Manifest(mm)))) => Some(mm),
        _ => None,
    };
    let pinned = crate::pbo_packer::spec_set_prefix(prefix, m)->Some_0;
    let acc1 = crate::mod_packer::upsert_entry(acc, mpath, NodeV::File(ContentV::Leaf(LeafV::Manifest(pinned))));
    let contents = crate::mod_packer::spec_arch_of(acc1, unit);
    assert(acc1.last() == EntryV { path: mpath, node: NodeV::File(ContentV::Leaf(LeafV::Manifest(pinned))) });
    assert(is_strict_prefix_of(unit, mpath)) by {
        assert(mpath.take(unit.len() as int) =~= unit);
    }
    lemma_arch_of_collects(acc1, unit, acc1.len() - 1, acc1.len() as int);
    assert(mpath.skip(unit.len() as int) =~= seq!["pbo.json"@]);
    let apath = seq!["addons"@, base_name(unit) + ".pbo"@];
    crate::mod_packer::lemma_upsert_entry(acc1, apath, NodeV::File(ContentV::Archive(contents)));
}

proof fn lemma_arch_of_collects(t: TreeV, unit: PathV, i: int, n: int)
    requires
        0 <= i < n <= t.len(),
        is_strict_prefix_of(unit, t[i].path),
    ensures
        crate::mod_packer::spec_arch_of_upto(t, unit, n).contains(crate::fs_model::ArchEntryV {
            path: t[i].path.skip(unit.len() as int),
            node: crate::mod_packer::arch_node_of(t[i].node),
        }),
    decreases n,
{
    let target = crate::fs_model::ArchEntryV {
        path: t[i].path.skip(unit.len() as int),
        node: crate::mod_packer::arch_node_of(t[i].node),
    };
    if i == n - 1 {
        let whole = crate::mod_packer::spec_arch_of_upto(t, unit, n);
        assert(whole.last() == target);
    } else {
        lemma_arch_of_collects(t, unit, i, n - 1);
        let rest = crate::mod_packer::spec_arch_of_upto(t, unit, n - 1);
        let j = choose|j: int| 0 <= j < rest.len() && rest[j] == target;
        if is_strict_prefix_of(unit, t[n - 1].path) {
            assert(rest.push(crate::fs_model::ArchEntryV {
                path: t[n - 1].path.skip(unit.len() as int),
                node: crate::mod_packer::arch_node_of(t[n - 1].node),
            })[j] == rest[j]);
        }
        assert(crate::mod_packer::spec_arch_of_upto(t, unit, n).contains(target));
    }
}


proof fn lemma_concat_cancel_suffix(a: Seq<char>, b: Seq<char>, suffix: Seq<char>)
    requires a + suffix == b + suffix,
    ensures a == b,
{
    assert((a + suffix).len() == a.len() + suffix.len());
    assert((b + suffix).len() == b.len() + suffix.len());
    assert forall|i: int| 0 <= i < a.len() implies a[i] == b[i] by {
        assert((a + suffix)[i] == a[i]);
        assert((b + suffix)[i] == b[i]);
    }
    assert(a =~= b);
}

/// A file name is its stem, a dot, and its extension, whenever it has one.
proof fn lemma_name_decomposition(name: Seq<char>)
    requires ext_of(name) is Some,
    ensures name == crate::paths::stem_of(name) + seq!['.'] + ext_of(name)->Some_0,
{
    let d = crate::paths::last_dot_from(name, name.len() as int)->Some_0;
    lemma_last_dot_bounds(name, name.len() as int);
    lemma_last_dot_hits(name, name.len() as int);
    assert(name =~= name.subrange(0, d) + seq![name[d]] + name.subrange(d + 1, name.len() as int));
    assert(seq![name[d]] =~= seq!['.']);
}

proof fn lemma_last_dot_hits(name: Seq<char>, i: int)
    ensures match crate::paths::last_dot_from(name, i) {
        Some(d) => d < name.len() ==> name[d] == '.',
        None => true,
    },
    decreases i,
{
    if i > 1 {
        lemma_last_dot_hits(name, i - 1);
    }
}

proof fn lemma_sign_preserves_node(packer: ArmaToolsModPacker, t: TreeV, root: Seq<char>, n: int, m: int, p: PathV, nd: NodeV)
    requires
        0 <= n <= m <= t.len(),
        packer.spec_sign_upto(t, root, m) is Ok,
        node_at(packer.spec_sign_upto(t, root, n)->Ok_0.tree, p) == Some(nd),
        forall|j: int| n <= j < m ==> !crate::mod_packer::sign_candidate(#[trigger] t[j])
            || seq!["addons"@, crate::paths::stem_of(base_name(t[j].path)) + ".bisign"@] != p,
    ensures
        node_at(packer.spec_sign_upto(t, root, m)->Ok_0.tree, p) == Some(nd),
    decreases m - n,
{
    if n < m {
        ArmaToolsModPacker::lemma_sign_not_err_prefix(packer, t, root, n + 1, m);
        let acc = packer.spec_sign_upto(t, root, n)->Ok_0;
        let e = t[n];
        if crate::mod_packer::sign_candidate(e) {
            let stem = crate::paths::stem_of(base_name(e.path));
            let dpath = seq!["addons"@, stem + "_key.json"@];
            match node_at(t, dpath) {
                Some(NodeV::File(ContentV::Leaf(LeafV::Descriptor(_)))) => {
                    let spath = seq!["addons"@, stem + ".bisign"@];
                    crate::mod_packer::lemma_upsert_entry(acc.tree, spath,
                        NodeV::File(ContentV::Leaf(LeafV::Opaque)));
                },
                _ => {},
            }
        }
        lemma_sign_preserves_node(packer, t, root, n + 1, m, p, nd);
    }
}

/// An archive with a staged key descriptor is signed exactly where it lies:
/// after the signing pass, its signature stands beside it in the addons
/// folder, under the archive's stem.
pub proof fn lemma_signing_leaves_signature(packer: ArmaToolsModPacker, t: TreeV, root: Seq<char>, i: int, a: Seq<char>)
    requires
        tree_wf(t),
        0 <= i < t.len(),
        crate::mod_packer::sign_candidate(t[i]),
        node_at(t, seq!["addons"@, crate::paths::stem_of(base_name(t[i].path)) + "_key.json"@])
            == Some(NodeV::File(ContentV::Leaf(LeafV::Descriptor(a)))),
        node_at(t, seq!["keys"@, a + ".biprivatekey"@]) matches Some(NodeV::File(_)),
        packer.spec_sign(t, root) is Ok,
    ensures
        node_at(
            packer.spec_sign(t, root)->Ok_0.tree,
            seq!["addons"@, crate::paths::stem_of(base_name(t[i].path)) + ".bisign"@],
        ) == Some(NodeV::File(ContentV::Leaf(LeafV::Opaque))),
{
    reveal_strlit("pbo");
    let stem = crate::paths::stem_of(base_name(t[i].path));
    let spath = seq!["addons"@, stem + ".bisign"@];
    ArmaToolsModPacker::lemma_sign_not_err_prefix(packer, t, root, i + 1, t.len() as int);
    let before = packer.spec_sign_upto(t, root, i as int)->Ok_0;
    crate::mod_packer::lemma_upsert_entry(before.tree, spath, NodeV::File(ContentV::Leaf(LeafV::Opaque)));
    assert(node_at(packer.spec_sign_upto(t, root, i + 1)->Ok_0.tree, spath)
        == Some(NodeV::File(ContentV::Leaf(LeafV::Opaque))));
    assert forall|j: int| i + 1 <= j < t.len()
        implies !crate::mod_packer::sign_candidate(#[trigger] t[j])
            || seq!["addons"@, crate::paths::stem_of(base_name(t[j].path)) + ".bisign"@] != spath by {
        if crate::mod_packer::sign_candidate(t[j]) {
            let other = seq!["addons"@, crate::paths::stem_of(base_name(t[j].path)) + ".bisign"@];
            if other == spath {
                assert(other[1] == spath[1]);
                lemma_concat_cancel_suffix(
                    crate::paths::stem_of(base_name(t[j].path)),
                    stem,
                    ".bisign"@,
                );
                lemma_name_decomposition(base_name(t[i].path));
                lemma_name_decomposition(base_name(t[j].path));
                assert(base_name(t[j].path) == base_name(t[i].path));
                assert(t[j].path =~= t[i].path);
                assert(false);
            }
        }
    }
    lemma_sign_preserves_node(packer, t, root, i + 1, t.len() as int, spath,
        NodeV::File(ContentV::Leaf(LeafV::Opaque)));
}


/// After a completed pack run, no key descriptor remains anywhere under the
/// addons folder: neither a unit's own `key.json` nor a staged
/// `<unit>_key.json` survives signing.
pub proof fn lemma_no_descriptors_after_pack(packer: ArmaToolsModPacker, t: TreeV, root: Seq<char>, e: EntryV)
    requires
        packer.spec_pack(t, root) is Ok,
        packer.spec_pack(t, root)->Ok_0.tree.contains(e),
    ensures
        !(e.node is File && is_strict_prefix_of(seq!["addons"@], e.path)
            && (base_name(e.path) == "key.json"@
                || crate::mod_packer::ends_with(base_name(e.path), "_key.json"@))),
{
    let conv = packer.spec_convert_raw(spec_remove_files(spec_copy_raw(t).0, RemovalRuleV::ModIgnoreFiles).0, root)->Ok_0;
    let (t4, _) = spec_remove_files(conv.tree, RemovalRuleV::ConvertIgnoreFiles);
    let units = spec_identify_units(t4)->Ok_0;
    let staged = crate::mod_packer::spec_stage_keys(t4, units);
    let (t6, _) = spec_remove_files(staged.tree, RemovalRuleV::StrayKeyFiles { addons: seq!["addons"@] });
    let (t7, _) = packer.spec_pack_units(t6, units, root)->Ok_0;
    let t8 = crate::mod_packer::spec_delete_units(t7, units);
    let so = packer.spec_sign(t8, root)->Ok_0;
    let (t10, _) = spec_remove_files(so.tree, RemovalRuleV::PrivateKeys { keys: seq!["keys"@] });
    let (t11, _) = spec_remove_files(t10, RemovalRuleV::UnusedBikeys { keys: seq!["keys"@], used: so.used });
    let (t12, _) = spec_remove_files(t11, RemovalRuleV::AddonKeyDescriptors { addons: seq!["addons"@] });
    lemma_prune_members(t12, t12.len() as int, e);
    assert(t12.contains(e));
    lemma_remove_files_members(t11, RemovalRuleV::AddonKeyDescriptors { addons: seq!["addons"@] }, t11.len() as int, e);
    assert(!rule_matches(RemovalRuleV::AddonKeyDescriptors { addons: seq!["addons"@] }, e));
    if e.node is File && is_strict_prefix_of(seq!["addons"@], e.path) {
        assert(e.path.len() > 1);
    }
}


/// The tree the signing pass reads during a pack run: the source copied,
/// purged and converted, with units staged, packed and deleted.
pub open spec fn pack_tree_before_signing(packer: ArmaToolsModPacker, t: TreeV, root: Seq<char>) -> TreeV {
    let (t1, _) = spec_copy_raw(t);
    let (t2, _) = spec_remove_files(t1, RemovalRuleV::ModIgnoreFiles);
    let conv = packer.spec_convert_raw(t2, root)->Ok_0;
    let (t4, _) = spec_remove_files(conv.tree, RemovalRuleV::ConvertIgnoreFiles);
    let units = spec_identify_units(t4)->Ok_0;
    let staged = crate::mod_packer::spec_stage_keys(t4, units);
    let (t6, _) = spec_remove_files(staged.tree, RemovalRuleV::StrayKeyFiles { addons: seq!["addons"@] });
    let (t7, _) = packer.spec_pack_units(t6, units, root)->Ok_0;
    crate::mod_packer::spec_delete_units(t7, units)
}

/// The public-key names the signing pass of a pack run records as used.
pub open spec fn pack_used_keys(packer: ArmaToolsModPacker, t: TreeV, root: Seq<char>) -> Seq<Seq<char>> {
    packer.spec_sign(pack_tree_before_signing(packer, t, root), root)->Ok_0.used
}

/// A file always survives the pruning of empty directories.
pub proof fn lemma_prune_keeps_file(t: TreeV, n: int, i: int)
    requires 0 <= i < n <= t.len(), t[i].node is File,
    ensures spec_prune_upto(t, n).contains(t[i]),
    decreases n,
{
    if i == n - 1 {
        assert(spec_prune_upto(t, n).last() == t[i]);
    } else {
        lemma_prune_keeps_file(t, n - 1, i);
        let rest = spec_prune_upto(t, n - 1);
        let j = choose|j: int| 0 <= j < rest.len() && rest[j] == t[i];
        if t[n - 1].node is File || crate::mod_packer::has_file_under(t, t[n - 1].path) {
            assert(rest.push(t[n - 1])[j] == rest[j]);
        }
        assert(spec_prune_upto(t, n).contains(t[i]));
    }
}

/// An entry whose path is no archive's signature path survives the signing
/// pass: the pass only upserts `.bisign` files beside the archives.
proof fn lemma_sign_preserves_member(packer: ArmaToolsModPacker, t: TreeV, root: Seq<char>, n: int, m: int, e: EntryV)
    requires
        0 <= n <= m <= t.len(),
        packer.spec_sign_upto(t, root, m) is Ok,
        packer.spec_sign_upto(t, root, n)->Ok_0.tree.contains(e),
        forall|j: int| n <= j < m ==> !crate::mod_packer::sign_candidate(#[trigger] t[j])
            || seq!["addons"@, crate::paths::stem_of(base_name(t[j].path)) + ".bisign"@] != e.path,
    ensures
        packer.spec_sign_upto(t, root, m)->Ok_0.tree.contains(e),
    decreases m - n,
{
    if n < m {
        ArmaToolsModPacker::lemma_sign_not_err_prefix(packer, t, root, n + 1, m);
        let acc = packer.spec_sign_upto(t, root, n)->Ok_0;
        let i = choose|i: int| 0 <= i < acc.tree.len() && acc.tree[i] == e;
        let ej = t[n];
        if crate::mod_packer::sign_candidate(ej) {
            let stem = crate::paths::stem_of(base_name(ej.path));
            let dpath = seq!["addons"@, stem + "_key.json"@];
            match node_at(t, dpath) {
                Some(NodeV::File(ContentV::Leaf(LeafV::Descriptor(_)))) => {
                    let spath = seq!["addons"@, stem + ".bisign"@];
                    lemma_upsert_keeps(acc.tree, spath, NodeV::File(ContentV::Leaf(LeafV::Opaque)), i);
                },
                _ => {},
            }
        }
        lemma_sign_preserves_member(packer, t, root, n + 1, m, e);
    }
}

/// After a completed pack run, an authority's public key that stood in the
/// keys folder when signing began, and that some signed archive relies on,
/// stands in the destination.
pub proof fn lemma_pack_retains_used_key(packer: ArmaToolsModPacker, t: TreeV, root: Seq<char>, e: EntryV)
    requires
        packer.spec_pack(t, root) is Ok,
        pack_tree_before_signing(packer, t, root).contains(e),
        e.node is File,
        e.path.len() == 2,
        e.path[0] == "keys"@,
        ext_of(base_name(e.path)) == Some("bikey"@),
        pack_used_keys(packer, t, root).contains(base_name(e.path)),
    ensures
        packer.spec_pack(t, root)->Ok_0.tree.contains(e),
{
    reveal_strlit("addons");
    reveal_strlit("keys");
    reveal_strlit("bikey");
    reveal_strlit("biprivatekey");
    reveal_strlit("key.json");
    reveal_strlit("_key.json");
    assert("addons"@.len() == 6);
    assert("keys"@.len() == 4);
    assert("bikey"@.len() == 5);
    assert("biprivatekey"@.len() == 12);
    assert("key.json"@.len() == 8);
    assert("_key.json"@.len() == 9);
    let t8 = pack_tree_before_signing(packer, t, root);
    let so = packer.spec_sign(t8, root)->Ok_0;
    assert forall|j: int| 0 <= j < t8.len() implies !crate::mod_packer::sign_candidate(#[trigger] t8[j])
        || seq!["addons"@, crate::paths::stem_of(base_name(t8[j].path)) + ".bisign"@] != e.path by {
        if crate::mod_packer::sign_candidate(t8[j]) {
            let spath = seq!["addons"@, crate::paths::stem_of(base_name(t8[j].path)) + ".bisign"@];
            if spath == e.path {
                assert(spath[0] == e.path[0]);
            }
        }
    }
    lemma_sign_preserves_member(packer, t8, root, 0, t8.len() as int, e);
    assert(so.tree.contains(e));
    let i9 = choose|i: int| 0 <= i < so.tree.len() && so.tree[i] == e;
    assert(!rule_matches(RemovalRuleV::PrivateKeys { keys: seq!["keys"@] }, e)) by {
        assert("bikey"@ != "biprivatekey"@);
    }
    lemma_remove_files_keeps(so.tree, RemovalRuleV::PrivateKeys { keys: seq!["keys"@] }, so.tree.len() as int, i9);
    let (t10, _) = spec_remove_files(so.tree, RemovalRuleV::PrivateKeys { keys: seq!["keys"@] });
    let i10 = choose|i: int| 0 <= i < t10.len() && t10[i] == e;
    assert(!rule_matches(RemovalRuleV::UnusedBikeys { keys: seq!["keys"@], used: so.used }, e));
    lemma_remove_files_keeps(t10, RemovalRuleV::UnusedBikeys { keys: seq!["keys"@], used: so.used }, t10.len() as int, i10);
    let (t11, _) = spec_remove_files(t10, RemovalRuleV::UnusedBikeys { keys: seq!["keys"@], used: so.used });
    let i11 = choose|i: int| 0 <= i < t11.len() && t11[i] == e;
    assert(!rule_matches(RemovalRuleV::AddonKeyDescriptors { addons: seq!["addons"@] }, e)) by {
        if is_strict_prefix_of(seq!["addons"@], e.path) {
            assert(e.path.take(1)[0] == "addons"@);
        }
    }
    lemma_remove_files_keeps(t11, RemovalRuleV::AddonKeyDescriptors { addons: seq!["addons"@] }, t11.len() as int, i11);
    let (t12, _) = spec_remove_files(t11, RemovalRuleV::AddonKeyDescriptors { addons: seq!["addons"@] });
    let i12 = choose|i: int| 0 <= i < t12.len() && t12[i] == e;
    lemma_prune_keeps_file(t12, t12.len() as int, i12);
}

/// After a completed pack run, a public key that no signed archive relies
/// on is absent from the destination, wherever it stood before.
pub proof fn lemma_pack_drops_unused_key(packer: ArmaToolsModPacker, t: TreeV, root: Seq<char>, e: EntryV)
    requires
        packer.spec_pack(t, root) is Ok,
        packer.spec_pack(t, root)->Ok_0.tree.contains(e),
        e.node is File,
        is_strict_prefix_of(seq!["keys"@], e.path),
        ext_of(base_name(e.path)) == Some("bikey"@),
    ensures
        pack_used_keys(packer, t, root).contains(base_name(e.path)),
{
    let t8 = pack_tree_before_signing(packer, t, root);
    let so = packer.spec_sign(t8, root)->Ok_0;
    let (t10, _) = spec_remove_files(so.tree, RemovalRuleV::PrivateKeys { keys: seq!["keys"@] });
    let (t11, _) = spec_remove_files(t10, RemovalRuleV::UnusedBikeys { keys: seq!["keys"@], used: so.used });
    let (t12, _) = spec_remove_files(t11, RemovalRuleV::AddonKeyDescriptors { addons: seq!["addons"@] });
    lemma_prune_members(t12, t12.len() as int, e);
    assert(t12.contains(e));
    lemma_remove_files_members(t11, RemovalRuleV::AddonKeyDescriptors { addons: seq!["addons"@] }, t11.len() as int, e);
    assert(t11.contains(e));
    lemma_remove_files_members(t10, RemovalRuleV::UnusedBikeys { keys: seq!["keys"@], used: so.used }, t10.len() as int, e);
    assert(!rule_matches(RemovalRuleV::UnusedBikeys { keys: seq!["keys"@], used: so.used }, e));
    assert(e.path.len() > 1);
}

} // verus!
