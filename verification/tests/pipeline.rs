use modpacker::fs_model::{ArchEntry, ArchNode, FileContent, FsEntry, LeafContent, NodeData, Tree};
use modpacker::mod_packer::{ArmaToolsModPacker, PackError, PackRequest, UnpackError};
use modpacker::packers::Packer;
use modpacker::models::{KeyJson, PBOJson, PathJson};

fn p(parts: &[&str]) -> Vec<String> {
    parts.iter().map(|s| s.to_string()).collect()
}

fn dir(parts: &[&str]) -> FsEntry {
    FsEntry { path: p(parts), node: NodeData::Dir }
}

fn opaque(parts: &[&str]) -> FsEntry {
    FsEntry { path: p(parts), node: NodeData::File(FileContent::Leaf(LeafContent::Opaque)) }
}

fn lines(parts: &[&str], rows: &[&str]) -> FsEntry {
    FsEntry {
        path: p(parts),
        node: NodeData::File(FileContent::Leaf(LeafContent::Lines(
            rows.iter().map(|s| s.to_string()).collect(),
        ))),
    }
}

fn manifest(parts: &[&str]) -> FsEntry {
    FsEntry {
        path: p(parts),
        node: NodeData::File(FileContent::Leaf(LeafContent::Manifest(PBOJson {
            headers: Vec::new(),
            compress: None,
        }))),
    }
}

fn descriptor(parts: &[&str], authority: &str) -> FsEntry {
    FsEntry {
        path: p(parts),
        node: NodeData::File(FileContent::Leaf(LeafContent::Descriptor(KeyJson {
            authority_name: authority.to_string(),
        }))),
    }
}

fn packer() -> ArmaToolsModPacker {
    ArmaToolsModPacker::create(PathJson::default())
}

fn find<'a>(t: &'a Tree, parts: &[&str]) -> Option<&'a FsEntry> {
    let path = p(parts);
    t.entries.iter().find(|e| e.path == path)
}

fn convert_ignore_all_metadata(parts: &[&str]) -> FsEntry {
    lines(parts, &["pbo.json", "key.json", "keys/", "*.bikey", "*.biprivatekey"])
}

#[test]
fn end_to_end_single_signed_addon() {
    let source = Tree {
        entries: vec![
            convert_ignore_all_metadata(&[".convertignore"]),
            dir(&["addons"]),
            dir(&["addons", "first"]),
            opaque(&["addons", "first", "config.cpp"]),
            manifest(&["addons", "first", "pbo.json"]),
            descriptor(&["addons", "first", "key.json"], "dev"),
            dir(&["keys"]),
            opaque(&["keys", "dev.bikey"]),
            opaque(&["keys", "dev.biprivatekey"]),
        ],
    };
    let plan = packer().pack(&source, &"/dest".to_string()).expect("pack plans");

    let archive = find(&plan.tree, &["addons", "first.pbo"]).expect("archive exists");
    match &archive.node {
        NodeData::File(FileContent::Archive(es)) => {
            assert!(es.iter().any(|a| a.path == p(&["pbo.json"])));
            assert!(es.iter().any(|a| a.path == p(&["config.bin"])));
            assert!(!es.iter().any(|a| a.path == p(&["key.json"])));
        }
        _ => panic!("archive entry is not an archive"),
    }
    assert!(find(&plan.tree, &["addons", "first.bisign"]).is_some());
    assert!(find(&plan.tree, &["keys", "dev.bikey"]).is_some());
    assert!(find(&plan.tree, &["keys", "dev.biprivatekey"]).is_none());
    for e in &plan.tree.entries {
        let name = e.path.last().unwrap();
        assert!(name != "key.json" && !name.ends_with("_key.json"));
        assert!(!name.ends_with(".biprivatekey"));
    }
    assert!(find(&plan.tree, &["addons", "first"]).is_none());
    assert_eq!(plan.sign_commands.len(), 1);
    assert_eq!(plan.used_public_keys, vec!["dev.bikey".to_string()]);
    let sign = &plan.sign_commands[0];
    assert_eq!(sign.args, vec!["/dest/keys/dev.biprivatekey".to_string(), "/dest/addons/first.pbo".to_string()]);
    assert_eq!(sign.working_dir, Some("/dest/addons".to_string()));
}

#[test]
fn unused_authority_key_is_removed() {
    let source = Tree {
        entries: vec![
            convert_ignore_all_metadata(&[".convertignore"]),
            dir(&["addons"]),
            dir(&["addons", "first"]),
            manifest(&["addons", "first", "pbo.json"]),
            descriptor(&["addons", "first", "key.json"], "dev"),
            dir(&["keys"]),
            opaque(&["keys", "dev.bikey"]),
            opaque(&["keys", "dev.biprivatekey"]),
            opaque(&["keys", "other.bikey"]),
            opaque(&["keys", "other.biprivatekey"]),
        ],
    };
    let plan = packer().pack(&source, &"/d".to_string()).expect("pack plans");
    assert!(find(&plan.tree, &["keys", "dev.bikey"]).is_some());
    assert!(find(&plan.tree, &["keys", "other.bikey"]).is_none());
    assert!(find(&plan.tree, &["keys", "dev.biprivatekey"]).is_none());
    assert!(find(&plan.tree, &["keys", "other.biprivatekey"]).is_none());
}

#[test]
fn unsigned_unit_ships_without_signature() {
    let source = Tree {
        entries: vec![
            convert_ignore_all_metadata(&[".convertignore"]),
            dir(&["addons"]),
            dir(&["addons", "plain"]),
            manifest(&["addons", "plain", "pbo.json"]),
        ],
    };
    let plan = packer().pack(&source, &"/d".to_string()).expect("pack plans");
    assert!(find(&plan.tree, &["addons", "plain.pbo"]).is_some());
    assert!(find(&plan.tree, &["addons", "plain.bisign"]).is_none());
    assert!(plan.sign_commands.is_empty());
    assert!(plan.used_public_keys.is_empty());
}

#[test]
fn nested_manifest_claims_only_outer_unit() {
    let t = Tree {
        entries: vec![
            dir(&["a"]),
            manifest(&["a", "pbo.json"]),
            dir(&["a", "b"]),
            manifest(&["a", "b", "pbo.json"]),
        ],
    };
    let units = ArmaToolsModPacker::identify_pbo_folders(&t).expect("discovery succeeds");
    assert_eq!(units, vec![p(&["a"])]);
}

#[test]
fn nested_manifest_suppressed_in_either_listing_order() {
    let t = Tree {
        entries: vec![
            dir(&["a"]),
            dir(&["a", "b"]),
            manifest(&["a", "b", "pbo.json"]),
            manifest(&["a", "pbo.json"]),
        ],
    };
    let units = ArmaToolsModPacker::identify_pbo_folders(&t).expect("discovery succeeds");
    assert_eq!(units, vec![p(&["a"])]);
}

#[test]
fn root_manifest_is_rejected() {
    let t = Tree { entries: vec![manifest(&["pbo.json"])] };
    match ArmaToolsModPacker::identify_pbo_folders(&t) {
        Err(PackError::InvariantViolation) => {}
        _ => panic!("a manifest at the root must be rejected"),
    }
}

#[test]
fn duplicate_unit_names_are_rejected() {
    let t = Tree {
        entries: vec![
            dir(&["a"]),
            dir(&["a", "x"]),
            manifest(&["a", "x", "pbo.json"]),
            dir(&["b"]),
            dir(&["b", "x"]),
            manifest(&["b", "x", "pbo.json"]),
        ],
    };
    match ArmaToolsModPacker::identify_pbo_folders(&t) {
        Err(PackError::DuplicateUnitName) => {}
        _ => panic!("two units of one name must be rejected"),
    }
}

#[test]
fn unknown_extension_aborts_pack() {
    let source = Tree { entries: vec![opaque(&["asset.xyz"])] };
    match packer().pack(&source, &"/d".to_string()) {
        Err(PackError::UnknownExtension) => {}
        _ => panic!("an unregistered extension must abort the run"),
    }
}

#[test]
fn missing_extension_aborts_pack() {
    let source = Tree { entries: vec![opaque(&["README"])] };
    match packer().pack(&source, &"/d".to_string()) {
        Err(PackError::UnknownExtension) => {}
        _ => panic!("a file without an extension must abort the run"),
    }
}

#[test]
fn missing_private_key_aborts_pack() {
    let source = Tree {
        entries: vec![
            convert_ignore_all_metadata(&[".convertignore"]),
            dir(&["addons"]),
            dir(&["addons", "first"]),
            manifest(&["addons", "first", "pbo.json"]),
            descriptor(&["addons", "first", "key.json"], "dev"),
            dir(&["keys"]),
            opaque(&["keys", "dev.bikey"]),
        ],
    };
    match packer().pack(&source, &"/d".to_string()) {
        Err(PackError::MissingPrivateKey) => {}
        _ => panic!("a missing private key must abort the run"),
    }
}

#[test]
fn mod_ignore_pattern_excludes_subtree() {
    let source = Tree {
        entries: vec![
            lines(&[".modignore"], &["secret", "*.md"]),
            convert_ignore_all_metadata(&[".convertignore"]),
            opaque(&["keep.cpp"]),
            opaque(&["readme.md"]),
            dir(&["secret"]),
            opaque(&["secret", "notes.cpp"]),
            dir(&["secret", "deep"]),
            opaque(&["secret", "deep", "more.cpp"]),
        ],
    };
    let plan = packer().pack(&source, &"/d".to_string()).expect("pack plans");
    assert!(find(&plan.tree, &["keep.bin"]).is_some());
    assert!(find(&plan.tree, &["readme.md"]).is_none());
    assert!(find(&plan.tree, &["secret"]).is_none());
    assert!(find(&plan.tree, &["secret", "notes.cpp"]).is_none());
    assert!(find(&plan.tree, &["secret", "notes.bin"]).is_none());
    assert!(find(&plan.tree, &["secret", "deep", "more.cpp"]).is_none());
    assert!(find(&plan.tree, &[".modignore"]).is_none());
    assert!(find(&plan.tree, &[".convertignore"]).is_none());
}

#[test]
fn whitelisted_file_survives_ignored_pattern() {
    let source = Tree {
        entries: vec![
            lines(&[".modignore"], &["*.cpp", "!keep.cpp"]),
            convert_ignore_all_metadata(&[".convertignore"]),
            opaque(&["keep.cpp"]),
            opaque(&["drop.cpp"]),
        ],
    };
    let plan = packer().pack(&source, &"/d".to_string()).expect("pack plans");
    assert!(find(&plan.tree, &["keep.bin"]).is_some());
    assert!(find(&plan.tree, &["drop.cpp"]).is_none());
    assert!(find(&plan.tree, &["drop.bin"]).is_none());
}

#[test]
fn rvmat_conversion_keeps_name_without_temporaries() {
    let t = Tree { entries: vec![opaque(&["mat.rvmat"])] };
    let (out, steps) = packer()
        .convert_raw_files(&t, &"/d".to_string())
        .expect("conversion plans");
    assert!(find(&out, &["mat.rvmat"]).is_some());
    assert!(find(&out, &["mat.brvmat"]).is_none());
    assert!(find(&out, &["mat.dbrvmat"]).is_none());
    assert_eq!(steps.len(), 1);
    let step = &steps[0];
    assert_eq!(
        step.command.args,
        vec!["-bin".to_string(), "-dst".to_string(), "/d/mat.brvmat".to_string(), "/d/mat.rvmat".to_string()]
    );
    assert_eq!(step.remove_original, "/d/mat.rvmat".to_string());
    assert_eq!(step.destination, "/d/mat.brvmat".to_string());
    assert!(!step.validate_paths);
    let back = step.rename_back.as_ref().expect("two-phase rename");
    assert_eq!(back.from, "/d/mat.brvmat".to_string());
    assert_eq!(back.to, "/d/mat.rvmat".to_string());
    assert!(step.abort_on_failure);
}

#[test]
fn image_and_config_conversion_renames() {
    let t = Tree { entries: vec![opaque(&["logo.png"]), opaque(&["config.cpp"])] };
    let (out, steps) = packer()
        .convert_raw_files(&t, &"/d".to_string())
        .expect("conversion plans");
    assert!(find(&out, &["logo.paa"]).is_some());
    assert!(find(&out, &["logo.png"]).is_none());
    assert!(find(&out, &["config.bin"]).is_some());
    assert!(find(&out, &["config.cpp"]).is_none());
    assert_eq!(steps.len(), 2);
    assert_eq!(steps[0].command.args, vec!["/d/logo.png".to_string(), "/d/logo.paa".to_string()]);
    // The image codec's step asks the runner to validate the source and
    // pre-create the destination file first.
    assert!(steps[0].validate_paths);
    assert_eq!(steps[0].destination, "/d/logo.paa".to_string());
    assert!(!steps[1].validate_paths);
    assert_eq!(
        steps[1].command.args,
        vec!["-bin".to_string(), "-dst".to_string(), "/d/config.bin".to_string(), "/d/config.cpp".to_string()]
    );
}

#[test]
fn unpack_expands_archives_and_converts_back() {
    let source = Tree {
        entries: vec![
            opaque(&["mod.bin"]),
            dir(&["addons"]),
            FsEntry {
                path: p(&["addons", "first.pbo"]),
                node: NodeData::File(FileContent::Archive(vec![
                    ArchEntry {
                        path: p(&["pbo.json"]),
                        node: ArchNode::File(LeafContent::Manifest(PBOJson { headers: Vec::new(), compress: None })),
                    },
                    ArchEntry {
                        path: p(&["config.bin"]),
                        node: ArchNode::File(LeafContent::Opaque),
                    },
                    ArchEntry {
                        path: p(&["tex", "texheaders.bin"]),
                        node: ArchNode::File(LeafContent::Opaque),
                    },
                ])),
            },
            opaque(&["addons", "first.bisign"]),
            dir(&["keys"]),
            opaque(&["keys", "dev.bikey"]),
        ],
    };
    let plan = packer()
        .unpack(&source, &"/src".to_string(), &"/dst".to_string())
        .expect("unpack plans");
    assert!(find(&plan.tree, &["addons"]).is_some());
    assert!(find(&plan.tree, &["keys"]).is_some());
    assert!(find(&plan.tree, &["addons", "first.pbo"]).is_none());
    assert!(find(&plan.tree, &["addons", "first.bisign"]).is_none());
    assert!(find(&plan.tree, &["addons", "first", "pbo.json"]).is_some());
    assert!(find(&plan.tree, &["addons", "first", "config.cpp"]).is_some());
    assert!(find(&plan.tree, &["addons", "first", "config.bin"]).is_none());
    // The engine's own texture header cache keeps its compiled name.
    assert!(find(&plan.tree, &["addons", "first", "tex", "texheaders.bin"]).is_some());
    assert!(find(&plan.tree, &["mod.cpp"]).is_some());
    assert!(find(&plan.tree, &["keys", "dev.bikey"]).is_some());
    assert_eq!(plan.unpack_commands.len(), 1);
    assert_eq!(plan.unpack_commands[0].args, vec!["unpack".to_string(), "/src/addons/first.pbo".to_string()]);
    assert_eq!(plan.unpack_commands[0].working_dir, Some("/dst/addons".to_string()));
}

#[test]
fn pack_command_runs_in_addons_folder() {
    let source = Tree {
        entries: vec![
            convert_ignore_all_metadata(&[".convertignore"]),
            dir(&["addons"]),
            dir(&["addons", "unit"]),
            manifest(&["addons", "unit", "pbo.json"]),
        ],
    };
    let plan = packer().pack(&source, &"/out".to_string()).expect("pack plans");
    assert_eq!(plan.pack_steps.len(), 1);
    let step = &plan.pack_steps[0];
    assert_eq!(step.command.args, vec!["pack".to_string(), "/out/addons/unit".to_string()]);
    assert_eq!(step.command.working_dir, Some("/out/addons".to_string()));
    assert!(step.manifest_write.is_none());
}

#[test]
fn round_trip_keeps_archive_names_and_manifests() {
    let source = Tree {
        entries: vec![
            convert_ignore_all_metadata(&[".convertignore"]),
            dir(&["addons"]),
            dir(&["addons", "first"]),
            opaque(&["addons", "first", "config.cpp"]),
            manifest(&["addons", "first", "pbo.json"]),
        ],
    };
    let first = packer().pack(&source, &"/one".to_string()).expect("first pack plans");
    let unpacked = packer()
        .unpack(&first.tree, &"/one".to_string(), &"/two".to_string())
        .expect("unpack plans");
    // An editable tree needs its convert-ignore manifest restored before it
    // can be packed again.
    let mut again_entries = unpacked.tree.entries;
    again_entries.insert(0, convert_ignore_all_metadata(&[".convertignore"]));
    let again = Tree { entries: again_entries };
    let second = packer().pack(&again, &"/three".to_string()).expect("second pack plans");

    let names = |t: &Tree| -> Vec<Vec<String>> {
        let mut v: Vec<Vec<String>> = t
            .entries
            .iter()
            .filter(|e| e.path.last().map(|n| n.ends_with(".pbo")).unwrap_or(false))
            .map(|e| e.path.clone())
            .collect();
        v.sort();
        v
    };
    assert_eq!(names(&first.tree), names(&second.tree));

    let manifest_of = |t: &Tree| -> Vec<(String, String)> {
        let archive = t
            .entries
            .iter()
            .find(|e| e.path == p(&["addons", "first.pbo"]))
            .expect("archive present");
        match &archive.node {
            NodeData::File(FileContent::Archive(es)) => {
                let m = es.iter().find(|a| a.path == p(&["pbo.json"])).expect("manifest archived");
                match &m.node {
                    ArchNode::File(LeafContent::Manifest(j)) => j
                        .headers
                        .iter()
                        .map(|h| (h.name.clone(), h.value.clone()))
                        .collect(),
                    _ => panic!("manifest entry has the wrong kind"),
                }
            }
            _ => panic!("archive entry is not an archive"),
        }
    };
    assert_eq!(manifest_of(&first.tree), manifest_of(&second.tree));
}

#[test]
fn unpack_rejects_archive_without_contents() {
    let source = Tree { entries: vec![dir(&["addons"]), opaque(&["addons", "first.pbo"])] };
    match packer().unpack(&source, &"/s".to_string(), &"/d".to_string()) {
        Err(UnpackError::InvariantViolation) => {}
        _ => panic!("an archive without modelled contents must be rejected"),
    }
}

#[test]
fn empty_source_packs_to_empty_destination() {
    let request = PackRequest { tree: Tree { entries: Vec::new() }, root: "/d".to_string() };
    let plan = Packer::pack(&packer(), request).expect("an empty tree packs");
    assert!(plan.tree.entries.is_empty());
    assert!(plan.copies.is_empty());
    assert!(plan.units.is_empty());
    assert!(plan.sign_commands.is_empty());
}

#[test]
fn unpack_copies_files_without_an_extension() {
    let source = Tree {
        entries: vec![
            opaque(&["LICENSE"]),
            dir(&["docs"]),
            opaque(&["docs", "README"]),
            opaque(&["addons", "first.bisign"]),
        ],
    };
    let plan = packer()
        .unpack(&source, &"/s".to_string(), &"/d".to_string())
        .expect("unpack plans");
    assert!(find(&plan.tree, &["LICENSE"]).is_some());
    assert!(find(&plan.tree, &["docs", "README"]).is_some());
    assert!(find(&plan.tree, &["addons", "first.bisign"]).is_none());
    assert!(plan.copies.contains(&p(&["LICENSE"])));
    assert!(plan.copies.contains(&p(&["docs", "README"])));
}
