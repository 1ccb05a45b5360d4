use modpacker::converters::{ArmaToolsConfigConverter, ArmaToolsPAAConverter, FileConverter};
use modpacker::models::{PBOHeader, PBOJson, PathJson};
use modpacker::pbo_packer::ArmaToolsPBOPacker;
use modpacker::signing::{ArmaToolsPBOSigner, PBOSigner};
use modpacker::ignore_rules::{manifest_verdict_for, MatchVerdict};
use modpacker::utils::{
    check_existing_path, check_path, check_path_type, check_source_and_destination, CreateAction,
    PathError, PathStatus,
};

fn hdr(name: &str, value: &str) -> PBOHeader {
    PBOHeader { name: name.to_string(), value: value.to_string() }
}

#[test]
fn config_converter_argument_order() {
    let c = ArmaToolsConfigConverter { tool_path: "CfgConvert.exe".to_string() };
    let bin = c.binarize(&"a/config.cpp".to_string(), &"a/config.bin".to_string());
    assert_eq!(bin.program, "CfgConvert.exe");
    assert_eq!(bin.args, vec!["-bin", "-dst", "a/config.bin", "a/config.cpp"]);
    assert!(bin.working_dir.is_none());
    let txt = c.debinarize(&"a/config.bin".to_string(), &"a/config.cpp".to_string());
    assert_eq!(txt.args, vec!["-txt", "-dst", "a/config.cpp", "a/config.bin"]);
}

#[test]
fn image_codec_argument_order() {
    let c = ArmaToolsPAAConverter { tool_path: "ImageToPAA.exe".to_string() };
    let cmd = c.binarize(&"t.png".to_string(), &"t.paa".to_string());
    assert_eq!(cmd.program, "ImageToPAA.exe");
    assert_eq!(cmd.args, vec!["t.png", "t.paa"]);
    let back = c.debinarize(&"t.paa".to_string(), &"t.png".to_string());
    assert_eq!(back.args, vec!["t.paa", "t.png"]);
}

#[test]
fn signer_runs_inside_output_folder() {
    let s = ArmaToolsPBOSigner { tool_path: "dsSignFile.exe".to_string() };
    let cmd = s.sign(&"a/first.pbo".to_string(), &"k/dev.biprivatekey".to_string(), &"a".to_string());
    assert_eq!(cmd.program, "dsSignFile.exe");
    assert_eq!(cmd.args, vec!["k/dev.biprivatekey", "a/first.pbo"]);
    assert_eq!(cmd.working_dir, Some("a".to_string()));
}

#[test]
fn prefix_upsert_replaces_existing_header() {
    let packer = ArmaToolsPBOPacker { tool_path: "pboc.exe".to_string(), prefix: Some("z\\mod".to_string()) };
    let m = PBOJson { headers: vec![hdr("prefix", "old"), hdr("author", "me")], compress: None };
    let out = packer.set_pbo_json_prefix(Some(&m)).expect("a prefix yields a manifest");
    assert_eq!(out.headers.len(), 2);
    assert_eq!(out.headers[0].name, "prefix");
    assert_eq!(out.headers[0].value, "z\\mod");
    assert_eq!(out.headers[1].name, "author");
    assert_eq!(out.headers[1].value, "me");
}

#[test]
fn prefix_upsert_appends_when_absent() {
    let packer = ArmaToolsPBOPacker { tool_path: "pboc.exe".to_string(), prefix: Some("pfx".to_string()) };
    let m = PBOJson { headers: vec![hdr("author", "me")], compress: None };
    let out = packer.set_pbo_json_prefix(Some(&m)).expect("a prefix yields a manifest");
    assert_eq!(out.headers.len(), 2);
    assert_eq!(out.headers[1].name, "prefix");
    assert_eq!(out.headers[1].value, "pfx");
}

#[test]
fn prefix_upsert_creates_manifest_when_missing() {
    let packer = ArmaToolsPBOPacker { tool_path: "pboc.exe".to_string(), prefix: Some("pfx".to_string()) };
    let out = packer.set_pbo_json_prefix(None).expect("a prefix yields a manifest");
    assert_eq!(out.headers.len(), 1);
    assert_eq!(out.headers[0].name, "prefix");
    assert_eq!(out.headers[0].value, "pfx");
    assert!(out.compress.is_none());
}

#[test]
fn no_prefix_leaves_manifest_untouched() {
    let packer = ArmaToolsPBOPacker { tool_path: "pboc.exe".to_string(), prefix: None };
    let m = PBOJson { headers: vec![hdr("author", "me")], compress: None };
    let out = packer.set_pbo_json_prefix(Some(&m)).expect("the manifest stays");
    assert_eq!(out.headers.len(), 1);
    assert_eq!(out.headers[0].name, "author");
    assert!(packer.set_pbo_json_prefix(None).is_none());
}

#[test]
fn pack_and_unpack_commands() {
    let packer = ArmaToolsPBOPacker { tool_path: "pboc.exe".to_string(), prefix: None };
    let (m, cmd) = packer.pack(&"/d/addons/unit".to_string(), &"/d/addons".to_string(), None);
    assert!(m.is_none());
    assert_eq!(cmd.program, "pboc.exe");
    assert_eq!(cmd.args, vec!["pack", "/d/addons/unit"]);
    assert_eq!(cmd.working_dir, Some("/d/addons".to_string()));
    let (m2, cmd2) = packer.unpack(&"/s/addons/unit.pbo".to_string(), &"/d/addons".to_string(), None);
    assert!(m2.is_none());
    assert_eq!(cmd2.args, vec!["unpack", "/s/addons/unit.pbo"]);
}

#[test]
fn default_settings_name_the_bundled_tools() {
    let d = PathJson::default();
    assert_eq!(d.paa_converter_path, "./external_tools/paa/ImageToPAA.exe");
    assert_eq!(d.rvmat_converter_path, "./external_tools/config/CfgConvert.exe");
    assert_eq!(d.config_converter_path, "./external_tools/config/CfgConvert.exe");
    assert_eq!(d.pbo_packer_path, "./external_tools/pbo/pboc.exe");
    assert_eq!(d.pbo_signer_path, "./external_tools/signing/dsSignFile.exe");
}

#[test]
fn path_checks_report_each_failure() {
    let missing = PathStatus { exists: false, is_dir: false, is_file: false };
    let file = PathStatus { exists: true, is_dir: false, is_file: true };
    let folder = PathStatus { exists: true, is_dir: true, is_file: false };

    assert!(matches!(check_existing_path(&missing, true, false), Err(PathError::NotFound)));
    assert!(matches!(check_existing_path(&file, true, false), Err(PathError::NotADirectory)));
    assert!(matches!(check_existing_path(&folder, false, true), Err(PathError::NotAFile)));
    assert!(matches!(check_existing_path(&folder, true, false), Ok(())));
    assert!(matches!(check_path_type(&file, false, true), Ok(())));

    assert!(matches!(check_path(&missing, true, false, false, true), Ok(CreateAction::Directory)));
    assert!(matches!(check_path(&missing, false, true, false, true), Ok(CreateAction::FileWithParents)));
    assert!(matches!(check_path(&missing, false, false, false, false), Ok(CreateAction::Nothing)));
    assert!(matches!(check_path(&missing, true, false, true, true), Err(PathError::NotFound)));

    assert!(matches!(
        check_source_and_destination(&folder, &missing, true, true),
        Ok(CreateAction::Directory)
    ));
    assert!(matches!(
        check_source_and_destination(&missing, &missing, true, true),
        Err(PathError::NotFound)
    ));
    assert!(matches!(
        check_source_and_destination(&file, &missing, true, true),
        Err(PathError::NotADirectory)
    ));
}

#[test]
fn split_lines_behaviour_through_manifests() {
    // A manifest's verdict comes from the real glob engine: a comment line
    // adds no rule, the rest match.
    let lines: Vec<String> = vec!["# note".to_string(), "*.md".to_string()];
    let v = manifest_verdict_for(&lines, &"readme.md".to_string(), false);
    assert!(matches!(v, MatchVerdict::Ignored));
    let v2 = manifest_verdict_for(&lines, &"readme.txt".to_string(), false);
    assert!(matches!(v2, MatchVerdict::NotMatched));
    let wl: Vec<String> = vec!["*.md".to_string(), "!keep.md".to_string()];
    let v3 = manifest_verdict_for(&wl, &"keep.md".to_string(), false);
    assert!(matches!(v3, MatchVerdict::Whitelisted));
}
