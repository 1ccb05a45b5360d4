use vstd::prelude::*;
use crate::commands::{ToolCommand, ToolCommandV};
use crate::models::{PBOHeader, PBOHeaderV, PBOJson, PBOJsonV};
use crate::packers::Packer;
use crate::paths::string_is;

verus! {

/// A packer for one build unit.
pub trait PBOPacker: Packer {}

/// The archive tool: it packs one unit directory into an archive, or expands
/// one archive, always running in the destination's parent directory. When a
/// prefix is configured it is pinned into the unit's build manifest first.
pub struct ArmaToolsPBOPacker {
    pub tool_path: String,
    pub prefix: Option<String>,
}

/// Whether some header is named `prefix`.
pub open spec fn spec_has_prefix_header(hs: Seq<PBOHeaderV>) -> bool
    decreases hs.len(),
{
    if hs.len() == 0 {
        false
    } else {
        spec_has_prefix_header(hs.drop_last()) || hs.last().name == "prefix"@
    }
}

/// Every header named `prefix` gets the new value; the others stay.
pub open spec fn spec_replace_prefix_headers(hs: Seq<PBOHeaderV>, value: Seq<char>) -> Seq<PBOHeaderV>
    decreases hs.len(),
{
    if hs.len() == 0 {
        Seq::empty()
    } else {
        let rest = spec_replace_prefix_headers(hs.drop_last(), value);
        let h = hs.last();
        if h.name == "prefix"@ {
            rest.push(PBOHeaderV { name: h.name, value: value })
        } else {
            rest.push(h)
        }
    }
}

proof fn lemma_replace_prefix_pointwise(hs: Seq<PBOHeaderV>, value: Seq<char>)
    ensures
        spec_replace_prefix_headers(hs, value).len() == hs.len(),
        forall|j: int| 0 <= j < hs.len() ==> spec_replace_prefix_headers(hs, value)[j]
            == (if hs[j].name == "prefix"@ { PBOHeaderV { name: hs[j].name, value: value } } else { hs[j] }),
    decreases hs.len(),
{
    if hs.len() > 0 {
        lemma_replace_prefix_pointwise(hs.drop_last(), value);
    }
}

proof fn lemma_has_prefix_exists(hs: Seq<PBOHeaderV>)
    ensures
        spec_has_prefix_header(hs) == exists|j: int| 0 <= j < hs.len() && (#[trigger] hs[j]).name == "prefix"@,
    decreases hs.len(),
{
    if hs.len() > 0 {
        lemma_has_prefix_exists(hs.drop_last());
        if spec_has_prefix_header(hs.drop_last()) {
            let j = choose|j: int| 0 <= j < hs.drop_last().len() && (#[trigger] hs.drop_last()[j]).name == "prefix"@;
            assert(hs[j].name == "prefix"@);
        }
        if hs.last().name == "prefix"@ {
            assert(hs[hs.len() - 1].name == "prefix"@);
        }
        if exists|j: int| 0 <= j < hs.len() && (#[trigger] hs[j]).name == "prefix"@ {
            let j = choose|j: int| 0 <= j < hs.len() && (#[trigger] hs[j]).name == "prefix"@;
            if j < hs.len() - 1 {
                assert(hs.drop_last()[j].name == "prefix"@);
            }
        }
    }
}

/// The manifest with the `prefix` header set to the value: an existing
/// `prefix` header is replaced in place, otherwise one is appended.
pub open spec fn spec_upsert_prefix(m: PBOJsonV, value: Seq<char>) -> PBOJsonV {
    if spec_has_prefix_header(m.headers) {
        PBOJsonV { headers: spec_replace_prefix_headers(m.headers, value), compress: m.compress }
    } else {
        PBOJsonV {
            headers: m.headers.push(PBOHeaderV { name: "prefix"@, value: value }),
            compress: m.compress,
        }
    }
}

/// The manifest empty of headers and compression rules, read where a unit
/// carries none.
pub open spec fn spec_empty_manifest() -> PBOJsonV {
    PBOJsonV { headers: Seq::empty(), compress: None }
}

/// What the prefix step leaves as the unit's manifest: with no configured
/// prefix the manifest is untouched (and stays absent when absent); with one,
/// the manifest is read or started empty, and the `prefix` header upserted.
pub open spec fn spec_set_prefix(prefix: Option<Seq<char>>, m: Option<PBOJsonV>) -> Option<PBOJsonV> {
    match prefix {
        None => m,
        Some(value) => Some(spec_upsert_prefix(
            match m {
                Some(mm) => mm,
                None => spec_empty_manifest(),
            },
            value,
        )),
    }
}

/// The view of the packer's configured prefix.
pub open spec fn prefix_view(p: Option<String>) -> Option<Seq<char>> {
    match p {
        Some(s) => Some(s@),
        None => None,
    }
}

/// The view of an optional manifest.
pub open spec fn manifest_view(m: Option<PBOJson>) -> Option<PBOJsonV> {
    match m {
        Some(j) => Some(j@),
        None => None,
    }
}

impl ArmaToolsPBOPacker {
    /// The pack invocation for one unit, run in the archive's parent.
    pub open spec fn pack_command_spec(&self, source_folder: Seq<char>, destination_parent: Seq<char>) -> ToolCommandV {
        ToolCommandV {
            program: self.tool_path@,
            args: seq!["pack"@, source_folder],
            working_dir: Some(destination_parent),
        }
    }

    /// The unpack invocation for one archive, run in the destination's parent.
    pub open spec fn unpack_command_spec(&self, source_file: Seq<char>, destination_parent: Seq<char>) -> ToolCommandV {
        ToolCommandV {
            program: self.tool_path@,
            args: seq!["unpack"@, source_file],
            working_dir: Some(destination_parent),
        }
    }

    /// Reads the unit's manifest — or starts an empty one — and pins the
    /// configured prefix into its `prefix` header; no configured prefix
    /// leaves the manifest as it was.
    #[verifier::loop_isolation(false)]
    pub fn set_pbo_json_prefix(&self, manifest: Option<&PBOJson>) -> (r: Option<PBOJson>)
        ensures
            manifest_view(r) == spec_set_prefix(
                prefix_view(self.prefix),
                match manifest {
                    Some(m) => Some(m@),
                    None => None,
                },
            ),
    {
        let value = match &self.prefix {
            None => {
                return match manifest {
                    Some(m) => Some(m.duplicate()),
                    None => None,
                };
            },
            Some(v) => v,
        };
        let base: PBOJson = match manifest {
            Some(m) => m.duplicate(),
            None => PBOJson { headers: Vec::new(), compress: None },
        };
        proof {
            if manifest is None {
                assert(base@.headers =~= spec_empty_manifest().headers);
            }
        }
        let ghost hv = base@.headers;
        let mut headers: Vec<PBOHeader> = Vec::new();
        let mut replaced = false;
        let mut i: usize = 0;
        proof {
            assert(hv.take(0) =~= Seq::<PBOHeaderV>::empty());
            assert(headers@.map_values(|h: PBOHeader| h@) =~= spec_replace_prefix_headers(hv.take(0), value@));
        }
        while i < base.headers.len()
            invariant
                i <= base.headers@.len(),
                headers@.map_values(|h: PBOHeader| h@) == spec_replace_prefix_headers(hv.take(i as int), value@),
                replaced == spec_has_prefix_header(hv.take(i as int)),
            decreases base.headers@.len() - i,
        {
            let h = &base.headers[i];
            proof {
                assert(hv.take(i + 1).drop_last() =~= hv.take(i as int));
                assert(hv.take(i + 1).last() == hv[i as int]);
            }
            if string_is(&h.name, "prefix") {
                headers.push(PBOHeader { name: h.name.clone(), value: value.clone() });
                replaced = true;
            } else {
                headers.push(h.duplicate());
            }
            proof {
                assert(headers@.map_values(|h2: PBOHeader| h2@)
                    =~= spec_replace_prefix_headers(hv.take(i + 1), value@));
            }
            i += 1;
        }
        proof {
            assert(hv.take(base.headers@.len() as int) =~= hv);
        }
        if !replaced {
            headers.push(PBOHeader { name: "prefix".to_owned(), value: value.clone() });
            proof {
                lemma_replace_prefix_pointwise(hv, value@);
                lemma_has_prefix_exists(hv);
                assert(spec_replace_prefix_headers(hv, value@) =~= hv);
                assert(headers@.map_values(|h: PBOHeader| h@) =~= hv.push(PBOHeaderV { name: "prefix"@, value: value@ }));
            }
        }
        let out = PBOJson { headers, compress: base.compress };
        Some(out)
    }

    /// Plans packing one unit directory into an archive: the manifest that
    /// must stand in the unit before the tool runs, and the invocation.
    pub fn pack(&self, source_folder: &String, destination_parent: &String, manifest: Option<&PBOJson>) -> (r: (Option<PBOJson>, ToolCommand))
        ensures
            manifest_view(r.0) == spec_set_prefix(
                prefix_view(self.prefix),
                match manifest {
                    Some(m) => Some(m@),
                    None => None,
                },
            ),
            r.1@ == self.pack_command_spec(source_folder@, destination_parent@),
    {
        let m = self.set_pbo_json_prefix(manifest);
        let mut args: Vec<String> = Vec::new();
        args.push("pack".to_owned());
        args.push(source_folder.clone());
        let command = ToolCommand { program: self.tool_path.clone(), args, working_dir: Some(destination_parent.clone()) };
        proof {
            assert(command@.args =~= self.pack_command_spec(source_folder@, destination_parent@).args);
        }
        (m, command)
    }

    /// Plans expanding one archive: the invocation, and the manifest that
    /// must stand in the expanded unit afterwards, pinning the prefix.
    pub fn unpack(&self, source_file: &String, destination_parent: &String, extracted_manifest: Option<&PBOJson>) -> (r: (Option<PBOJson>, ToolCommand))
        ensures
            manifest_view(r.0) == spec_set_prefix(
                prefix_view(self.prefix),
                match extracted_manifest {
                    Some(m) => Some(m@),
                    None => None,
                },
            ),
            r.1@ == self.unpack_command_spec(source_file@, destination_parent@),
    {
        let m = self.set_pbo_json_prefix(extracted_manifest);
        let mut args: Vec<String> = Vec::new();
        args.push("unpack".to_owned());
        args.push(source_file.clone());
        let command = ToolCommand { program: self.tool_path.clone(), args, working_dir: Some(destination_parent.clone()) };
        proof {
            assert(command@.args =~= self.unpack_command_spec(source_file@, destination_parent@).args);
        }
        (m, command)
    }
}

/// A packing request handed through the `Packer` entry point.
pub struct PboPackRequest {
    pub source_folder: String,
    pub destination_parent: String,
    pub manifest: Option<PBOJson>,
}

/// What one packing request plans: the manifest to put in place, and the
/// invocation to run.
pub struct PboPackPlan {
    pub manifest: Option<PBOJson>,
    pub command: ToolCommand,
}

impl PBOPacker for ArmaToolsPBOPacker {}

impl Packer for ArmaToolsPBOPacker {
    type PackSource = PboPackRequest;
    type PackPlan = PboPackPlan;
    type PackError = ();
    type UnpackSource = PboPackRequest;
    type UnpackPlan = PboPackPlan;
    type UnpackError = ();

    fn pack(&self, source: PboPackRequest) -> Result<PboPackPlan, ()> {
        let (manifest, command) = self.pack(
            &source.source_folder,
            &source.destination_parent,
            source.manifest.as_ref(),
        );
        Ok(PboPackPlan { manifest, command })
    }

    fn unpack(&self, source: PboPackRequest) -> Result<PboPackPlan, ()> {
        let (manifest, command) = self.unpack(
            &source.source_folder,
            &source.destination_parent,
            source.manifest.as_ref(),
        );
        Ok(PboPackPlan { manifest, command })
    }
}

} // verus!
