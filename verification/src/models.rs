use vstd::prelude::*;

verus! {

/// A name/value pair carried in a build manifest's header list.
pub struct PBOHeader {
    pub name: String,
    pub value: String,
}

/// The view of a header: its two strings as character sequences.
pub ghost struct PBOHeaderV {
    pub name: Seq<char>,
    pub value: Seq<char>,
}

impl View for PBOHeader {
    type V = PBOHeaderV;

    open spec fn view(&self) -> PBOHeaderV {
        PBOHeaderV { name: self.name@, value: self.value@ }
    }
}

/// The compression rules a build manifest may carry.
pub struct PBOCompress {
    pub inclusions: Vec<String>,
    pub exclusions: Vec<String>,
}

/// The view of the compression rules.
pub ghost struct PBOCompressV {
    pub inclusions: Seq<Seq<char>>,
    pub exclusions: Seq<Seq<char>>,
}

impl View for PBOCompress {
    type V = PBOCompressV;

    open spec fn view(&self) -> PBOCompressV {
        PBOCompressV {
            inclusions: self.inclusions@.map_values(|s: String| s@),
            exclusions: self.exclusions@.map_values(|s: String| s@),
        }
    }
}

/// A build manifest: the per-unit descriptor holding header pairs and
/// optional compression rules.
pub struct PBOJson {
    pub headers: Vec<PBOHeader>,
    pub compress: Option<PBOCompress>,
}

/// The view of a build manifest.
pub ghost struct PBOJsonV {
    pub headers: Seq<PBOHeaderV>,
    pub compress: Option<PBOCompressV>,
}

impl View for PBOJson {
    type V = PBOJsonV;

    open spec fn view(&self) -> PBOJsonV {
        PBOJsonV {
            headers: self.headers@.map_values(|h: PBOHeader| h@),
            compress: match self.compress {
                Some(c) => Some(c@),
                None => None,
            },
        }
    }
}

impl PBOHeader {
    /// Copies the header, keeping its view.
    pub fn duplicate(&self) -> (r: PBOHeader)
        ensures r@ == self@,
    {
        PBOHeader { name: self.name.clone(), value: self.value.clone() }
    }
}

impl PBOCompress {
    /// Copies the compression rules, keeping their view.
    pub fn duplicate(&self) -> (r: PBOCompress)
        ensures r@ == self@,
    {
        PBOCompress {
            inclusions: crate::paths::clone_strings(&self.inclusions),
            exclusions: crate::paths::clone_strings(&self.exclusions),
        }
    }
}

impl PBOJson {
    /// Copies the manifest, keeping its view.
    pub fn duplicate(&self) -> (r: PBOJson)
        ensures r@ == self@,
    {
        let mut headers: Vec<PBOHeader> = Vec::new();
        let mut i: usize = 0;
        while i < self.headers.len()
            invariant
                i <= self.headers@.len(),
                headers@.len() == i,
                forall|j: int| 0 <= j < i ==> headers@[j]@ == self.headers@[j]@,
            decreases self.headers@.len() - i,
        {
            headers.push(self.headers[i].duplicate());
            i += 1;
        }
        let compress = match &self.compress {
            Some(c) => Some(c.duplicate()),
            None => None,
        };
        let r = PBOJson { headers, compress };
        proof {
            assert(r@.headers =~= self@.headers);
        }
        r
    }
}

impl KeyJson {
    /// Copies the descriptor, keeping its view.
    pub fn duplicate(&self) -> (r: KeyJson)
        ensures r@ == self@,
    {
        KeyJson { authority_name: self.authority_name.clone() }
    }
}

/// A key descriptor: the record naming the signing authority of one unit.
pub struct KeyJson {
    pub authority_name: String,
}

impl View for KeyJson {
    type V = Seq<char>;

    open spec fn view(&self) -> Seq<char> {
        self.authority_name@
    }
}

/// The settings record naming the external tools' locations.
pub struct PathJson {
    pub paa_converter_path: String,
    pub rvmat_converter_path: String,
    pub config_converter_path: String,
    pub pbo_packer_path: String,
    pub pbo_signer_path: String,
}

impl Default for PathJson {
    /// The documented default tool locations.
    fn default() -> (r: Self)
        ensures
            r.paa_converter_path@ == "./external_tools/paa/ImageToPAA.exe"@,
            r.rvmat_converter_path@ == "./external_tools/config/CfgConvert.exe"@,
            r.config_converter_path@ == "./external_tools/config/CfgConvert.exe"@,
            r.pbo_packer_path@ == "./external_tools/pbo/pboc.exe"@,
            r.pbo_signer_path@ == "./external_tools/signing/dsSignFile.exe"@,
    {
        PathJson {
            paa_converter_path: "./external_tools/paa/ImageToPAA.exe".to_owned(),
            rvmat_converter_path: "./external_tools/config/CfgConvert.exe".to_owned(),
            config_converter_path: "./external_tools/config/CfgConvert.exe".to_owned(),
            pbo_packer_path: "./external_tools/pbo/pboc.exe".to_owned(),
            pbo_signer_path: "./external_tools/signing/dsSignFile.exe".to_owned(),
        }
    }
}

/// The command-line request: which direction to run and between which roots.
pub struct Args {
    pub source: String,
    pub destination: String,
    pub unpack: bool,
    pub pack: bool,
    pub path_json: Option<String>,
}

} // verus!
