use vstd::prelude::*;
use crate::commands::{ToolCommand, ToolCommandV};

verus! {

/// A capability that signs one archive with one private key, leaving the
/// signature beside the archive in the output directory.
pub trait PBOSigner {
    /// The command that signs `pbo_path` with `private_key_path`, run inside
    /// `output_path`.
    spec fn sign_spec(&self, pbo_path: Seq<char>, private_key_path: Seq<char>, output_path: Seq<char>) -> ToolCommandV;

    fn sign(&self, pbo_path: &String, private_key_path: &String, output_path: &String) -> (r: ToolCommand)
        ensures r@ == self.sign_spec(pbo_path@, private_key_path@, output_path@),
    ;
}

/// The signature tool: it takes the private key and the archive, in that
/// order, and runs inside the output directory.
pub struct ArmaToolsPBOSigner {
    pub tool_path: String,
}

impl PBOSigner for ArmaToolsPBOSigner {
    open spec fn sign_spec(&self, pbo_path: Seq<char>, private_key_path: Seq<char>, output_path: Seq<char>) -> ToolCommandV {
        ToolCommandV {
            program: self.tool_path@,
            args: seq![private_key_path, pbo_path],
            working_dir: Some(output_path),
        }
    }

    fn sign(&self, pbo_path: &String, private_key_path: &String, output_path: &String) -> (r: ToolCommand) {
        let mut args: Vec<String> = Vec::new();
        args.push(private_key_path.clone());
        args.push(pbo_path.clone());
        let r = ToolCommand {
            program: self.tool_path.clone(),
            args,
            working_dir: Some(output_path.clone()),
        };
        proof {
            assert(r@.args =~= self.sign_spec(pbo_path@, private_key_path@, output_path@).args);
        }
        r
    }
}

} // verus!
