use vstd::prelude::*;
use crate::commands::{ToolCommand, ToolCommandV};

verus! {

/// A capability that turns files between their editable and binary forms.
/// Each method names the command that performs one conversion; the caller
/// runs it.
pub trait FileConverter {
    /// The command that compiles `source` into its binary form at `destination`.
    spec fn binarize_spec(&self, source: Seq<char>, destination: Seq<char>) -> ToolCommandV;

    /// The command that expands `source` back into its editable form at
    /// `destination`.
    spec fn debinarize_spec(&self, source: Seq<char>, destination: Seq<char>) -> ToolCommandV;

    fn binarize(&self, source: &String, destination: &String) -> (r: ToolCommand)
        ensures r@ == self.binarize_spec(source@, destination@),
    ;

    fn debinarize(&self, source: &String, destination: &String) -> (r: ToolCommand)
        ensures r@ == self.debinarize_spec(source@, destination@),
    ;
}

/// A converter for config files.
pub trait ConfigConverter: FileConverter {}

/// A converter for material files, which keep their extension when compiled.
pub trait RVMATConverter: FileConverter {}

/// A converter for image files.
pub trait PAAConverter: FileConverter {}

/// The config compiler: it takes a direction flag, the destination behind
/// `-dst`, and the source last.
pub struct ArmaToolsConfigConverter {
    pub tool_path: String,
}

impl ConfigConverter for ArmaToolsConfigConverter {}

impl RVMATConverter for ArmaToolsConfigConverter {}

impl FileConverter for ArmaToolsConfigConverter {
    open spec fn binarize_spec(&self, source: Seq<char>, destination: Seq<char>) -> ToolCommandV {
        ToolCommandV {
            program: self.tool_path@,
            args: seq!["-bin"@, "-dst"@, destination, source],
            working_dir: None,
        }
    }

    open spec fn debinarize_spec(&self, source: Seq<char>, destination: Seq<char>) -> ToolCommandV {
        ToolCommandV {
            program: self.tool_path@,
            args: seq!["-txt"@, "-dst"@, destination, source],
            working_dir: None,
        }
    }

    fn binarize(&self, source: &String, destination: &String) -> (r: ToolCommand) {
        let mut args: Vec<String> = Vec::new();
        args.push("-bin".to_owned());
        args.push("-dst".to_owned());
        args.push(destination.clone());
        args.push(source.clone());
        let r = ToolCommand { program: self.tool_path.clone(), args, working_dir: None };
        proof {
            assert(r@.args =~= self.binarize_spec(source@, destination@).args);
        }
        r
    }

    fn debinarize(&self, source: &String, destination: &String) -> (r: ToolCommand) {
        let mut args: Vec<String> = Vec::new();
        args.push("-txt".to_owned());
        args.push("-dst".to_owned());
        args.push(destination.clone());
        args.push(source.clone());
        let r = ToolCommand { program: self.tool_path.clone(), args, working_dir: None };
        proof {
            assert(r@.args =~= self.debinarize_spec(source@, destination@).args);
        }
        r
    }
}

/// The image codec: it takes the source and the destination, in that order,
/// in both directions.
pub struct ArmaToolsPAAConverter {
    pub tool_path: String,
}

impl PAAConverter for ArmaToolsPAAConverter {}

impl ArmaToolsPAAConverter {
    /// The one command shape the codec knows, shared by both directions.
    pub open spec fn convert_spec(&self, source: Seq<char>, destination: Seq<char>) -> ToolCommandV {
        ToolCommandV {
            program: self.tool_path@,
            args: seq![source, destination],
            working_dir: None,
        }
    }

    /// Builds the codec invocation for one file.
    pub fn convert(&self, source: &String, destination: &String) -> (r: ToolCommand)
        ensures r@ == self.convert_spec(source@, destination@),
    {
        let mut args: Vec<String> = Vec::new();
        args.push(source.clone());
        args.push(destination.clone());
        let r = ToolCommand { program: self.tool_path.clone(), args, working_dir: None };
        proof {
            assert(r@.args =~= self.convert_spec(source@, destination@).args);
        }
        r
    }
}

impl FileConverter for ArmaToolsPAAConverter {
    open spec fn binarize_spec(&self, source: Seq<char>, destination: Seq<char>) -> ToolCommandV {
        self.convert_spec(source, destination)
    }

    open spec fn debinarize_spec(&self, source: Seq<char>, destination: Seq<char>) -> ToolCommandV {
        self.convert_spec(source, destination)
    }

    fn binarize(&self, source: &String, destination: &String) -> (r: ToolCommand) {
        self.convert(source, destination)
    }

    fn debinarize(&self, source: &String, destination: &String) -> (r: ToolCommand) {
        self.convert(source, destination)
    }
}

} // verus!
