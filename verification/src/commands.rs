use vstd::prelude::*;

verus! {

/// One external-tool invocation: the program to run, its arguments in order,
/// and the directory to run it in, when one is required.
pub struct ToolCommand {
    pub program: String,
    pub args: Vec<String>,
    pub working_dir: Option<String>,
}

/// The view of a tool invocation.
pub ghost struct ToolCommandV {
    pub program: Seq<char>,
    pub args: Seq<Seq<char>>,
    pub working_dir: Option<Seq<char>>,
}

impl View for ToolCommand {
    type V = ToolCommandV;

    open spec fn view(&self) -> ToolCommandV {
        ToolCommandV {
            program: self.program@,
            args: self.args@.map_values(|s: String| s@),
            working_dir: match self.working_dir {
                Some(d) => Some(d@),
                None => None,
            },
        }
    }
}

} // verus!
