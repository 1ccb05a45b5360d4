use vstd::prelude::*;

verus! {

/// Something that turns a source into a packed form and back. Each impl
/// names its own source and plan shapes; the contracts stand on the impls'
/// inherent methods, which these entry points forward to.
pub trait Packer {
    type PackSource;
    type PackPlan;
    type PackError;
    type UnpackSource;
    type UnpackPlan;
    type UnpackError;

    fn pack(&self, source: Self::PackSource) -> Result<Self::PackPlan, Self::PackError>;

    fn unpack(&self, source: Self::UnpackSource) -> Result<Self::UnpackPlan, Self::UnpackError>;
}

} // verus!
