use vstd::prelude::*;

verus! {

/// A depth-dependent subprogram generator: one that must read the live
/// stack model (and its options) at planning time, because an operand's
/// absolute depth has to be baked into the emitted snippet.
#[derive(Clone, Copy, Debug, PartialEq, Eq, Structural)]
pub enum ComplexGadget {
    /// Multiplies two limb-decomposed M31 operands; resolves the shared
    /// lookup table's depth through the `table_ref` option.
    M31LimbsMul,
}

/// A registered subprogram generator: either a plain snippet whose bytes
/// are fixed at recording time, or a depth-dependent generator resolved
/// by the planner against the live stack model.
#[derive(Clone, Debug)]
pub enum ScriptGenerator {
    Simple(Vec<u8>),
    Complex(ComplexGadget),
}

} // verus!
