use vstd::prelude::*;

verus! {

/// The structured failures of the recording layer, the planner and the
/// variable algebra.  Every fallible operation of the library reports one
/// of these kinds instead of panicking.
#[derive(Clone, Copy, Debug, PartialEq, Eq, Structural)]
pub enum Error {
    /// A mutation was attempted after the constraint system was finalized.
    FinalizedMutation,
    /// A program input was allocated after a non-input allocation.
    OrderViolation,
    /// A duplicate id, or a reference to an id that is not in memory.
    MemoryCorruption,
    /// An operand's width differs from the footprint a generator expects.
    TypeMismatch,
    /// The planner asked for the position of an absent id, or pulled twice.
    StackInvariant,
    /// The native side of a bounded integer operation overflowed.
    Overflow,
    /// A generator requested an options key that is not present.
    OptionMissing,
    /// A byte string handed to the channel unpacker cannot be canonicalised.
    EncodingAmbiguous,
}

} // verus!
