use vstd::prelude::*;

verus! {

/// Why a construction was refused.
#[derive(Clone, Copy, Debug, PartialEq, Eq, Structural)]
pub enum AlgebraError {
    /// Ranks or sizes that do not fit together in an arithmetic operation or
    /// a contraction.
    ShapeMismatch,
    /// While flattening a contraction, a rank had no free axis to be rewired
    /// onto, or more than one.
    AmbiguousContraction,
    /// A rank or a tensor index beyond its bounds.
    IndexOutOfRange,
    /// An operation on a variant that has no meaning for it.
    VariantMismatch,
    /// A rule that the engine does not provide.
    Unimplemented,
}

} // verus!
