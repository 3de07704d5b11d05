use vstd::prelude::*;

pub mod curve;
pub mod config;
pub mod ecdsa;
pub mod field;

verus! {

/// Why a verification gadget, or one of the chips under it, could not be synthesised.
#[derive(Clone, Copy, Debug, PartialEq, Eq, Structural)]
pub enum Error {
    /// A value asserted to be nonzero is zero in its field.
    ZeroValue,
    /// A value has no multiplicative inverse modulo the field's modulus.
    NonInvertible,
    /// Any other unsatisfiable constraint: a point off the curve, the identity
    /// where an affine point is needed, or two values that are not strictly equal.
    Synthesis,
}

} // verus!
