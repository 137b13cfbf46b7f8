//! The two colouring schemes and the selector that chooses between them.

use vstd::prelude::*;

verus! {

/// How a complex value becomes a colour.
#[derive(Clone, Copy, Debug, PartialEq, Eq, Structural)]
pub enum ColorMode {
    /// Hue from the argument of the value, lightness from its modulus.
    ArgumentModulus,
    /// Hue from the distance of the real and imaginary parts to the nearest
    /// integers, which draws the integer lattice of the values.
    GridLine,
}

/// The selector of the argument and modulus scheme. Every other selector
/// chooses the grid-line scheme.
pub const ARGUMENT_MODULUS_SELECTOR: usize = 1;

impl ColorMode {
    /// The scheme that a selector chooses.
    pub open spec fn spec_from_selector(selector: usize) -> ColorMode {
        if selector == ARGUMENT_MODULUS_SELECTOR {
            ColorMode::ArgumentModulus
        } else {
            ColorMode::GridLine
        }
    }

    /// The scheme that a selector chooses.
    pub fn from_selector(selector: usize) -> (mode: ColorMode)
        ensures
            mode == Self::spec_from_selector(selector),
    {
        if selector == ARGUMENT_MODULUS_SELECTOR {
            ColorMode::ArgumentModulus
        } else {
            ColorMode::GridLine
        }
    }
}

} // verus!
