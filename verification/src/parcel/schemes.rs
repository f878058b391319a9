//! The choice among the approximations of the saturation vapour pressure.
//!
//! Which closed formula is used depends on the band in which the
//! temperature lies. The thresholds are part of the model: the choice trades
//! accuracy against cost and has to be the same wherever the saturation of
//! a parcel is diagnosed.

use vstd::prelude::*;

verus! {

/// Order key of the freezing point of water, 273.15 K.
pub const FREEZING_POINT_KEY: i64 = 0x4071_1266_6666_6666;

/// Order key of 193 K, below which the formulae for moderate frost no
/// longer hold.
pub const DEEP_FROST_KEY: i64 = 0x4068_2000_0000_0000;

/// The approximations of the saturation vapour pressure.
#[derive(Copy, Clone, Debug, PartialEq, Eq, Structural)]
pub enum VapourPressureFormula {
    /// The usual Buck formula over water, for temperatures above freezing.
    Buck1,
    /// The Buck formula over ice, for moderate frost.
    Buck2,
    /// The more expensive Wexler formula over ice, for extreme cold.
    Wexler2,
}

/// The formula for the band in which a temperature lies.
pub open spec fn formula_for(temperature: i64) -> VapourPressureFormula {
    if temperature > FREEZING_POINT_KEY {
        VapourPressureFormula::Buck1
    } else if temperature > DEEP_FROST_KEY {
        VapourPressureFormula::Buck2
    } else {
        VapourPressureFormula::Wexler2
    }
}

/// Chooses the approximation of the saturation vapour pressure for a
/// temperature given by its order key.
pub fn saturation_formula(temperature: i64) -> (formula: VapourPressureFormula)
    ensures
        formula == formula_for(temperature),
{
    if temperature > FREEZING_POINT_KEY {
        VapourPressureFormula::Buck1
    } else if temperature > DEEP_FROST_KEY {
        VapourPressureFormula::Buck2
    } else {
        VapourPressureFormula::Wexler2
    }
}

} // verus!
