//! The ascent of one parcel: the regimes it passes through and what is read
//! from its finished trajectory.

pub mod conv_params;
pub mod runge_kutta;
pub mod schemes;

use crate::ordering::ZERO_KEY;
use vstd::prelude::*;

verus! {

/// Order keys of the quantities of a parcel state that the model compares:
/// its vertical velocity, its mixing ratio, its saturation mixing ratio and
/// its virtual temperature.
#[derive(Copy, Clone, Debug, PartialEq, Eq, Structural)]
pub struct StateKeys {
    pub vertical_velocity: i64,
    pub mixing_ratio: i64,
    pub saturation_mixing_ratio: i64,
    pub virtual_temp: i64,
}

impl StateKeys {
    /// The parcel rises: its vertical velocity is above zero.
    pub open spec fn rising(&self) -> bool {
        self.vertical_velocity > ZERO_KEY
    }

    /// The parcel holds more vapour than saturation allows.
    pub open spec fn oversaturated(&self) -> bool {
        self.mixing_ratio > self.saturation_mixing_ratio
    }

    /// The parcel holds less vapour than saturation allows.
    pub open spec fn desaturated(&self) -> bool {
        self.saturation_mixing_ratio > self.mixing_ratio
    }

    /// The parcel has reached saturation.
    pub open spec fn saturated(&self) -> bool {
        self.mixing_ratio >= self.saturation_mixing_ratio
    }
}

} // verus!
