//! Convective parameters of a finished ascent, as far as they are decided
//! by comparison: which entries of the trajectory log mark the condensation
//! level, the level of free convection and the equilibrium level, where the
//! parcel was fastest, and between which entries the energies are
//! integrated. The heights and the integrals themselves are computed by the
//! caller from the entries named here.

use super::StateKeys;
use vstd::prelude::*;

verus! {

/// The places in the trajectory log from which the convective parameters of
/// a parcel are read.
#[derive(Copy, Clone, Debug, PartialEq, Eq, Default)]
pub struct ConvectiveParams {
    /// Entry at the top of the ascent, the last of the log.
    pub parcel_top: usize,
    /// Entry of the maximum vertical velocity.
    pub max_vert_vel: usize,
    /// Entry at the condensation level (similar to the convective
    /// condensation level), if the parcel saturates.
    pub condens_lvl: Option<usize>,
    /// Entry at the level of free convection, if the parcel reaches it.
    pub lfc: Option<usize>,
    /// Entry at the equilibrium level, if the parcel reaches it.
    pub el: Option<usize>,
    /// First and last entry of the integration of the convective available
    /// potential energy: from the level of free convection to the
    /// equilibrium level. Absent unless both are reached.
    pub cape: Option<(usize, usize)>,
    /// First and last entry of the integration of the convective
    /// inhibition: from the release to the level of free convection. Absent
    /// unless that level is reached.
    pub cin: Option<(usize, usize)>,
}

/// At entry `i` the parcel is warmer than its environment, by virtual
/// temperature.
pub open spec fn buoyant(parcel_log: Seq<StateKeys>, env_vrt_tmp: Seq<i64>, i: int) -> bool {
    parcel_log[i].virtual_temp > env_vrt_tmp[i]
}

/// `level` is the first entry at which the parcel is saturated, or absent
/// if it never is.
pub open spec fn is_condensation_level(parcel_log: Seq<StateKeys>, level: Option<usize>) -> bool {
    match level {
        Some(c) => {
            &&& c < parcel_log.len()
            &&& parcel_log[c as int].saturated()
            &&& forall|j: int| 0 <= j < c ==> !(#[trigger] parcel_log[j]).saturated()
        },
        None => forall|j: int| 0 <= j < parcel_log.len() ==> !(#[trigger] parcel_log[j]).saturated(),
    }
}

/// `level` is the first entry, from the condensation level on, at which the
/// parcel is warmer than its environment; absent if there is no condensation
/// level or no such entry.
pub open spec fn is_free_convection_level(
    parcel_log: Seq<StateKeys>,
    env_vrt_tmp: Seq<i64>,
    condens_lvl: Option<usize>,
    level: Option<usize>,
) -> bool {
    match condens_lvl {
        None => level.is_none(),
        Some(c) => match level {
            Some(l) => {
                &&& c <= l < parcel_log.len()
                &&& buoyant(parcel_log, env_vrt_tmp, l as int)
                &&& forall|j: int| c <= j < l ==> !#[trigger] buoyant(parcel_log, env_vrt_tmp, j)
            },
            None => forall|j: int|
                c <= j < parcel_log.len() ==> !#[trigger] buoyant(parcel_log, env_vrt_tmp, j),
        },
    }
}

/// `level` is the first entry after the level of free convection at which
/// the parcel is no longer warmer than its environment; absent if there is
/// no level of free convection or no such entry.
pub open spec fn is_equilibrium_level(
    parcel_log: Seq<StateKeys>,
    env_vrt_tmp: Seq<i64>,
    lfc: Option<usize>,
    level: Option<usize>,
) -> bool {
    match lfc {
        None => level.is_none(),
        Some(l) => match level {
            Some(e) => {
                &&& l < e < parcel_log.len()
                &&& !buoyant(parcel_log, env_vrt_tmp, e as int)
                &&& forall|j: int| l < j < e ==> #[trigger] buoyant(parcel_log, env_vrt_tmp, j)
            },
            None => forall|j: int|
                l < j < parcel_log.len() ==> #[trigger] buoyant(parcel_log, env_vrt_tmp, j),
        },
    }
}

/// `m` is the entry of the maximum vertical velocity: no entry is faster,
/// and every later entry is slower.
pub open spec fn is_fastest(parcel_log: Seq<StateKeys>, m: int) -> bool {
    &&& 0 <= m < parcel_log.len()
    &&& forall|j: int|
        0 <= j < parcel_log.len() ==> (#[trigger] parcel_log[j]).vertical_velocity
            <= parcel_log[m].vertical_velocity
    &&& forall|j: int|
        m < j < parcel_log.len() ==> (#[trigger] parcel_log[j]).vertical_velocity
            < parcel_log[m].vertical_velocity
}

/// The spans of integration that belong to the given levels.
pub open spec fn spans_match(params: ConvectiveParams) -> bool {
    &&& params.cin == match params.lfc {
        Some(l) => Some((0usize, l)),
        None => None,
    }
    &&& params.cape == match (params.lfc, params.el) {
        (Some(l), Some(e)) => Some((l, e)),
        _ => None,
    }
}

/// The parameters are those of the given trajectory log and of the virtual
/// temperature of the environment along it.
pub open spec fn params_of(
    parcel_log: Seq<StateKeys>,
    env_vrt_tmp: Seq<i64>,
    params: ConvectiveParams,
) -> bool {
    &&& params.parcel_top == parcel_log.len() - 1
    &&& is_fastest(parcel_log, params.max_vert_vel as int)
    &&& is_condensation_level(parcel_log, params.condens_lvl)
    &&& is_free_convection_level(parcel_log, env_vrt_tmp, params.condens_lvl, params.lfc)
    &&& is_equilibrium_level(parcel_log, env_vrt_tmp, params.lfc, params.el)
    &&& spans_match(params)
}

/// Reads the convective parameters from a trajectory log in a single pass
/// per level. `env_vrt_tmp` holds the virtual temperature of the
/// environment at every entry of the log.
pub fn compute_conv_params(parcel_log: &[StateKeys], env_vrt_tmp: &[i64]) -> (result_params:
    ConvectiveParams)
    requires
        parcel_log@.len() >= 1,
        env_vrt_tmp@.len() >= parcel_log@.len(),
    ensures
        params_of(parcel_log@, env_vrt_tmp@, result_params),
{
    let mut result_params = ConvectiveParams {
        parcel_top: 0,
        max_vert_vel: 0,
        condens_lvl: None,
        lfc: None,
        el: None,
        cape: None,
        cin: None,
    };
    result_params.update_displacements(parcel_log);
    result_params.update_levels(parcel_log, env_vrt_tmp);
    result_params.update_thermodynamic_vars();
    result_params
}

impl ConvectiveParams {
    /// Finds the entry at the top of the ascent and the entry of the
    /// maximum vertical velocity. Among equally fast entries the last
    /// counts.
    pub fn update_displacements(&mut self, parcel_log: &[StateKeys])
        requires
            parcel_log@.len() >= 1,
        ensures
            final(self).parcel_top == parcel_log@.len() - 1,
            is_fastest(parcel_log@, final(self).max_vert_vel as int),
            final(self).condens_lvl == old(self).condens_lvl,
            final(self).lfc == old(self).lfc,
            final(self).el == old(self).el,
            final(self).cape == old(self).cape,
            final(self).cin == old(self).cin,
    {
        self.parcel_top = parcel_log.len() - 1;
        let mut fastest: usize = 0;
        let mut i: usize = 1;
        while i < parcel_log.len()
            invariant
                1 <= i <= parcel_log@.len(),
                fastest < i,
                forall|j: int|
                    0 <= j < i ==> (#[trigger] parcel_log@[j]).vertical_velocity
                        <= parcel_log@[fastest as int].vertical_velocity,
                forall|j: int|
                    fastest < j < i ==> (#[trigger] parcel_log@[j]).vertical_velocity
                        < parcel_log@[fastest as int].vertical_velocity,
            decreases parcel_log@.len() - i,
        {
            if parcel_log[i].vertical_velocity >= parcel_log[fastest].vertical_velocity {
                fastest = i;
            }
            i += 1;
        }
        self.max_vert_vel = fastest;
    }

    /// Finds the condensation level, the level of free convection and the
    /// equilibrium level. The levels follow one another and depend on one
    /// another, so each is searched from the one before, from the bottom of
    /// the ascent upwards. The condensation level may itself be the level of
    /// free convection; the equilibrium level lies above the level of free
    /// convection.
    pub fn update_levels(&mut self, parcel_log: &[StateKeys], env_vrt_tmp: &[i64])
        requires
            env_vrt_tmp@.len() >= parcel_log@.len(),
        ensures
            is_condensation_level(parcel_log@, final(self).condens_lvl),
            is_free_convection_level(
                parcel_log@,
                env_vrt_tmp@,
                final(self).condens_lvl,
                final(self).lfc,
            ),
            is_equilibrium_level(parcel_log@, env_vrt_tmp@, final(self).lfc, final(self).el),
            final(self).parcel_top == old(self).parcel_top,
            final(self).max_vert_vel == old(self).max_vert_vel,
            final(self).cape == old(self).cape,
            final(self).cin == old(self).cin,
    {
        let len: usize = parcel_log.len();
        self.condens_lvl = None;
        self.lfc = None;
        self.el = None;

        // first time the parcel is saturated is condensation level
        let mut i: usize = 0;
        while i < len && parcel_log[i].mixing_ratio < parcel_log[i].saturation_mixing_ratio
            invariant
                i <= len,
                len == parcel_log@.len(),
                forall|j: int| 0 <= j < i ==> !(#[trigger] parcel_log@[j]).saturated(),
            decreases len - i,
        {
            i += 1;
        }
        if i == len {
            return;
        }
        let ccl_index: usize = i;
        self.condens_lvl = Some(ccl_index);

        // we check the condensation level as it might be a level of free convection;
        // first time the parcel is warmer than the environment is LFC
        let mut i: usize = ccl_index;
        while i < len && parcel_log[i].virtual_temp <= env_vrt_tmp[i]
            invariant
                ccl_index <= i <= len,
                len == parcel_log@.len(),
                env_vrt_tmp@.len() >= len,
                forall|j: int|
                    ccl_index <= j < i ==> !#[trigger] buoyant(parcel_log@, env_vrt_tmp@, j),
            decreases len - i,
        {
            i += 1;
        }
        if i == len {
            return;
        }
        let lfc_index: usize = i;
        self.lfc = Some(lfc_index);

        // start checking from level after LFC for rare case when virtual temperatures
        // are equal; first time the parcel is no longer warmer is EL
        let mut i: usize = lfc_index + 1;
        while i < len && parcel_log[i].virtual_temp > env_vrt_tmp[i]
            invariant
                lfc_index < i <= len,
                len == parcel_log@.len(),
                env_vrt_tmp@.len() >= len,
                forall|j: int| lfc_index < j < i ==> #[trigger] buoyant(parcel_log@, env_vrt_tmp@, j),
            decreases len - i,
        {
            i += 1;
        }
        if i < len {
            self.el = Some(i);
        }
    }

    /// Sets the spans over which the energies are integrated: the
    /// convective inhibition from the release to the level of free
    /// convection, the convective available potential energy from there to
    /// the equilibrium level. A span is absent if a level it needs was never
    /// reached.
    pub fn update_thermodynamic_vars(&mut self)
        ensures
            spans_match(*final(self)),
            final(self).parcel_top == old(self).parcel_top,
            final(self).max_vert_vel == old(self).max_vert_vel,
            final(self).condens_lvl == old(self).condens_lvl,
            final(self).lfc == old(self).lfc,
            final(self).el == old(self).el,
    {
        self.cin = match self.lfc {
            Some(l) => Some((0, l)),
            None => None,
        };
        self.cape = match (self.lfc, self.el) {
            (Some(l), Some(e)) => Some((l, e)),
            _ => None,
        };
    }
}

/// Between the level of free convection and the equilibrium level the
/// parcel is warmer than its environment at every entry of the log; at the
/// equilibrium level it no longer is. The levels come in their order.
pub proof fn lemma_warmer_between_levels(
    parcel_log: Seq<StateKeys>,
    env_vrt_tmp: Seq<i64>,
    params: ConvectiveParams,
)
    requires
        params_of(parcel_log, env_vrt_tmp, params),
    ensures
        params.el.is_some() ==> params.lfc.is_some(),
        params.lfc.is_some() ==> params.condens_lvl.is_some(),
        params.cape.is_some() <==> params.el.is_some(),
        params.cin.is_some() <==> params.lfc.is_some(),
        params.cape matches Some((from, to)) ==> {
            &&& from < to < parcel_log.len()
            &&& forall|j: int| from <= j < to ==> #[trigger] buoyant(parcel_log, env_vrt_tmp, j)
            &&& !buoyant(parcel_log, env_vrt_tmp, to as int)
        },
        params.cin matches Some((from, to)) ==> from == 0 && to < parcel_log.len(),
        (params.condens_lvl, params.lfc) matches (Some(c), Some(l)) ==> c <= l,
{
}

} // verus!
