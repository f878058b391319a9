use pats::ordering::order_key;
use pats::parcel::conv_params::{compute_conv_params, ConvectiveParams};
use pats::parcel::runge_kutta::{classify, classify_initial, Action, Regime, RungeKuttaDynamics};
use pats::parcel::StateKeys;

fn key(x: f64) -> i64 {
    order_key(x.to_bits()).expect("not a number")
}

/// Keys of a state with the given vertical velocity, mixing ratio,
/// saturation mixing ratio and virtual temperature.
fn keys(w: f64, r: f64, rs: f64, tv: f64) -> StateKeys {
    StateKeys {
        vertical_velocity: key(w),
        mixing_ratio: key(r),
        saturation_mixing_ratio: key(rs),
        virtual_temp: key(tv),
    }
}

#[test]
fn parcel_without_upward_velocity_does_not_ascend() {
    for w in [0.0, -0.0, -0.2, -15.0] {
        let mut dynamics = RungeKuttaDynamics::new("release", &keys(w, 0.008, 0.012, 290.0));
        assert_eq!(dynamics.current_regime(), Regime::Finished);
        assert_eq!(dynamics.parcel_log().len(), 1);
        // whatever is handed in afterwards, nothing is logged
        for trial in [keys(0.5, 0.008, 0.012, 289.0), keys(2.0, 0.02, 0.01, 288.0)] {
            assert_eq!(dynamics.advance("trial", &trial), Action::Stop);
            assert_eq!(dynamics.current_regime(), Regime::Finished);
        }
        assert_eq!(dynamics.parcel_log(), &["release"]);
        assert_eq!(dynamics.parcel_log().len(), 1);
    }
}

#[test]
fn ascent_passes_through_the_regimes() {
    let mut dynamics = RungeKuttaDynamics::new(0, &keys(0.2, 0.008, 0.012, 290.0));
    assert_eq!(dynamics.current_regime(), Regime::Unsaturated);
    assert_eq!(dynamics.advance(1, &keys(0.4, 0.008, 0.010, 289.0)), Action::Accept);
    assert_eq!(dynamics.advance(2, &keys(0.6, 0.008, 0.008, 288.0)), Action::Accept);
    // more vapour than saturation allows: the step is taken again saturated
    assert_eq!(dynamics.advance(3, &keys(0.8, 0.008, 0.007, 287.0)), Action::Retry);
    assert_eq!(dynamics.current_regime(), Regime::Saturated);
    assert_eq!(*dynamics.last_state(), 2);
    assert_eq!(dynamics.advance(4, &keys(0.8, 0.007, 0.007, 287.0)), Action::Accept);
    assert_eq!(dynamics.advance(5, &keys(0.9, 0.006, 0.006, 286.0)), Action::Accept);
    // saturation rises above what the parcel holds: unsaturated again
    assert_eq!(dynamics.advance(6, &keys(0.7, 0.006, 0.0065, 285.0)), Action::Retry);
    assert_eq!(dynamics.current_regime(), Regime::Reentered);
    assert_eq!(dynamics.advance(7, &keys(0.5, 0.006, 0.0065, 285.0)), Action::Accept);
    assert_eq!(dynamics.advance(8, &keys(0.0, 0.006, 0.0070, 284.0)), Action::Stop);
    assert_eq!(dynamics.current_regime(), Regime::Finished);
    assert_eq!(dynamics.parcel_log(), &[0, 1, 2, 4, 5, 7]);
    assert_eq!(*dynamics.last_state(), 7);
}

#[test]
fn transitions_of_every_regime() {
    let rising_dry = keys(1.0, 0.004, 0.009, 280.0);
    let rising_even = keys(1.0, 0.009, 0.009, 280.0);
    let rising_wet = keys(1.0, 0.010, 0.009, 280.0);
    let sinking = keys(-0.1, 0.010, 0.009, 280.0);
    let resting = keys(0.0, 0.004, 0.009, 280.0);

    assert_eq!(classify(Regime::Unsaturated, &rising_dry), (Regime::Unsaturated, Action::Accept));
    assert_eq!(classify(Regime::Unsaturated, &rising_even), (Regime::Unsaturated, Action::Accept));
    assert_eq!(classify(Regime::Unsaturated, &rising_wet), (Regime::Saturated, Action::Retry));
    assert_eq!(classify(Regime::Saturated, &rising_wet), (Regime::Saturated, Action::Accept));
    assert_eq!(classify(Regime::Saturated, &rising_even), (Regime::Saturated, Action::Accept));
    assert_eq!(classify(Regime::Saturated, &rising_dry), (Regime::Reentered, Action::Retry));
    assert_eq!(classify(Regime::Reentered, &rising_dry), (Regime::Reentered, Action::Accept));
    assert_eq!(classify(Regime::Reentered, &rising_wet), (Regime::Finished, Action::Stop));
    for regime in [Regime::Unsaturated, Regime::Saturated, Regime::Reentered, Regime::Finished] {
        assert_eq!(classify(regime, &sinking), (Regime::Finished, Action::Stop));
        assert_eq!(classify(regime, &resting), (Regime::Finished, Action::Stop));
    }
    assert_eq!(classify(Regime::Finished, &rising_dry), (Regime::Finished, Action::Stop));
    assert_eq!(classify_initial(&rising_wet), Regime::Unsaturated);
    assert_eq!(classify_initial(&resting), Regime::Finished);
}

/// A log of a parcel that saturates at entry 2, is warmer than the
/// environment from entry 3 and colder again from entry 6.
fn log_with_all_levels() -> (Vec<StateKeys>, Vec<i64>) {
    let log = vec![
        keys(0.2, 0.008, 0.012, 290.0),
        keys(0.5, 0.008, 0.010, 288.0),
        keys(0.9, 0.008, 0.008, 286.0),
        keys(1.5, 0.007, 0.007, 285.0),
        keys(2.5, 0.006, 0.006, 283.0),
        keys(2.5, 0.005, 0.005, 280.0),
        keys(1.0, 0.004, 0.004, 276.0),
        keys(0.1, 0.003, 0.003, 272.0),
    ];
    let env = [291.0, 289.0, 286.5, 284.0, 281.0, 279.5, 276.0, 273.0];
    (log, env.iter().map(|v| key(*v)).collect())
}

#[test]
fn levels_of_a_full_ascent() {
    let (log, env) = log_with_all_levels();
    let params = compute_conv_params(&log, &env);
    assert_eq!(
        params,
        ConvectiveParams {
            parcel_top: 7,
            max_vert_vel: 5,
            condens_lvl: Some(2),
            lfc: Some(3),
            el: Some(6),
            cape: Some((3, 6)),
            cin: Some((0, 3)),
        }
    );
}

#[test]
fn parcel_that_never_saturates_has_no_levels() {
    let log = vec![keys(0.2, 0.002, 0.012, 290.0), keys(0.1, 0.002, 0.010, 295.0)];
    let env = vec![key(280.0), key(279.0)];
    let params = compute_conv_params(&log, &env);
    assert_eq!(params.condens_lvl, None);
    assert_eq!(params.lfc, None);
    assert_eq!(params.el, None);
    assert_eq!(params.cape, None);
    assert_eq!(params.cin, None);
    assert_eq!(params.parcel_top, 1);
    assert_eq!(params.max_vert_vel, 0);
}

#[test]
fn saturated_parcel_that_stays_colder_has_no_free_convection() {
    let log = vec![keys(0.2, 0.012, 0.012, 290.0), keys(0.1, 0.010, 0.010, 288.0)];
    let env = vec![key(290.0), key(289.0)];
    let params = compute_conv_params(&log, &env);
    assert_eq!(params.condens_lvl, Some(0));
    assert_eq!(params.lfc, None);
    assert_eq!(params.el, None);
    assert_eq!(params.cin, None);
    assert_eq!(params.cape, None);
}

#[test]
fn parcel_that_stays_warmer_has_no_equilibrium_level() {
    let log = vec![
        keys(0.2, 0.012, 0.012, 290.0),
        keys(0.4, 0.010, 0.010, 289.0),
        keys(0.6, 0.009, 0.009, 288.0),
    ];
    let env = vec![key(289.0), key(288.0), key(287.0)];
    let params = compute_conv_params(&log, &env);
    assert_eq!(params.condens_lvl, Some(0));
    assert_eq!(params.lfc, Some(0));
    assert_eq!(params.el, None);
    assert_eq!(params.cin, Some((0, 0)));
    assert_eq!(params.cape, None);
    assert_eq!(params.max_vert_vel, 2);
}

#[test]
fn equal_virtual_temperatures_at_the_level_of_free_convection() {
    // warmer only at entry 1; equal at entry 2, which is the equilibrium level
    let log = vec![
        keys(0.2, 0.012, 0.012, 288.0),
        keys(0.4, 0.010, 0.010, 289.0),
        keys(0.6, 0.009, 0.009, 287.0),
    ];
    let env = vec![key(288.0), key(288.0), key(287.0)];
    let params = compute_conv_params(&log, &env);
    assert_eq!(params.condens_lvl, Some(0));
    assert_eq!(params.lfc, Some(1));
    assert_eq!(params.el, Some(2));
    assert_eq!(params.cape, Some((1, 2)));
}

#[test]
fn single_entry_log() {
    let log = vec![keys(0.0, 0.012, 0.012, 290.0)];
    let env = vec![key(280.0)];
    let params = compute_conv_params(&log, &env);
    assert_eq!(params.parcel_top, 0);
    assert_eq!(params.max_vert_vel, 0);
    assert_eq!(params.condens_lvl, Some(0));
    assert_eq!(params.lfc, Some(0));
    assert_eq!(params.el, None);
}

#[test]
fn levels_step_by_step() {
    let (log, env) = log_with_all_levels();
    let mut params = ConvectiveParams::default();
    params.update_displacements(&log);
    assert_eq!((params.parcel_top, params.max_vert_vel), (7, 5));
    assert_eq!(params.condens_lvl, None);
    params.update_levels(&log, &env);
    assert_eq!((params.condens_lvl, params.lfc, params.el), (Some(2), Some(3), Some(6)));
    assert_eq!(params.cape, None);
    params.update_thermodynamic_vars();
    assert_eq!(params.cin, Some((0, 3)));
    assert_eq!(params.cape, Some((3, 6)));
}
