//! The regimes of the ascent and the trajectory log.
//!
//! A parcel rises unsaturated along a dry adiabat until it would hold more
//! vapour than saturation allows, then saturated along a pseudoadiabat until
//! saturation rises above what it holds, and then unsaturated again. It
//! stops in any regime as soon as it no longer rises. The integration of a
//! step is done by the caller, who hands each trial state in with its order
//! keys; the dynamics decide what becomes of it and keep the log.

use super::StateKeys;
use crate::ordering::ZERO_KEY;
use vstd::prelude::*;

verus! {

/// The thermodynamic regime of the ascent.
#[derive(Copy, Clone, Debug, PartialEq, Eq, Structural)]
pub enum Regime {
    /// Dry adiabatic ascent before saturation.
    Unsaturated,
    /// Pseudoadiabatic ascent.
    Saturated,
    /// Dry adiabatic ascent after desaturation; no regime follows it.
    Reentered,
    /// The ascent is over and the trajectory log complete.
    Finished,
}

/// What becomes of a trial state.
#[derive(Copy, Clone, Debug, PartialEq, Eq, Structural)]
pub enum Action {
    /// The trial state was accepted and logged; the next step starts from
    /// it in the same regime.
    Accept,
    /// The trial state was discarded; the step is to be taken again from
    /// the last logged state in the new regime.
    Retry,
    /// The trial state was discarded and the ascent is over.
    Stop,
}

/// The regime in which a parcel with the given keys starts: it ascends
/// only if it rises.
pub open spec fn initial_regime(keys: StateKeys) -> Regime {
    if keys.rising() {
        Regime::Unsaturated
    } else {
        Regime::Finished
    }
}

/// The transition of the ascent: the regime after a trial state with the
/// given keys was seen in `regime`, and what becomes of the trial state.
pub open spec fn transition(regime: Regime, keys: StateKeys) -> (Regime, Action) {
    match regime {
        Regime::Finished => (Regime::Finished, Action::Stop),
        Regime::Unsaturated => if !keys.rising() {
            (Regime::Finished, Action::Stop)
        } else if keys.oversaturated() {
            (Regime::Saturated, Action::Retry)
        } else {
            (Regime::Unsaturated, Action::Accept)
        },
        Regime::Saturated => if !keys.rising() {
            (Regime::Finished, Action::Stop)
        } else if keys.desaturated() {
            (Regime::Reentered, Action::Retry)
        } else {
            (Regime::Saturated, Action::Accept)
        },
        Regime::Reentered => if !keys.rising() || keys.oversaturated() {
            (Regime::Finished, Action::Stop)
        } else {
            (Regime::Reentered, Action::Accept)
        },
    }
}

/// The log after a trial state met the given action.
pub open spec fn logged<S>(log: Seq<S>, trial: S, action: Action) -> Seq<S> {
    if action == Action::Accept {
        log.push(trial)
    } else {
        log
    }
}

/// Regime and log after a run of trial states, each with its keys, was
/// handed in one after the other.
pub open spec fn after_trials<S>(regime: Regime, log: Seq<S>, trials: Seq<(S, StateKeys)>) -> (
    Regime,
    Seq<S>,
)
    decreases trials.len(),
{
    if trials.len() == 0 {
        (regime, log)
    } else {
        let (before, earlier) = after_trials(regime, log, trials.drop_last());
        let (next, action) = transition(before, trials.last().1);
        (next, logged(earlier, trials.last().0, action))
    }
}

/// Decides the regime in which a parcel with the given keys starts.
pub fn classify_initial(keys: &StateKeys) -> (regime: Regime)
    ensures
        regime == initial_regime(*keys),
{
    if keys.vertical_velocity > ZERO_KEY {
        Regime::Unsaturated
    } else {
        Regime::Finished
    }
}

/// Decides the next regime from the current one and the keys of a trial
/// state, and what becomes of the trial state.
pub fn classify(regime: Regime, keys: &StateKeys) -> (next: (Regime, Action))
    ensures
        next == transition(regime, *keys),
{
    let rising: bool = keys.vertical_velocity > ZERO_KEY;
    match regime {
        Regime::Finished => (Regime::Finished, Action::Stop),
        Regime::Unsaturated => {
            if !rising {
                (Regime::Finished, Action::Stop)
            } else if keys.mixing_ratio > keys.saturation_mixing_ratio {
                (Regime::Saturated, Action::Retry)
            } else {
                (Regime::Unsaturated, Action::Accept)
            }
        },
        Regime::Saturated => {
            if !rising {
                (Regime::Finished, Action::Stop)
            } else if keys.saturation_mixing_ratio > keys.mixing_ratio {
                (Regime::Reentered, Action::Retry)
            } else {
                (Regime::Saturated, Action::Accept)
            }
        },
        Regime::Reentered => {
            if !rising || keys.mixing_ratio > keys.saturation_mixing_ratio {
                (Regime::Finished, Action::Stop)
            } else {
                (Regime::Reentered, Action::Accept)
            }
        },
    }
}

/// The dynamics of one parcel: its regime and its trajectory log, an
/// append-only sequence of states that starts with the state at release and
/// gains one entry per accepted step.
pub struct RungeKuttaDynamics<S> {
    regime: Regime,
    parcel_log: Vec<S>,
}

impl<S> RungeKuttaDynamics<S> {
    /// The log holds at least the state at release. Every value that
    /// `new` makes and `advance` changes fulfils this.
    pub closed spec fn wf(&self) -> bool {
        self.parcel_log@.len() >= 1
    }

    /// The regime of the ascent.
    pub closed spec fn regime(&self) -> Regime {
        self.regime
    }

    /// The trajectory log.
    pub closed spec fn log(&self) -> Seq<S> {
        self.parcel_log@
    }

    /// Releases a parcel: the log holds its initial state, and it ascends
    /// only if it rises.
    pub fn new(initial_state: S, keys: &StateKeys) -> (dynamics: Self)
        ensures
            dynamics.wf(),
            dynamics.log() == seq![initial_state],
            dynamics.regime() == initial_regime(*keys),
    {
        let mut parcel_log: Vec<S> = Vec::new();
        parcel_log.push(initial_state);
        RungeKuttaDynamics { regime: classify_initial(keys), parcel_log }
    }

    /// Hands in the trial state that a step from the last logged state gave,
    /// with its keys. The trial state is logged if it is accepted; the
    /// regime changes as the transition says.
    pub fn advance(&mut self, trial: S, keys: &StateKeys) -> (action: Action)
        requires
            old(self).wf(),
        ensures
            final(self).wf(),
            (final(self).regime(), action) == transition(old(self).regime(), *keys),
            final(self).log() == logged(old(self).log(), trial, action),
    {
        let (next, action) = classify(self.regime, keys);
        self.regime = next;
        match action {
            Action::Accept => {
                self.parcel_log.push(trial);
            },
            _ => {},
        }
        action
    }

    /// Tells the regime of the ascent.
    pub fn current_regime(&self) -> (regime: Regime)
        ensures
            regime == self.regime(),
    {
        self.regime
    }

    /// The last logged state, from which the next step starts.
    pub fn last_state(&self) -> (state: &S)
        requires
            self.wf(),
        ensures
            self.log().len() >= 1,
            *state == self.log().last(),
    {
        &self.parcel_log[self.parcel_log.len() - 1]
    }

    /// The trajectory log, the state at release first.
    pub fn parcel_log(&self) -> (log: &[S])
        ensures
            log@ == self.log(),
            self.wf() ==> log@.len() >= 1,
    {
        self.parcel_log.as_slice()
    }
}

/// Once the ascent is over, no trial state changes regime or log.
pub proof fn lemma_finished_stays<S>(log: Seq<S>, trials: Seq<(S, StateKeys)>)
    ensures
        after_trials(Regime::Finished, log, trials) == (Regime::Finished, log),
    decreases trials.len(),
{
    if trials.len() > 0 {
        lemma_finished_stays(log, trials.drop_last());
    }
}

/// A parcel released without upward velocity does not ascend: whatever
/// trial states are handed in, its trajectory log keeps the length one.
pub proof fn lemma_no_ascent_without_velocity<S>(
    initial_state: S,
    keys: StateKeys,
    trials: Seq<(S, StateKeys)>,
)
    requires
        !keys.rising(),
    ensures
        after_trials(initial_regime(keys), seq![initial_state], trials).1 == seq![initial_state],
        after_trials(initial_regime(keys), seq![initial_state], trials).1.len() == 1,
        after_trials(initial_regime(keys), seq![initial_state], trials).0 == Regime::Finished,
{
    lemma_finished_stays(seq![initial_state], trials);
}

/// The trajectory log is append-only: after any run of trial states the
/// earlier log is the beginning of the later one.
pub proof fn lemma_log_append_only<S>(regime: Regime, log: Seq<S>, trials: Seq<(S, StateKeys)>)
    ensures
        log.is_prefix_of(after_trials(regime, log, trials).1),
        after_trials(regime, log, trials).1.len() <= log.len() + trials.len(),
    decreases trials.len(),
{
    if trials.len() > 0 {
        lemma_log_append_only(regime, log, trials.drop_last());
    }
}

/// Every logged state but the first belongs to a rising parcel: a trial
/// state is accepted only while the parcel rises.
pub proof fn lemma_accepted_rises(regime: Regime, keys: StateKeys)
    ensures
        transition(regime, keys).1 == Action::Accept ==> keys.rising(),
        !keys.rising() ==> transition(regime, keys) == (Regime::Finished, Action::Stop),
{
}

} // verus!
