//! Low Power Mode, read once at startup and kept current by the application. A flight is not worth
//! its cost on battery saver.
use vstd::prelude::*;

verus! {

/// Whether the machine saves power.
#[derive(Clone, Copy, Debug, PartialEq, Eq, Structural)]
pub struct PowerState {
    pub low_power: bool,
}

impl Default for PowerState {
    fn default() -> (state: Self)
        ensures
            !state.low_power,
    {
        PowerState { low_power: false }
    }
}

pub fn is_low_power_mode_enabled(state: &PowerState) -> (enabled: bool)
    ensures
        enabled == state.low_power,
{
    state.low_power
}

/// Takes the state in, and gives the one before.
pub fn set_low_power_mode_state(state: &mut PowerState, new_state: bool) -> (before: bool)
    ensures
        before == old(state).low_power,
        *final(state) == (PowerState { low_power: new_state }),
{
    let before = state.low_power;
    state.low_power = new_state;
    before
}

/// Starts from what the system says.
pub fn init_power_state(state: &mut PowerState, is_low_power: bool)
    ensures
        *final(state) == (PowerState { low_power: is_low_power }),
{
    state.low_power = is_low_power;
}

/// What is asked is what was last set, and setting gives what was there before.
pub proof fn the_last_state_set_is_asked(
    state: &mut PowerState,
    new_state: bool,
    before: bool,
    now: bool,
)
    requires
        call_ensures(set_low_power_mode_state, (state, new_state), before),
        call_ensures(is_low_power_mode_enabled, (&*final(state),), now),
    ensures
        now == new_state,
        before == old(state).low_power,
{
}

/// The first state is what the system says.
pub proof fn the_first_state_is_the_systems(
    state: &mut PowerState,
    is_low_power: bool,
    done: (),
    now: bool,
)
    requires
        call_ensures(init_power_state, (state, is_low_power), done),
        call_ensures(is_low_power_mode_enabled, (&*final(state),), now),
    ensures
        now == is_low_power,
{
}

} // verus!
