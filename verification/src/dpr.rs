//! The pressure regulators' loop states: how commands, pressure readings against the safety
//! limit and the controller's limits move the dome regulator between its states, and the fuel
//! board's loop with its safety latch and pressurization runs.

use vstd::prelude::*;

verus! {

/// The state of the regulator loop.
#[derive(Debug, Clone, Copy, PartialEq, Eq, Structural)]
pub enum DprLoopState {
    /// The valve stays closed.
    Passive,
    /// The loop regulates towards the setpoint.
    ActiveNominal,
    /// Active, but the pressure is above the safety limit.
    ActiveOverPressure,
}

/// A command to the regulator (the setpoint itself stays with the controller).
#[derive(Debug, Clone, Copy, PartialEq, Eq, Structural)]
pub enum DprCommand {
    Enabled,
    Disabled,
}

/// What one loop step does.
#[derive(Debug, Clone, Copy, PartialEq, Eq, Structural)]
pub enum DprStepAction {
    /// Open the valve for the minimum time once, then go passive (the limits are inverted,
    /// which asks for an opening-time test).
    TestOpening,
    /// Open the valve for the time the controller computes.
    Regulate,
    /// Keep the valve closed.
    Idle,
}

/// The loop state after a command: enabling makes the loop active and nominal, disabling
/// makes it passive.
pub fn state_after_command(cmd: DprCommand) -> (r: DprLoopState)
    ensures
        r == (match cmd {
            DprCommand::Enabled => DprLoopState::ActiveNominal,
            DprCommand::Disabled => DprLoopState::Passive,
        }),
{
    match cmd {
        DprCommand::Enabled => DprLoopState::ActiveNominal,
        DprCommand::Disabled => DprLoopState::Passive,
    }
}

/// The loop state after a pressure reading and whether it changed: an active loop moves to
/// over-pressure when the reading is above the safety limit and back to nominal when it is
/// below; a passive loop stays passive.
pub open spec fn pressure_transition(state: DprLoopState, above_limit: bool, below_limit: bool) -> (
    DprLoopState,
    bool,
) {
    match state {
        DprLoopState::ActiveNominal => if above_limit {
            (DprLoopState::ActiveOverPressure, true)
        } else {
            (DprLoopState::ActiveNominal, false)
        },
        DprLoopState::ActiveOverPressure => if below_limit {
            (DprLoopState::ActiveNominal, true)
        } else {
            (DprLoopState::ActiveOverPressure, false)
        },
        DprLoopState::Passive => (DprLoopState::Passive, false),
    }
}

/// The loop state after a pressure reading, with whether it changed (and is to be reported).
pub fn state_after_pressure(state: DprLoopState, above_limit: bool, below_limit: bool) -> (r: (
    DprLoopState,
    bool,
))
    ensures
        r == pressure_transition(state, above_limit, below_limit),
{
    match state {
        DprLoopState::ActiveNominal => {
            if above_limit {
                (DprLoopState::ActiveOverPressure, true)
            } else {
                (DprLoopState::ActiveNominal, false)
            }
        },
        DprLoopState::ActiveOverPressure => {
            if below_limit {
                (DprLoopState::ActiveNominal, true)
            } else {
                (DprLoopState::ActiveOverPressure, false)
            }
        },
        DprLoopState::Passive => (DprLoopState::Passive, false),
    }
}

/// What a loop step does in `state`: an active, nominal loop tests the opening time when the
/// limits are inverted and regulates otherwise; any other state keeps the valve closed.
pub open spec fn step_action_of(state: DprLoopState, limits_inverted: bool) -> DprStepAction {
    match state {
        DprLoopState::ActiveNominal => if limits_inverted {
            DprStepAction::TestOpening
        } else {
            DprStepAction::Regulate
        },
        _ => DprStepAction::Idle,
    }
}

/// What a loop step does in `state`; `limits_inverted` tells whether the controller's maximum
/// opening time is below its minimum.
pub fn step_action(state: DprLoopState, limits_inverted: bool) -> (r: DprStepAction)
    ensures
        r == step_action_of(state, limits_inverted),
{
    match state {
        DprLoopState::ActiveNominal => {
            if limits_inverted {
                DprStepAction::TestOpening
            } else {
                DprStepAction::Regulate
            }
        },
        _ => DprStepAction::Idle,
    }
}

/// The loop state after a step in `state`, with whether it changed (and is to be reported):
/// an opening-time test leaves the loop passive; every other step keeps the state.
pub fn state_after_step(state: DprLoopState, limits_inverted: bool) -> (r: (DprLoopState, bool))
    ensures
        step_action_of(state, limits_inverted) == DprStepAction::TestOpening ==> r == (
            DprLoopState::Passive,
            true,
        ),
        step_action_of(state, limits_inverted) != DprStepAction::TestOpening ==> r == (state, false),
{
    match step_action(state, limits_inverted) {
        DprStepAction::TestOpening => (DprLoopState::Passive, true),
        _ => (state, false),
    }
}

/// The name of a loop state in the regulator's log line.
pub fn state_label(state: DprLoopState) -> (r: &'static str)
    ensures
        r@ == (match state {
            DprLoopState::ActiveNominal => "ActiveNominal"@,
            DprLoopState::ActiveOverPressure => "ActiveOverPressure"@,
            DprLoopState::Passive => "Passive"@,
        }),
{
    match state {
        DprLoopState::ActiveNominal => "ActiveNominal",
        DprLoopState::ActiveOverPressure => "ActiveOverPressure",
        DprLoopState::Passive => "Passive",
    }
}

// ---------------------------------------------------------------------------
// The fuel control board's regulator loop
// ---------------------------------------------------------------------------

/// Whether the fuel board's regulator loop drives the valve.
#[derive(Debug, Clone, Copy, PartialEq, Eq, Structural)]
pub enum ValveLoop {
    Active,
    Inactive,
}

/// The fuel board's loop state: whether it runs, and whether the safety limit switched it
/// off (so that a safe reading switches it on again).
#[derive(Debug, Clone, Copy, PartialEq, Eq, Structural)]
pub struct FuelLoopState {
    pub loop_state: ValveLoop,
    pub safety_latched: bool,
}

/// What the loop announces after the safety check.
#[derive(Debug, Clone, Copy, PartialEq, Eq, Structural)]
pub enum SafetyAnnouncement {
    /// Nothing changed.
    Nothing,
    /// The limit was exceeded: the loop is announced disabled and the buzzer signals an error.
    Disabled,
    /// The pressure is safe again after a latch: the loop is announced enabled again at the
    /// setpoint it had.
    Reenabled,
}

/// The state before the first cycle: inactive, no latch.
pub fn fuel_loop_start() -> (r: FuelLoopState)
    ensures
        r == (FuelLoopState { loop_state: ValveLoop::Inactive, safety_latched: false }),
{
    FuelLoopState { loop_state: ValveLoop::Inactive, safety_latched: false }
}

/// The state after a configuration command: enabling makes the loop active, disabling makes
/// it inactive; the latch stays as it was.
pub fn fuel_loop_after_command(state: FuelLoopState, cmd: DprCommand) -> (r: FuelLoopState)
    ensures
        r.safety_latched == state.safety_latched,
        r.loop_state == (match cmd {
            DprCommand::Enabled => ValveLoop::Active,
            DprCommand::Disabled => ValveLoop::Inactive,
        }),
{
    match cmd {
        DprCommand::Enabled => FuelLoopState { loop_state: ValveLoop::Active, ..state },
        DprCommand::Disabled => FuelLoopState { loop_state: ValveLoop::Inactive, ..state },
    }
}

/// The safety check of one cycle, `at_limit` telling whether the pressure is at or above the
/// safety limit: at the limit the loop goes inactive and latches; below it a latched loop is
/// released and becomes active again; otherwise nothing changes.
pub open spec fn fuel_safety_transition(state: FuelLoopState, at_limit: bool) -> (
    FuelLoopState,
    SafetyAnnouncement,
) {
    if at_limit {
        (
            FuelLoopState { loop_state: ValveLoop::Inactive, safety_latched: true },
            SafetyAnnouncement::Disabled,
        )
    } else if state.safety_latched {
        (
            FuelLoopState { loop_state: ValveLoop::Active, safety_latched: false },
            SafetyAnnouncement::Reenabled,
        )
    } else {
        (state, SafetyAnnouncement::Nothing)
    }
}

/// The safety check of one cycle (see `fuel_safety_transition`).
pub fn fuel_safety_step(state: FuelLoopState, at_limit: bool) -> (r: (
    FuelLoopState,
    SafetyAnnouncement,
))
    ensures
        r == fuel_safety_transition(state, at_limit),
{
    if at_limit {
        (
            FuelLoopState { loop_state: ValveLoop::Inactive, safety_latched: true },
            SafetyAnnouncement::Disabled,
        )
    } else if state.safety_latched {
        (
            FuelLoopState { loop_state: ValveLoop::Active, safety_latched: false },
            SafetyAnnouncement::Reenabled,
        )
    } else {
        (state, SafetyAnnouncement::Nothing)
    }
}

/// Whether the controller drives the valve this cycle; when it does not, the valve is closed
/// and the integral error cleared.
pub fn fuel_loop_regulates(state: FuelLoopState) -> (r: bool)
    ensures
        r == (state.loop_state == ValveLoop::Active),
{
    state.loop_state == ValveLoop::Active
}

/// One step of a pressurization run.
#[derive(Debug, Clone, Copy, PartialEq, Eq, Structural)]
pub enum PressurizationStep {
    /// An abort arrived: close the valve, wait, and end the run.
    Abort,
    /// The target is reached: enable the loop at the target and end the run.
    Reached,
    /// Open the valve for the proportional time, then let the pressure settle.
    Open,
}

/// What a pressurization run does next: an abort comes first, then reaching the target.
pub fn pressurization_step(abort_requested: bool, target_reached: bool) -> (r: PressurizationStep)
    ensures
        abort_requested ==> r == PressurizationStep::Abort,
        !abort_requested && target_reached ==> r == PressurizationStep::Reached,
        !abort_requested && !target_reached ==> r == PressurizationStep::Open,
{
    if abort_requested {
        PressurizationStep::Abort
    } else if target_reached {
        PressurizationStep::Reached
    } else {
        PressurizationStep::Open
    }
}

/// The safety limit always wins, and a latch costs only one cycle: whatever the state, a
/// reading at the limit leaves the loop inactive and latched, and a safe reading right after
/// it leaves the loop active and unlatched.
pub proof fn lemma_safety_latch_releases(state: FuelLoopState)
    ensures
        fuel_safety_transition(state, true).0 == (FuelLoopState {
            loop_state: ValveLoop::Inactive,
            safety_latched: true,
        }),
        fuel_safety_transition(fuel_safety_transition(state, true).0, false).0 == (FuelLoopState {
            loop_state: ValveLoop::Active,
            safety_latched: false,
        }),
{
}

/// Pressure readings never activate or deactivate the regulator, only commands do: a passive
/// loop stays passive whatever the pressure, and an active loop stays active.
pub proof fn lemma_pressure_keeps_activity(state: DprLoopState, above: bool, below: bool)
    ensures
        (pressure_transition(state, above, below).0 == DprLoopState::Passive) <==> (state
            == DprLoopState::Passive),
{
}


/// The safety limit's hysteresis: a nominal loop reading above the limit goes over-pressure
/// and reports it, an over-pressure loop reading below the limit goes back to nominal and
/// reports it, and otherwise a reading changes nothing.
pub proof fn lemma_overpressure_transitions(above: bool, below: bool)
    ensures
        pressure_transition(DprLoopState::ActiveNominal, true, below) == (
            DprLoopState::ActiveOverPressure,
            true,
        ),
        pressure_transition(DprLoopState::ActiveNominal, false, below) == (
            DprLoopState::ActiveNominal,
            false,
        ),
        pressure_transition(DprLoopState::ActiveOverPressure, above, true) == (
            DprLoopState::ActiveNominal,
            true,
        ),
        pressure_transition(DprLoopState::ActiveOverPressure, above, false) == (
            DprLoopState::ActiveOverPressure,
            false,
        ),
        pressure_transition(DprLoopState::Passive, above, below) == (DprLoopState::Passive, false),
{
}

} // verus!
