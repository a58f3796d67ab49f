use asteria::dpr::{
    state_after_command, state_after_pressure, state_after_step, state_label, step_action,
    fuel_loop_after_command, fuel_loop_regulates, fuel_loop_start, fuel_safety_step,
    pressurization_step, DprCommand, DprLoopState, DprStepAction, FuelLoopState,
    PressurizationStep, SafetyAnnouncement, ValveLoop,
};
use asteria::engine_sensors::{keller_round_status, SensorStatus};

#[test]
fn commands_set_the_loop_state() {
    assert_eq!(state_after_command(DprCommand::Enabled), DprLoopState::ActiveNominal);
    assert_eq!(state_after_command(DprCommand::Disabled), DprLoopState::Passive);
}

#[test]
fn overpressure_hysteresis() {
    assert_eq!(
        state_after_pressure(DprLoopState::ActiveNominal, true, false),
        (DprLoopState::ActiveOverPressure, true)
    );
    assert_eq!(
        state_after_pressure(DprLoopState::ActiveNominal, false, true),
        (DprLoopState::ActiveNominal, false)
    );
    assert_eq!(
        state_after_pressure(DprLoopState::ActiveOverPressure, false, true),
        (DprLoopState::ActiveNominal, true)
    );
    assert_eq!(
        state_after_pressure(DprLoopState::ActiveOverPressure, false, false),
        (DprLoopState::ActiveOverPressure, false)
    );
    assert_eq!(state_after_pressure(DprLoopState::Passive, true, false), (DprLoopState::Passive, false));
}

#[test]
fn step_actions_and_labels() {
    assert_eq!(step_action(DprLoopState::ActiveNominal, true), DprStepAction::TestOpening);
    assert_eq!(step_action(DprLoopState::ActiveNominal, false), DprStepAction::Regulate);
    assert_eq!(step_action(DprLoopState::ActiveOverPressure, false), DprStepAction::Idle);
    assert_eq!(step_action(DprLoopState::Passive, true), DprStepAction::Idle);
    assert_eq!(state_label(DprLoopState::ActiveOverPressure), "ActiveOverPressure");
    assert_eq!(state_label(DprLoopState::Passive), "Passive");
}

#[test]
fn an_opening_test_ends_passive() {
    assert_eq!(
        state_after_step(DprLoopState::ActiveNominal, true),
        (DprLoopState::Passive, true)
    );
    assert_eq!(
        state_after_step(DprLoopState::ActiveNominal, false),
        (DprLoopState::ActiveNominal, false)
    );
    assert_eq!(
        state_after_step(DprLoopState::ActiveOverPressure, true),
        (DprLoopState::ActiveOverPressure, false)
    );
    assert_eq!(state_after_step(DprLoopState::Passive, true), (DprLoopState::Passive, false));
}

#[test]
fn fuel_loop_safety_latch() {
    let s = fuel_loop_start();
    assert_eq!(s, FuelLoopState { loop_state: ValveLoop::Inactive, safety_latched: false });
    let s = fuel_loop_after_command(s, DprCommand::Enabled);
    assert!(fuel_loop_regulates(s));
    let (s, a) = fuel_safety_step(s, true);
    assert_eq!(a, SafetyAnnouncement::Disabled);
    assert_eq!(s, FuelLoopState { loop_state: ValveLoop::Inactive, safety_latched: true });
    assert!(!fuel_loop_regulates(s));
    let (s2, a2) = fuel_safety_step(s, true);
    assert_eq!((s2, a2), (s, SafetyAnnouncement::Disabled));
    let (s, a) = fuel_safety_step(s, false);
    assert_eq!(a, SafetyAnnouncement::Reenabled);
    assert_eq!(s, FuelLoopState { loop_state: ValveLoop::Active, safety_latched: false });
    let (s3, a3) = fuel_safety_step(s, false);
    assert_eq!((s3, a3), (s, SafetyAnnouncement::Nothing));
    let off = fuel_loop_after_command(s, DprCommand::Disabled);
    assert_eq!(fuel_safety_step(off, false), (off, SafetyAnnouncement::Nothing));
}

#[test]
fn pressurization_steps() {
    assert_eq!(pressurization_step(true, true), PressurizationStep::Abort);
    assert_eq!(pressurization_step(false, true), PressurizationStep::Reached);
    assert_eq!(pressurization_step(false, false), PressurizationStep::Open);
}

#[test]
fn keller_bus_goes_offline_on_any_failed_read() {
    assert_eq!(keller_round_status(true, true, true), SensorStatus::Online);
    assert_eq!(keller_round_status(true, false, true), SensorStatus::Offline);
    assert_eq!(keller_round_status(false, true, true), SensorStatus::Offline);
    assert_eq!(keller_round_status(true, true, false), SensorStatus::Offline);
}
