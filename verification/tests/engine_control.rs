use asteria::engine_control::{
    check_curve_length, curve_can_be_followed, detection_step, meets_detection_target,
    thrust_curve_step, CurveStep, DetectionEvent, DetectionState, DetectionStep,
};

#[test]
fn curve_length_is_limited_to_25_points() {
    assert!(check_curve_length(0).is_ok());
    assert!(check_curve_length(25).is_ok());
    assert_eq!(
        check_curve_length(26).unwrap_err(),
        "Thrust curve length exceeds maximum of 25 points"
    );
    assert!(!curve_can_be_followed(1));
    assert!(curve_can_be_followed(2));
}

#[test]
fn thrust_curve_steps() {
    let times = [0u32, 1000, 2500];
    assert_eq!(thrust_curve_step(&times, 0, 10, true, false), CurveStep::Failed);
    assert_eq!(thrust_curve_step(&times, 0, 10, false, true), CurveStep::Failed);
    assert_eq!(thrust_curve_step(&times, 0, 999, false, false), CurveStep::Continue);
    assert_eq!(thrust_curve_step(&times, 0, 1000, false, false), CurveStep::NextSegment(1));
    assert_eq!(thrust_curve_step(&times, 1, 2000, false, false), CurveStep::Continue);
    assert_eq!(thrust_curve_step(&times, 1, 2600, false, false), CurveStep::Succeeded);
}

#[test]
fn detection_needs_the_target_held_for_50_ms() {
    assert!(meets_detection_target(true, true, false));
    assert!(!meets_detection_target(true, false, true));
    assert!(meets_detection_target(false, false, true));
    let on = |now_ms| DetectionEvent::Reading { meets_target: true, now_ms };
    let s = detection_step(DetectionState::Idle, on(100));
    assert_eq!(s, DetectionStep::Wait(DetectionState::Running(100)));
    assert_eq!(
        detection_step(DetectionState::Running(100), on(149)),
        DetectionStep::Wait(DetectionState::Running(100))
    );
    assert_eq!(detection_step(DetectionState::Running(100), on(150)), DetectionStep::Succeeded);
    assert_eq!(
        detection_step(
            DetectionState::Running(100),
            DetectionEvent::Reading { meets_target: false, now_ms: 200 }
        ),
        DetectionStep::Wait(DetectionState::Idle)
    );
    assert_eq!(
        detection_step(DetectionState::Running(100), DetectionEvent::Aborted),
        DetectionStep::Failed { raise_abort: false }
    );
    assert_eq!(
        detection_step(DetectionState::Idle, DetectionEvent::SensorTimeout),
        DetectionStep::Failed { raise_abort: true }
    );
    assert_eq!(
        detection_step(DetectionState::Idle, DetectionEvent::PatienceExpired),
        DetectionStep::Failed { raise_abort: true }
    );
}
