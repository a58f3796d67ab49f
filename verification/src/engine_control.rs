//! The engine board's control decisions: accepting a thrust curve, stepping along it while
//! following it, and detecting that a sensor has reached its target.
use vstd::prelude::*;

verus! {

/// The most points a thrust curve can have.
pub const MAX_CURVE_POINTS: u8 = 25;

/// How long a sensor must stay at its target before the detection counts, in milliseconds.
pub const DETECTION_HOLD_MS: u64 = 50;

/// The error of a thrust curve with more than `MAX_CURVE_POINTS` points.
pub open spec fn curve_too_long_message() -> Seq<char> {
    "Thrust curve length exceeds maximum of 25 points"@
}

/// A thrust curve configuration is accepted when it has at most `MAX_CURVE_POINTS` points.
pub fn check_curve_length(length: u8) -> (r: Result<(), &'static str>)
    ensures
        length <= MAX_CURVE_POINTS ==> r is Ok,
        length > MAX_CURVE_POINTS ==> (r matches Err(m) && m@ == curve_too_long_message()),
{
    if length > MAX_CURVE_POINTS {
        return Err("Thrust curve length exceeds maximum of 25 points");
    }
    Ok(())
}

/// Whether a curve of `length` points can be followed: it needs a segment, so two points.
pub fn curve_can_be_followed(length: usize) -> (r: bool)
    ensures
        r == (length >= 2),
{
    length >= 2
}

/// What following a thrust curve does after one control cycle.
#[derive(Debug, Clone, Copy, PartialEq, Eq, Structural)]
pub enum CurveStep {
    /// An abort arrived or the injector pressures did not come in time: stop, failed.
    Failed,
    /// The last point's time is reached: stop, successful.
    Succeeded,
    /// Move on to the segment that starts at this point.
    NextSegment(usize),
    /// Stay on the current segment.
    Continue,
}

/// One cycle of following a thrust curve whose points are at `times` (ms from the start), on
/// the segment from point `segment` to the next, `elapsed_ms` after the start.
///
/// An abort fails first, then a missing pressure reading; otherwise, once the segment's end
/// time is reached, the curve moves to the next segment, or succeeds when that end was the
/// last point.
pub fn thrust_curve_step(
    times: &[u32],
    segment: usize,
    elapsed_ms: u32,
    aborted: bool,
    timed_out: bool,
) -> (r: CurveStep)
    requires
        segment + 1 < times@.len(),
    ensures
        aborted ==> r == CurveStep::Failed,
        !aborted && timed_out ==> r == CurveStep::Failed,
        !aborted && !timed_out && elapsed_ms < times@[segment + 1] ==> r == CurveStep::Continue,
        !aborted && !timed_out && elapsed_ms >= times@[segment + 1] && segment + 2
            < times@.len() ==> r == CurveStep::NextSegment((segment + 1) as usize),
        !aborted && !timed_out && elapsed_ms >= times@[segment + 1] && segment + 2
            == times@.len() ==> r == CurveStep::Succeeded,
        r matches CurveStep::NextSegment(n) ==> n + 1 < times@.len(),
{
    let n = times.len();
    if aborted || timed_out {
        return CurveStep::Failed;
    }
    if elapsed_ms >= times[segment + 1] {
        if segment + 1 < n - 1 {
            CurveStep::NextSegment(segment + 1)
        } else {
            CurveStep::Succeeded
        }
    } else {
        CurveStep::Continue
    }
}

/// Whether a reading meets a detection's target: at or above it for a rising detection, at
/// or below it for a falling one.
pub fn meets_detection_target(increasing: bool, at_or_above: bool, at_or_below: bool) -> (r: bool)
    ensures
        r == ((increasing && at_or_above) || (!increasing && at_or_below)),
{
    (increasing && at_or_above) || (!increasing && at_or_below)
}

/// Where a detection stands.
#[derive(Debug, Clone, Copy, PartialEq, Eq, Structural)]
pub enum DetectionState {
    /// The sensor is not at its target.
    Idle,
    /// The sensor has been at its target since this time (ms).
    Running(u64),
}

/// What happened since the last detection step.
#[derive(Debug, Clone, Copy, PartialEq, Eq, Structural)]
pub enum DetectionEvent {
    /// An abort was initiated.
    Aborted,
    /// No sensor reading came within the sensor timeout.
    SensorTimeout,
    /// The detection's patience ran out.
    PatienceExpired,
    /// A reading came at `now_ms`; `meets_target` tells whether it is at the target.
    Reading { meets_target: bool, now_ms: u64 },
}

/// The outcome of a detection step.
#[derive(Debug, Clone, Copy, PartialEq, Eq, Structural)]
pub enum DetectionStep {
    /// Keep waiting in this state.
    Wait(DetectionState),
    /// The target was held long enough.
    Succeeded,
    /// The detection failed; `raise_abort` tells whether it initiates an abort itself.
    Failed { raise_abort: bool },
}

/// The time from `start` to `now`, or 0 when `now` is earlier.
pub open spec fn held_for(start: u64, now: u64) -> int {
    if now >= start {
        now - start
    } else {
        0
    }
}

/// The next step of a detection.
pub open spec fn detection_transition(state: DetectionState, event: DetectionEvent) -> DetectionStep {
    match event {
        DetectionEvent::Aborted => DetectionStep::Failed { raise_abort: false },
        DetectionEvent::SensorTimeout => DetectionStep::Failed { raise_abort: true },
        DetectionEvent::PatienceExpired => DetectionStep::Failed { raise_abort: true },
        DetectionEvent::Reading { meets_target, now_ms } => if !meets_target {
            DetectionStep::Wait(DetectionState::Idle)
        } else {
            match state {
                DetectionState::Idle => DetectionStep::Wait(DetectionState::Running(now_ms)),
                DetectionState::Running(start) => if held_for(start, now_ms) >= DETECTION_HOLD_MS {
                    DetectionStep::Succeeded
                } else {
                    DetectionStep::Wait(DetectionState::Running(start))
                },
            }
        },
    }
}

/// One step of a detection: an abort fails it; a sensor timeout or the end of its patience
/// fails it and initiates an abort; a reading off target makes it idle; the first reading on
/// target starts the hold time, and a later one on target succeeds once the target has been
/// held for `DETECTION_HOLD_MS`.
pub fn detection_step(state: DetectionState, event: DetectionEvent) -> (r: DetectionStep)
    ensures
        r == detection_transition(state, event),
{
    match event {
        DetectionEvent::Aborted => DetectionStep::Failed { raise_abort: false },
        DetectionEvent::SensorTimeout => DetectionStep::Failed { raise_abort: true },
        DetectionEvent::PatienceExpired => DetectionStep::Failed { raise_abort: true },
        DetectionEvent::Reading { meets_target, now_ms } => {
            if !meets_target {
                DetectionStep::Wait(DetectionState::Idle)
            } else {
                match state {
                    DetectionState::Idle => DetectionStep::Wait(DetectionState::Running(now_ms)),
                    DetectionState::Running(start) => {
                        let held: u64 = if now_ms >= start {
                            now_ms - start
                        } else {
                            0
                        };
                        if held >= DETECTION_HOLD_MS {
                            DetectionStep::Succeeded
                        } else {
                            DetectionStep::Wait(DetectionState::Running(start))
                        }
                    },
                }
            }
        },
    }
}

/// How a detection ends: whatever state it is in, an abort fails it without initiating another
/// abort, and a sensor timeout or the end of its patience fails it and initiates an abort. A
/// reading on target succeeds exactly when the target has been held for 50 ms since the hold
/// started; before that the hold goes on from the same start, and from `Idle` the hold starts
/// at the reading's time.
pub proof fn lemma_detection_outcomes(state: DetectionState, start: u64, now: u64)
    ensures
        detection_transition(state, DetectionEvent::Aborted) == (DetectionStep::Failed {
            raise_abort: false,
        }),
        detection_transition(state, DetectionEvent::SensorTimeout) == (DetectionStep::Failed {
            raise_abort: true,
        }),
        detection_transition(state, DetectionEvent::PatienceExpired) == (DetectionStep::Failed {
            raise_abort: true,
        }),
        now >= start + 50 ==> detection_transition(
            DetectionState::Running(start),
            (DetectionEvent::Reading { meets_target: true, now_ms: now }),
        ) == DetectionStep::Succeeded,
        start <= now < start + 50 ==> detection_transition(
            DetectionState::Running(start),
            (DetectionEvent::Reading { meets_target: true, now_ms: now }),
        ) == DetectionStep::Wait(DetectionState::Running(start)),
        detection_transition(
            DetectionState::Idle,
            (DetectionEvent::Reading { meets_target: true, now_ms: now }),
        ) == DetectionStep::Wait(DetectionState::Running(now)),
{
}

/// A detection never succeeds on the reading that starts its hold time: from `Idle`, at least
/// two readings on target are needed; and any reading off target sends it back to `Idle`.
pub proof fn lemma_detection_needs_a_held_target(state: DetectionState, event: DetectionEvent)
    ensures
        state == DetectionState::Idle ==> detection_transition(state, event)
            != DetectionStep::Succeeded,
        (event matches DetectionEvent::Reading { meets_target, .. } && !meets_target)
            ==> detection_transition(state, event) == DetectionStep::Wait(DetectionState::Idle),
{
}

} // verus!
