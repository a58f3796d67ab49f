//! The engine board's pressure-sensor bus: whether a round of readings leaves the bus online.
use vstd::prelude::*;

verus! {

/// The state of a sensor bus as the board reports it.
#[derive(Debug, Clone, Copy, PartialEq, Eq, Structural)]
pub enum SensorStatus {
    Online,
    Offline,
}

/// The bus status after one round of the three Keller sensors (chamber, fuel injector,
/// oxidizer injector), each read `true` when it succeeded: offline as soon as any read failed.
pub fn keller_round_status(chamber_ok: bool, fuel_ok: bool, oxidizer_ok: bool) -> (r:
    SensorStatus)
    ensures
        r == (if chamber_ok && fuel_ok && oxidizer_ok {
            SensorStatus::Online
        } else {
            SensorStatus::Offline
        }),
{
    if chamber_ok && fuel_ok && oxidizer_ok {
        SensorStatus::Online
    } else {
        SensorStatus::Offline
    }
}

} // verus!
