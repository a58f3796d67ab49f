//! The backplane's readout decisions: which power source is active, and which rail readings
//! are worth publishing.
use vstd::prelude::*;

verus! {

/// The power source that feeds the backplane.
#[derive(Debug, Clone, Copy, PartialEq, Eq, Structural)]
pub enum PowerSource {
    /// External power is present (it takes precedence over the battery).
    External,
    /// Only the battery is present.
    Battery,
    /// Neither input is present.
    Absent,
}

/// The active power source from the levels of the battery and external-power inputs: external
/// power when its input is high, else the battery when its input is high, else none.
pub fn active_power_source(battery_high: bool, external_high: bool) -> (r: PowerSource)
    ensures
        r == (if external_high {
            PowerSource::External
        } else if battery_high {
            PowerSource::Battery
        } else {
            PowerSource::Absent
        }),
{
    if external_high {
        PowerSource::External
    } else if battery_high {
        PowerSource::Battery
    } else {
        PowerSource::Absent
    }
}

/// One rail's status in register counts (bus voltage, signed current, power).
#[derive(Debug, Clone, Copy, PartialEq, Eq, Structural)]
pub struct RailCounts {
    pub voltage: u16,
    pub current: i16,
    pub power: u16,
}

/// The status to publish after reading a rail's three measurements, each `None` when its read
/// failed: nothing when all three failed, else the readings with a failed one counted as zero.
pub fn rail_status(voltage: Option<u16>, current: Option<i16>, power: Option<u16>) -> (r: Option<
    RailCounts,
>)
    ensures
        r is None <==> (voltage is None && current is None && power is None),
        r matches Some(s) ==> {
            &&& s.voltage == (match voltage {
                Some(v) => v,
                None => 0,
            })
            &&& s.current == (match current {
                Some(c) => c,
                None => 0,
            })
            &&& s.power == (match power {
                Some(p) => p,
                None => 0,
            })
        },
{
    if voltage.is_none() && current.is_none() && power.is_none() {
        return None;
    }
    let v = match voltage {
        Some(v) => v,
        None => 0,
    };
    let c = match current {
        Some(c) => c,
        None => 0,
    };
    let p = match power {
        Some(p) => p,
        None => 0,
    };
    Some(RailCounts { voltage: v, current: c, power: p })
}

} // verus!
