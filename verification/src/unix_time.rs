//! Absolute (Unix) time on the board: a clock tied once to a monotonic instant, and
//! timestamps in microseconds since the epoch.
use vstd::prelude::*;

verus! {

/// Microseconds since the Unix epoch.
#[derive(Debug, Copy, Clone, PartialEq, Eq, Structural, PartialOrd, Ord)]
pub struct UnixTime {
    micros: u64,
}

/// The reference point of the UTC clock: an absolute time and the monotonic instant
/// (in timer ticks) at which it held.
#[derive(Debug, Copy, Clone, PartialEq, Eq, Structural)]
pub struct ClockBase {
    pub base_micros: u64,
    pub instant_ticks: u64,
}

/// The board's UTC clock: unset until the first initialisation, which later ones never
/// change.
#[derive(Debug, Copy, Clone, PartialEq, Eq, Structural)]
pub struct UtcClock {
    base: Option<ClockBase>,
}

/// The reference point after an initialisation with `b`: the earlier one when there is one.
pub open spec fn after_init(base: Option<ClockBase>, b: ClockBase) -> Option<ClockBase> {
    match base {
        Some(old) => Some(old),
        None => Some(b),
    }
}

impl UtcClock {
    /// The reference point, once set.
    pub closed spec fn base_of(&self) -> Option<ClockBase> {
        self.base
    }

    /// A clock that has not been initialised.
    pub fn new() -> (c: UtcClock)
        ensures
            c.base_of() is None,
    {
        UtcClock { base: None }
    }

    /// Ties the clock to `base_micros` at the monotonic instant `instant_ticks`; a clock that is
    /// already set stays as it is.
    pub fn init(&mut self, base_micros: u64, instant_ticks: u64)
        ensures
            final(self).base_of() == after_init(
                old(self).base_of(),
                ClockBase { base_micros, instant_ticks },
            ),
    {
        if self.base.is_none() {
            self.base = Some(ClockBase { base_micros, instant_ticks });
        }
    }

    /// The reference point, once set.
    pub fn base(&self) -> (r: Option<ClockBase>)
        ensures
            r == self.base_of(),
    {
        self.base
    }
}

/// Initialising the clock is idempotent: after a first initialisation, a second one changes
/// nothing, whatever its arguments, and the clock counts as initialised.
pub proof fn lemma_clock_init_idempotent(
    base: Option<ClockBase>,
    first: ClockBase,
    second: ClockBase,
)
    ensures
        after_init(after_init(base, first), second) == after_init(base, first),
        after_init(base, first) is Some,
{
}

impl UnixTime {
    /// The microseconds since the epoch.
    pub closed spec fn micros_of(&self) -> u64 {
        self.micros
    }

    /// A timestamp is its count of microseconds: two timestamps are equal exactly when their
    /// counts are.
    pub proof fn lemma_micros_identify(t1: UnixTime, t2: UnixTime)
        ensures
            (t1 == t2) <==> (t1.micros_of() == t2.micros_of()),
    {
    }

    /// The timestamp `micros` microseconds after the epoch.
    pub fn from_micros(micros: u64) -> (t: UnixTime)
        ensures
            t.micros_of() == micros,
    {
        UnixTime { micros }
    }

    /// Whether the clock has been initialised.
    pub fn is_initialised(clock: &UtcClock) -> (r: bool)
        ensures
            r == clock.base_of() is Some,
    {
        clock.base.is_some()
    }

    /// The current time, `elapsed_micros` after the clock's reference instant; `None` while the
    /// clock is not initialised. The sum must fit in 64 bits.
    pub fn now(clock: &UtcClock, elapsed_micros: u64) -> (r: Option<UnixTime>)
        requires
            clock.base_of() matches Some(b) ==> b.base_micros + elapsed_micros <= u64::MAX,
        ensures
            r is Some <==> clock.base_of() is Some,
            r matches Some(t) ==> t.micros_of() == clock.base_of()->0.base_micros + elapsed_micros,
    {
        match clock.base {
            Some(b) => Some(UnixTime { micros: b.base_micros + elapsed_micros }),
            None => None,
        }
    }

    /// Microseconds from `earlier` to `self`, or 0 when `earlier` is not before `self`.
    pub fn saturating_micros_since(&self, earlier: &UnixTime) -> (r: u64)
        ensures
            r == (if self.micros_of() > earlier.micros_of() {
                (self.micros_of() - earlier.micros_of()) as u64
            } else {
                0
            }),
    {
        self.micros.saturating_sub(earlier.micros)
    }

    /// Microseconds since the epoch.
    pub fn as_micros(&self) -> (r: u64)
        ensures
            r == self.micros_of(),
    {
        self.micros
    }

    /// Whole milliseconds since the epoch.
    pub fn as_millis(&self) -> (r: u64)
        ensures
            r == self.micros_of() / 1000,
    {
        self.micros / 1_000
    }

    /// Whole seconds since the epoch.
    pub fn as_secs(&self) -> (r: u64)
        ensures
            r == self.micros_of() / 1_000_000,
    {
        self.micros / 1_000_000
    }

    /// Whether `self` is strictly later than `other`.
    pub fn is_after(&self, other: &Self) -> (r: bool)
        ensures
            r == (self.micros_of() > other.micros_of()),
    {
        self.micros > other.micros
    }
}

} // verus!
