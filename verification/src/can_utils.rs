//! CAN helpers: the collector interface, the throttling decision of the responsive broadcast
//! loop, and the transmit/receive errors.
use vstd::prelude::*;

verus! {

/// A type that can't be constructed: a function that returns it cannot return.
pub struct NeverReturns {
    never: core::convert::Infallible,
}

/// Broadcast strategy that sends new values as they arrive, at most once per throttle
/// period, and resends the latest value when none arrived within the resend period.
pub struct ResponsiveLoop;

/// The time from `last_sent` to `now`, or 0 when `now` is earlier.
pub open spec fn since_or_zero(now: u64, last_sent: u64) -> int {
    if now >= last_sent {
        now - last_sent
    } else {
        0
    }
}

impl ResponsiveLoop {
    /// Whether a new message may go out at `now`: when at least `throttle_period` has passed
    /// since the last message that was sent (all three in the same time unit).
    pub fn should_send(now: u64, last_sent: u64, throttle_period: u64) -> (r: bool)
        ensures
            r == (since_or_zero(now, last_sent) >= throttle_period),
    {
        let since: u64 = if now >= last_sent {
            now - last_sent
        } else {
            0
        };
        since >= throttle_period
    }

    /// The time of the last sent message after a transmission attempt at `now`: it moves to
    /// `now` only when the transmission succeeded.
    pub fn last_sent_after(last_sent: u64, now: u64, transmitted: bool) -> (r: u64)
        ensures
            r == (if transmitted {
                now
            } else {
                last_sent
            }),
    {
        if transmitted {
            now
        } else {
            last_sent
        }
    }
}

/// After a message went out at `sent`, the loop sends again at a time `later` (not before
/// `sent`) exactly when a whole throttle period has passed: messages are at least one period
/// apart.
pub proof fn lemma_throttle_spacing(sent: u64, later: u64, period: u64)
    requires
        later >= sent,
    ensures
        (since_or_zero(later, sent) >= period) <==> (later >= sent + period),
{
}

/// A store of messages of type `T`: `update_from` keeps a message it handles and hands back
/// one it does not, so that collectors can be chained.
pub trait Collector<T> {
    fn update_from(&self, msg: T) -> Result<(), T>;
}

/// Errors of a CAN transmission.
#[derive(Debug, Clone, Copy, PartialEq, Eq, Structural)]
pub enum TxError {
    /// The message could not be encoded.
    Encode,
    /// Unreachable by construction.
    Bug,
}

impl TxError {
    /// The description of the error.
    pub fn message(&self) -> (r: &'static str)
        ensures
            r@ == (match *self {
                TxError::Encode => "Encoding CAN message failed"@,
                TxError::Bug => "Bug in this implementation, should be unreachable"@,
            }),
    {
        match self {
            TxError::Encode => "Encoding CAN message failed",
            TxError::Bug => "Bug in this implementation, should be unreachable",
        }
    }
}

/// Errors of a CAN reception, with the bus's error type `B`.
#[derive(Debug)]
pub enum RxError<B> {
    /// The bus reported an error.
    Bus(B),
    /// The frame did not decode into a message.
    Decode,
    /// Unreachable by construction (an extended identifier).
    Bug,
}

impl<B> RxError<B> {
    /// The description of the error.
    pub fn message(&self) -> (r: &'static str)
        ensures
            r@ == (match *self {
                RxError::Bus(_) => "CAN bus error"@,
                RxError::Decode => "Decoding CAN message failed"@,
                RxError::Bug => "Bug in the system, should be unreachable"@,
            }),
    {
        match self {
            RxError::Bus(_) => "CAN bus error",
            RxError::Decode => "Decoding CAN message failed",
            RxError::Bug => "Bug in the system, should be unreachable",
        }
    }
}

} // verus!
