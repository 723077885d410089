//! The registration of a series with the finder.

use vstd::prelude::*;

verus! {

/// How many times a cooldown window answers before it closes.
pub const COOLDOWN_TICKS: u32 = 3600;

/// The pause between two answers of a cooldown window, in milliseconds.
pub const COOLDOWN_INTERVAL_MILLIS: u64 = 100;

/// How many answers a broadcast channel of the finder keeps for a slow
/// receiver.
pub const BROADCAST_CAPACITY: usize = 1024;

/// What a registered series is in.
#[derive(Clone, Copy, Debug, PartialEq, Eq, Structural)]
pub enum Phase {
    /// The accounts are being scanned.
    Scanning,
    /// The scan is over and repeat calls are answered with `false`.
    Cooldown,
}

/// A series for which a scan, or the cooldown window behind it, is live.
#[derive(Clone, Copy, Debug, PartialEq, Eq, Structural)]
pub struct Registration {
    pub phase: Phase,
    /// The scan has broadcast its positive answer.
    pub announced: bool,
    /// The answers that the cooldown window has given.
    pub ticks: u32,
    /// The callers that wait for the next broadcast.
    pub waiting: u64,
}

impl Registration {
    /// A registration is either a scan that has not ticked, or a window
    /// that has not yet given its last answer.
    pub open spec fn valid(self) -> bool {
        match self.phase {
            Phase::Scanning => self.ticks == 0,
            Phase::Cooldown => self.ticks < COOLDOWN_TICKS,
        }
    }
}

} // verus!
