//! Link impairment: an artificial one-way latency and a loss probability,
//! both live-tunable per link, applied to every chunk (stream links) or
//! frame (packet links) that crosses the link.

use vstd::prelude::*;

verus! {

/// The largest latency a link can be given, in milliseconds.
pub const MAX_LATENCY_MS: u32 = 60_000;
/// The largest loss percentage.
pub const MAX_LOSS_PCT: u8 = 100;

/// The knobs of one link, kept within their limits.
#[derive(Clone, Copy, PartialEq, Eq, Debug, Structural)]
pub struct ImpairmentSettings {
    pub latency_ms: u32,
    pub loss_pct: u8,
}

pub open spec fn clamp_u32(x: u32, hi: u32) -> u32 {
    if x < hi { x } else { hi }
}

pub open spec fn clamp_u8(x: u8, hi: u8) -> u8 {
    if x < hi { x } else { hi }
}

impl ImpairmentSettings {
    pub open spec fn within_limits(self) -> bool {
        self.latency_ms <= MAX_LATENCY_MS && self.loss_pct <= MAX_LOSS_PCT
    }

    /// No latency, no loss.
    pub fn none() -> (s: Self)
        ensures
            s.latency_ms == 0,
            s.loss_pct == 0,
    {
        ImpairmentSettings { latency_ms: 0, loss_pct: 0 }
    }

    /// The settings asked for, each cut to its limit.
    pub fn clamped(latency_ms: u32, loss_pct: u8) -> (s: Self)
        ensures
            s.latency_ms == clamp_u32(latency_ms, MAX_LATENCY_MS),
            s.loss_pct == clamp_u8(loss_pct, MAX_LOSS_PCT),
            s.within_limits(),
    {
        ImpairmentSettings {
            latency_ms: if latency_ms < MAX_LATENCY_MS { latency_ms } else { MAX_LATENCY_MS },
            loss_pct: if loss_pct < MAX_LOSS_PCT { loss_pct } else { MAX_LOSS_PCT },
        }
    }
}

/// Is a unit dropped, given the loss percentage and a roll drawn uniformly
/// from 0 to 99 (a random fraction of 1 scaled by 100, rounded down)?
pub open spec fn spec_should_drop(loss_pct: u8, roll: u8) -> bool {
    loss_pct > 0 && roll < loss_pct
}

pub fn should_drop(loss_pct: u8, roll: u8) -> (d: bool)
    ensures
        d == spec_should_drop(loss_pct, roll),
{
    loss_pct > 0 && roll < loss_pct
}

/// What becomes of one unit crossing the link.
#[derive(Clone, Copy, PartialEq, Eq, Debug, Structural)]
pub enum UnitFate {
    /// The link closed while the unit was delayed: stop forwarding.
    Closed,
    /// The unit is lost.
    Dropped,
    /// The unit goes on.
    Forwarded,
}

/// The fate of a unit: the latency is waited out first (when there is any),
/// and a close during that wait ends the link; otherwise the roll decides.
pub open spec fn spec_unit_fate(s: ImpairmentSettings, closed_while_delayed: bool, roll: u8) -> UnitFate {
    if s.latency_ms > 0 && closed_while_delayed {
        UnitFate::Closed
    } else if spec_should_drop(s.loss_pct, roll) {
        UnitFate::Dropped
    } else {
        UnitFate::Forwarded
    }
}

pub fn unit_fate(s: &ImpairmentSettings, closed_while_delayed: bool, roll: u8) -> (f: UnitFate)
    ensures
        f == spec_unit_fate(*s, closed_while_delayed, roll),
{
    if s.latency_ms > 0 && closed_while_delayed {
        UnitFate::Closed
    } else if should_drop(s.loss_pct, roll) {
        UnitFate::Dropped
    } else {
        UnitFate::Forwarded
    }
}

/// How many of the rolls below `n` drop a unit.
pub open spec fn dropping_rolls(loss_pct: u8, n: nat) -> nat
    decreases n,
{
    if n == 0 {
        0
    } else {
        dropping_rolls(loss_pct, (n - 1) as nat) + if spec_should_drop(loss_pct, (n - 1) as u8) { 1nat } else { 0nat }
    }
}

/// The loss knob is a percentage: of the hundred equally likely rolls,
/// exactly `loss_pct` drop the unit (all of them from 100 up), so a loss of
/// 0 never drops and a loss of 100 always does.
pub proof fn law_loss_is_a_percentage(loss_pct: u8)
    ensures
        dropping_rolls(loss_pct, 100) == clamp_u8(loss_pct, MAX_LOSS_PCT),
{
    lemma_dropping_rolls(loss_pct, 100);
}

proof fn lemma_dropping_rolls(loss_pct: u8, n: nat)
    requires
        n <= 100,
    ensures
        dropping_rolls(loss_pct, n) == if loss_pct < n { loss_pct as nat } else { n },
    decreases n,
{
    if n > 0 {
        lemma_dropping_rolls(loss_pct, (n - 1) as nat);
    }
}

} // verus!
