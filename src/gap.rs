use vstd::prelude::*;
use crate::records::GapState;

verus! {

/// Ticks of the media server per second.
pub const TICKS_PER_SECOND: i64 = 10_000_000;

/// Whole seconds in `t` ticks, truncated toward zero.
pub open spec fn secs_of(t: i64) -> int {
    if t >= 0 {
        t as int / 10_000_000
    } else {
        -((-(t as int)) / 10_000_000)
    }
}

pub fn ticks_to_secs(t: i64) -> (r: i64)
    ensures
        r as int == secs_of(t),
{
    if t >= 0 {
        t / TICKS_PER_SECOND
    } else {
        let n: u64 = ((-(t + 1)) as u64) + 1;
        let q: u64 = n / 10_000_000;
        assert(q <= 922_337_203_686) by (nonlinear_arith)
            requires
                q == n / 10_000_000,
                n <= 9_223_372_036_854_775_808,
        ;
        -(q as i64)
    }
}

/// The thresholds of gap recovery and of rate limiting.
#[derive(Clone, Copy)]
pub struct Config {
    /// Least number of seconds between two ordinary presence updates.
    pub update_interval_secs: u64,
    /// Played seconds a long item needs before a gap rewinds it; also the rewind.
    pub rewind_secs: i64,
    /// Longest gap, in seconds, before the activity is given up.
    pub max_gap_secs: u64,
}

impl Config {
    pub open spec fn wf(&self) -> bool {
        self.rewind_secs >= 0
    }
}

/// What one cycle of a gap decides.
#[derive(Debug, PartialEq, Eq)]
pub enum GapDecision {
    /// Keep showing the given elapsed value; no presence update.
    Hold(i64),
    /// Show the given synthesized elapsed value (a rate-limited update).
    Synthesize(i64),
    /// The gap lasted too long: clear now and forget the session.
    Expire,
    /// The item had already finished: clear now and forget the session.
    Complete,
}

/// Seconds since the gap began (never negative).
pub open spec fn gap_elapsed(g: GapState, now: u64) -> int {
    if now >= g.started_at {
        now - g.started_at
    } else {
        0
    }
}

/// The gap state in force this cycle: the existing one, or one begun now.
pub open spec fn current_gap(gap: Option<GapState>, now: u64) -> GapState {
    match gap {
        Some(g) => g,
        None => GapState { started_at: now, base_elapsed: None },
    }
}

/// One cycle of gap recovery for an item of `rt` seconds last seen at
/// `last_elapsed` seconds: the next gap state and the decision.
pub open spec fn gap_spec(
    gap: Option<GapState>,
    last_elapsed: i64,
    rt: i64,
    cfg: Config,
    now: u64,
) -> (GapState, GapDecision) {
    let g = current_gap(gap, now);
    let ge = gap_elapsed(g, now);
    if ge > cfg.max_gap_secs {
        (g, GapDecision::Expire)
    } else if last_elapsed >= rt && rt > 0 {
        (g, GapDecision::Complete)
    } else if rt < cfg.rewind_secs || last_elapsed < cfg.rewind_secs {
        (g, GapDecision::Hold(last_elapsed))
    } else {
        let base: i64 = match g.base_elapsed {
            Some(b) => b,
            None => (last_elapsed - cfg.rewind_secs) as i64,
        };
        let shown: i64 = if base + ge > i64::MAX {
            i64::MAX
        } else {
            (base + ge) as i64
        };
        (GapState { started_at: g.started_at, base_elapsed: Some(base) }, GapDecision::Synthesize(shown))
    }
}

/// A base elapsed value, once set, is never negative.
pub open spec fn gap_wf(gap: Option<GapState>) -> bool {
    match gap {
        Some(g) => match g.base_elapsed {
            Some(b) => b >= 0,
            None => true,
        },
        None => true,
    }
}

/// Run one cycle of gap recovery.
pub fn gap_step(gap: Option<GapState>, last_elapsed: i64, rt: i64, cfg: &Config, now: u64) -> (r: (
    GapState,
    GapDecision,
))
    requires
        cfg.wf(),
        gap_wf(gap),
    ensures
        r == gap_spec(gap, last_elapsed, rt, *cfg, now),
        gap_wf(Some(r.0)),
{
    let g = match gap {
        Some(g) => g,
        None => GapState { started_at: now, base_elapsed: None },
    };
    let ge: u64 = if now >= g.started_at {
        now - g.started_at
    } else {
        0
    };
    if ge > cfg.max_gap_secs {
        (g, GapDecision::Expire)
    } else if last_elapsed >= rt && rt > 0 {
        (g, GapDecision::Complete)
    } else if rt < cfg.rewind_secs || last_elapsed < cfg.rewind_secs {
        (g, GapDecision::Hold(last_elapsed))
    } else {
        let base: i64 = match g.base_elapsed {
            Some(b) => b,
            None => last_elapsed - cfg.rewind_secs,
        };
        let room: u64 = (i64::MAX - base) as u64;
        let shown: i64 = if ge > room {
            i64::MAX
        } else {
            base + ge as i64
        };
        (GapState { started_at: g.started_at, base_elapsed: Some(base) }, GapDecision::Synthesize(shown))
    }
}

/// A short item, or one stopped before the rewind threshold, is held at its last
/// elapsed value for as long as the gap lasts, until it expires.
pub proof fn lemma_short_or_early_holds(gap: Option<GapState>, last_elapsed: i64, rt: i64, cfg: Config, now: u64)
    requires
        rt < cfg.rewind_secs || last_elapsed < cfg.rewind_secs,
        !(last_elapsed >= rt && rt > 0),
        gap_elapsed(current_gap(gap, now), now) <= cfg.max_gap_secs,
    ensures
        gap_spec(gap, last_elapsed, rt, cfg, now).1 == GapDecision::Hold(last_elapsed),
        gap_spec(gap, last_elapsed, rt, cfg, now).0 == current_gap(gap, now),
{
}

/// On the first cycle of a gap of a long item played past the threshold, the
/// base is the last elapsed value less the rewind, and that is what is shown.
pub proof fn lemma_rewind_on_first_cycle(last_elapsed: i64, rt: i64, cfg: Config, now: u64)
    requires
        cfg.wf(),
        rt >= cfg.rewind_secs,
        last_elapsed >= cfg.rewind_secs,
        !(last_elapsed >= rt && rt > 0),
    ensures
        gap_spec(None, last_elapsed, rt, cfg, now).0 == (GapState {
            started_at: now,
            base_elapsed: Some((last_elapsed - cfg.rewind_secs) as i64),
        }),
        gap_spec(None, last_elapsed, rt, cfg, now).1 == GapDecision::Synthesize(
            (last_elapsed - cfg.rewind_secs) as i64,
        ),
{
}

/// Once the rewind is applied, later cycles of the same gap keep the base and
/// show it advanced by exactly the seconds of gap so far, until the gap expires.
pub proof fn lemma_synthesis_follows_clock(g: GapState, last_elapsed: i64, rt: i64, cfg: Config, now: u64)
    requires
        g.base_elapsed is Some,
        g.started_at <= now,
        now - g.started_at <= cfg.max_gap_secs,
        rt >= cfg.rewind_secs,
        last_elapsed >= cfg.rewind_secs,
        !(last_elapsed >= rt && rt > 0),
        g.base_elapsed->0 + (now - g.started_at) <= i64::MAX,
    ensures
        gap_spec(Some(g), last_elapsed, rt, cfg, now).0 == g,
        gap_spec(Some(g), last_elapsed, rt, cfg, now).1 == GapDecision::Synthesize(
            (g.base_elapsed->0 + (now - g.started_at)) as i64,
        ),
{
}

/// A gap that has lasted longer than the maximum expires, whatever the item and
/// whatever value would have been shown.
pub proof fn lemma_expiry_first(g: GapState, last_elapsed: i64, rt: i64, cfg: Config, now: u64)
    requires
        g.started_at <= now,
        now - g.started_at > cfg.max_gap_secs,
    ensures
        gap_spec(Some(g), last_elapsed, rt, cfg, now).1 == GapDecision::Expire,
{
}

/// An item whose last elapsed value had reached its runtime completes on the
/// first cycle of its gap, whatever the maximum gap.
pub proof fn lemma_finished_item_completes(last_elapsed: i64, rt: i64, cfg: Config, now: u64)
    requires
        rt > 0,
        last_elapsed >= rt,
    ensures
        gap_spec(None, last_elapsed, rt, cfg, now).1 == GapDecision::Complete,
{
}

} // verus!
