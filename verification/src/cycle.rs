//! The pacing of swarm cycles: a quote starts a cycle only when at least
//! the cooldown has passed since the last one started.

use vstd::prelude::*;

verus! {

/// Whole seconds from `last` to `now` (nanoseconds on a monotonic clock),
/// none when the clock reads earlier than `last`.
pub open spec fn whole_secs_between(last: u64, now: u64) -> nat {
    if now >= last {
        ((now - last) / 1_000_000_000) as nat
    } else {
        0
    }
}

/// The cooldown between swarm cycles and when the last one started.
pub struct CycleCooldown {
    /// Least number of whole seconds between the starts of two cycles.
    pub cooldown_secs: u64,
    /// When the last cycle started, in nanoseconds.
    pub last_start_ns: Option<u64>,
}

/// Whether a cycle may start at `now`: always for the first cycle, and
/// afterwards once `cooldown_secs` whole seconds have passed.
pub open spec fn cycle_due(c: CycleCooldown, now: u64) -> bool {
    match c.last_start_ns {
        Some(last) => whole_secs_between(last, now) >= c.cooldown_secs,
        None => true,
    }
}

impl CycleCooldown {
    /// No cycle has run yet.
    pub fn new(cooldown_secs: u64) -> (r: Self)
        ensures
            r.cooldown_secs == cooldown_secs,
            r.last_start_ns is None,
    {
        CycleCooldown { cooldown_secs, last_start_ns: None }
    }

    /// Starts a cycle at `now` if one is due, and says whether it did.
    pub fn try_start(&mut self, now: u64) -> (r: bool)
        ensures
            r == cycle_due(*old(self), now),
            final(self).cooldown_secs == old(self).cooldown_secs,
            final(self).last_start_ns == if r { Some(now) } else { old(self).last_start_ns },
    {
        match self.last_start_ns {
            Some(last) => {
                let elapsed: u64 = if now >= last { (now - last) / 1_000_000_000 } else { 0 };
                if elapsed < self.cooldown_secs {
                    return false;
                }
            },
            None => {},
        }
        self.last_start_ns = Some(now);
        true
    }
}

/// Cycles are spaced by the cooldown: after a cycle started at `start`, a
/// later start at `now` (on the same clock) is at least `cooldown_secs`
/// seconds after it.
pub proof fn lemma_cycles_spaced(c: CycleCooldown, start: u64, now: u64)
    requires
        c.last_start_ns == Some(start),
        start <= now,
        cycle_due(c, now),
    ensures
        now - start >= c.cooldown_secs * 1_000_000_000,
{
    let d = (now - start) as int;
    assert(d / 1_000_000_000 >= c.cooldown_secs);
    assert(d >= (d / 1_000_000_000) * 1_000_000_000) by (nonlinear_arith)
        requires
            d >= 0,
    ;
    assert((d / 1_000_000_000) * 1_000_000_000 >= c.cooldown_secs * 1_000_000_000) by (nonlinear_arith)
        requires
            d / 1_000_000_000 >= c.cooldown_secs,
    ;
}

/// The first cycle may always start; a later one may start once the
/// cooldown has passed since the last start, and not while the clock reads
/// less than a whole cooldown after it.
pub proof fn lemma_cycle_due_cases(c: CycleCooldown, last: u64, now: u64)
    ensures
        c.last_start_ns is None ==> cycle_due(c, now),
        c.last_start_ns == Some(last) && last <= now && now - last >= c.cooldown_secs * 1_000_000_000
            ==> cycle_due(c, now),
        c.last_start_ns == Some(last) && last <= now && now - last < c.cooldown_secs * 1_000_000_000
            ==> !cycle_due(c, now),
        c.last_start_ns == Some(last) && now < last && c.cooldown_secs > 0 ==> !cycle_due(c, now),
{
    if c.last_start_ns == Some(last) && last <= now {
        let d = (now - last) as int;
        let k = c.cooldown_secs as int;
        assert(d >= k * 1_000_000_000 ==> d / 1_000_000_000 >= k) by (nonlinear_arith)
            requires
                d >= 0,
                k >= 0,
        ;
        assert(d < k * 1_000_000_000 ==> d / 1_000_000_000 < k) by (nonlinear_arith)
            requires
                d >= 0,
                k >= 0,
        ;
    }
}

} // verus!
