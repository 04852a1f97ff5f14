//! Strategy lock: human-in-the-loop governance for autoresearch.
//!
//! When a strategy is locked, the research ratchet still evaluates hypotheses
//! but stages improvements for human approval instead of applying them.
//! Urgent improvements raise an alert that stays up until it is acknowledged
//! or the staged mutation is approved or rejected. Whether an improvement is
//! urgent is decided by the caller from its information ratios.

use vstd::prelude::*;

verus! {

/// Holds back the application of mutations `M` behind human approval.
pub struct StrategyLock<M> {
    /// Whether the strategy is locked against autonomous mutations.
    pub locked: bool,
    /// Currently pending mutation (at most one at a time).
    pub pending_mutation: Option<M>,
    /// Whether an urgent alert has been raised and not yet dealt with.
    pub urgent_alert: bool,
}

impl<M> StrategyLock<M> {
    /// State after staging `mutation`; an urgent one raises the alert, a
    /// later staging replaces an earlier one.
    pub open spec fn after_stage(self, mutation: M, urgent: bool) -> Self {
        StrategyLock {
            locked: self.locked,
            pending_mutation: Some(mutation),
            urgent_alert: self.urgent_alert || urgent,
        }
    }

    /// State after approving or rejecting: nothing pending, no alert.
    pub open spec fn after_decision(self) -> Self {
        StrategyLock { locked: self.locked, pending_mutation: None, urgent_alert: false }
    }

    /// State after acknowledging the alert: the mutation stays pending.
    pub open spec fn after_acknowledge(self) -> Self {
        StrategyLock { locked: self.locked, pending_mutation: self.pending_mutation, urgent_alert: false }
    }

    /// State after toggling the lock.
    pub open spec fn after_toggle(self) -> Self {
        StrategyLock {
            locked: !self.locked,
            pending_mutation: self.pending_mutation,
            urgent_alert: self.urgent_alert,
        }
    }

    /// An unlocked lock with nothing pending.
    pub fn new() -> (r: Self)
        ensures
            !r.locked,
            r.pending_mutation is None,
            !r.urgent_alert,
    {
        StrategyLock { locked: false, pending_mutation: None, urgent_alert: false }
    }

    /// A locked lock with nothing pending.
    pub fn locked() -> (r: Self)
        ensures
            r.locked,
            r.pending_mutation is None,
            !r.urgent_alert,
    {
        StrategyLock { locked: true, pending_mutation: None, urgent_alert: false }
    }

    /// Whether a mutation can be applied directly (the lock is open).
    pub fn can_apply(&self) -> (r: bool)
        ensures
            r == !self.locked,
    {
        !self.locked
    }

    /// Stage a mutation for human approval instead of applying it.
    /// Returns whether it raised an urgent alert.
    pub fn stage_mutation(&mut self, mutation: M, is_urgent: bool) -> (r: bool)
        ensures
            r == is_urgent,
            *final(self) == old(self).after_stage(mutation, is_urgent),
    {
        if is_urgent {
            self.urgent_alert = true;
        }
        self.pending_mutation = Some(mutation);
        is_urgent
    }

    /// Approve the pending mutation; the caller applies it.
    pub fn approve(&mut self) -> (r: Option<M>)
        ensures
            r == old(self).pending_mutation,
            *final(self) == old(self).after_decision(),
    {
        self.urgent_alert = false;
        self.pending_mutation.take()
    }

    /// Reject the pending mutation: discard it.
    pub fn reject(&mut self)
        ensures
            *final(self) == old(self).after_decision(),
    {
        self.pending_mutation = None;
        self.urgent_alert = false;
    }

    /// Acknowledge the urgent alert without deciding on the mutation.
    pub fn acknowledge_alert(&mut self)
        ensures
            *final(self) == old(self).after_acknowledge(),
    {
        self.urgent_alert = false;
    }

    /// Toggle the lock. Returns the new state.
    pub fn toggle(&mut self) -> (r: bool)
        ensures
            r == final(self).locked,
            *final(self) == old(self).after_toggle(),
    {
        self.locked = !self.locked;
        self.locked
    }
}

impl<M> Default for StrategyLock<M> {
    fn default() -> (r: Self)
        ensures
            !r.locked,
            r.pending_mutation is None,
            !r.urgent_alert,
    {
        Self::new()
    }
}

/// Approval hands back exactly the mutation staged last, and clears both the
/// pending mutation and the alert.
pub proof fn lemma_approve_returns_last_staged<M>(lock: StrategyLock<M>, first: M, second: M, u1: bool, u2: bool)
    ensures
        lock.after_stage(first, u1).after_stage(second, u2).pending_mutation == Some(second),
        lock.after_stage(second, u2).after_decision().pending_mutation is None,
        !lock.after_stage(second, u2).after_decision().urgent_alert,
{
}

/// An urgent staging keeps the alert up until it is acknowledged, approved
/// or rejected, whatever is staged after it; acknowledging keeps the
/// mutation pending.
pub proof fn lemma_alert_persists<M>(lock: StrategyLock<M>, m: M, later: M, u: bool)
    ensures
        lock.after_stage(m, true).urgent_alert,
        lock.after_stage(m, true).after_stage(later, u).urgent_alert,
        lock.after_stage(m, true).after_toggle().urgent_alert,
        lock.after_stage(m, true).after_acknowledge().pending_mutation == Some(m),
        !lock.after_stage(m, true).after_acknowledge().urgent_alert,
{
}

/// Toggling twice restores the lock, and no governance step other than a
/// toggle changes whether the lock is closed.
pub proof fn lemma_toggle_involution<M>(lock: StrategyLock<M>, m: M, u: bool)
    ensures
        lock.after_toggle().after_toggle() == lock,
        lock.after_stage(m, u).locked == lock.locked,
        lock.after_decision().locked == lock.locked,
        lock.after_acknowledge().locked == lock.locked,
{
}

/// Staging keeps the mutation staged last and raises the alert exactly when
/// the staging is urgent or the alert was already up; a decision clears
/// both; a toggle flips only the lock.
pub proof fn lemma_lock_step_cases<M>(lock: StrategyLock<M>, m: M, urgent: bool)
    ensures
        lock.after_stage(m, urgent).pending_mutation == Some(m),
        lock.after_stage(m, urgent).urgent_alert == (lock.urgent_alert || urgent),
        lock.after_decision().pending_mutation is None && !lock.after_decision().urgent_alert,
        lock.after_toggle().locked == !lock.locked,
        lock.after_toggle().pending_mutation == lock.pending_mutation,
        lock.after_toggle().urgent_alert == lock.urgent_alert,
{
}

} // verus!
