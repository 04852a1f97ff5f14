//! What the engine does when one of its orders fills: how the position
//! changes (opened, added to, reduced, closed) and what becomes of the
//! protective stop-loss order. The position sizes and prices are real
//! numbers, compared by the caller; what follows from the comparisons is
//! decided here.

use vstd::prelude::*;
use crate::intent::OrderSide;

verus! {

/// How a fill changes the position.
#[derive(Clone, Copy, Debug, PartialEq, Eq, Structural)]
pub enum FillChange {
    /// The position is flat after the fill.
    Closed,
    /// A position was opened from flat: the entry price is the fill price.
    Opened,
    /// The fill adds to the position: the entry price becomes the
    /// size-weighted average.
    Added,
    /// The fill reduces (or reverses) the position: the entry price stays.
    Reduced,
}

/// How a fill changes the position, given whether the position was flat
/// before, whether it is flat after, and whether the fill goes the way of
/// the position before it.
pub open spec fn fill_change_of(was_flat: bool, now_flat: bool, same_direction: bool) -> FillChange {
    if now_flat {
        FillChange::Closed
    } else if was_flat {
        FillChange::Opened
    } else if same_direction {
        FillChange::Added
    } else {
        FillChange::Reduced
    }
}

/// How a fill changes the position.
pub fn fill_change(was_flat: bool, now_flat: bool, same_direction: bool) -> (r: FillChange)
    ensures
        r == fill_change_of(was_flat, now_flat, same_direction),
{
    if now_flat {
        FillChange::Closed
    } else if was_flat {
        FillChange::Opened
    } else if same_direction {
        FillChange::Added
    } else {
        FillChange::Reduced
    }
}

/// What a fill means for the protective stop-loss order.
#[derive(Clone, Copy, Debug, PartialEq, Eq, Structural)]
pub enum StopLossAction {
    /// Submit a stop-loss for the new position.
    Submit,
    /// The position is gone: stop tracking its stop-loss.
    Clear,
    /// Leave the stop-loss as it is.
    Keep,
}

/// A stop-loss is submitted when a position opens from flat and stop-losses
/// are enabled (a positive stop distance); tracking is cleared when a
/// position closes; otherwise nothing changes.
pub open spec fn stop_loss_action_of(was_flat: bool, now_flat: bool, enabled: bool) -> StopLossAction {
    if !now_flat && was_flat && enabled {
        StopLossAction::Submit
    } else if now_flat && !was_flat {
        StopLossAction::Clear
    } else {
        StopLossAction::Keep
    }
}

/// What a fill means for the stop-loss order.
pub fn stop_loss_action(was_flat: bool, now_flat: bool, enabled: bool) -> (r: StopLossAction)
    ensures
        r == stop_loss_action_of(was_flat, now_flat, enabled),
{
    if !now_flat && was_flat && enabled {
        StopLossAction::Submit
    } else if now_flat && !was_flat {
        StopLossAction::Clear
    } else {
        StopLossAction::Keep
    }
}

/// The side of the stop-loss order: against the position.
pub open spec fn stop_loss_side_of(long: bool) -> OrderSide {
    if long {
        OrderSide::Sell
    } else {
        OrderSide::Buy
    }
}

/// The side of the stop-loss order for a long (or short) position.
pub fn stop_loss_side(long: bool) -> (r: OrderSide)
    ensures
        r == stop_loss_side_of(long),
{
    if long {
        OrderSide::Sell
    } else {
        OrderSide::Buy
    }
}

/// The client order id of the stop-loss protecting the position opened by
/// the fill of `client_order_id`.
pub fn stop_loss_order_id(client_order_id: &str) -> (r: String)
    ensures
        r@ == "SL-"@ + client_order_id@,
{
    let r = "SL-".to_owned().concat(client_order_id);
    r
}

/// The stop-loss order the engine tracks, by client order id.
pub struct StopLossTracker {
    pub active: Option<String>,
}

/// The tracked stop-loss id after a fill: a submitted stop-loss is tracked
/// once the submission went through (`submitted`); a close forgets it.
pub open spec fn tracked_after(
    active: Option<Seq<char>>,
    action: StopLossAction,
    submitted: Option<Seq<char>>,
) -> Option<Seq<char>> {
    match action {
        StopLossAction::Submit => match submitted {
            Some(id) => Some(id),
            None => active,
        },
        StopLossAction::Clear => None,
        StopLossAction::Keep => active,
    }
}

/// The view of an optional id.
pub open spec fn id_view(id: Option<String>) -> Option<Seq<char>> {
    match id {
        Some(s) => Some(s@),
        None => None,
    }
}

impl StopLossTracker {
    /// Nothing tracked.
    pub fn new() -> (r: Self)
        ensures
            r.active is None,
    {
        StopLossTracker { active: None }
    }

    /// Applies the fill's stop-loss action; `submitted` is the id of the
    /// stop-loss order when one was submitted and accepted.
    pub fn apply(&mut self, action: StopLossAction, submitted: Option<String>)
        ensures
            id_view(final(self).active) == tracked_after(id_view(old(self).active), action, id_view(submitted)),
    {
        match action {
            StopLossAction::Submit => {
                match submitted {
                    Some(id) => {
                        self.active = Some(id);
                    },
                    None => {},
                }
            },
            StopLossAction::Clear => {
                self.active = None;
            },
            StopLossAction::Keep => {},
        }
    }
}

/// A stop-loss is only ever submitted for a position just opened, and its
/// tracking is cleared exactly when an open position closes; a fill that
/// leaves the position open never clears it.
pub proof fn lemma_stop_loss_follows_position(was_flat: bool, now_flat: bool, same_direction: bool, enabled: bool)
    ensures
        stop_loss_action_of(was_flat, now_flat, enabled) == StopLossAction::Submit
            ==> fill_change_of(was_flat, now_flat, same_direction) == FillChange::Opened,
        stop_loss_action_of(was_flat, now_flat, enabled) == StopLossAction::Clear
            <==> (fill_change_of(was_flat, now_flat, same_direction) == FillChange::Closed && !was_flat),
        !now_flat ==> stop_loss_action_of(was_flat, now_flat, enabled) != StopLossAction::Clear,
{
}

/// Once a close has been applied, no stop-loss is tracked, whatever was
/// tracked before.
pub proof fn lemma_close_forgets_stop_loss(active: Option<Seq<char>>, submitted: Option<Seq<char>>, enabled: bool)
    ensures
        tracked_after(active, stop_loss_action_of(false, true, enabled), submitted) is None,
{
}

/// A fill, case by case: one that leaves the position flat closes it; from
/// flat, one that leaves a position opens it; otherwise it adds to the
/// position when it goes the position's way, and reduces it when it goes
/// against it. The stop-loss is submitted exactly when a position opens
/// from flat with stop-losses enabled, forgotten exactly when an open
/// position closes, and otherwise kept. It sells against a long position
/// and buys against a short one.
pub proof fn lemma_fill_cases(was_flat: bool, now_flat: bool, same_direction: bool, enabled: bool, long: bool)
    ensures
        now_flat ==> fill_change_of(was_flat, now_flat, same_direction) == FillChange::Closed,
        was_flat && !now_flat ==> fill_change_of(was_flat, now_flat, same_direction) == FillChange::Opened,
        !was_flat && !now_flat && same_direction ==> fill_change_of(was_flat, now_flat, same_direction)
            == FillChange::Added,
        !was_flat && !now_flat && !same_direction ==> fill_change_of(was_flat, now_flat, same_direction)
            == FillChange::Reduced,
        (stop_loss_action_of(was_flat, now_flat, enabled) == StopLossAction::Submit) == (was_flat && !now_flat
            && enabled),
        (stop_loss_action_of(was_flat, now_flat, enabled) == StopLossAction::Clear) == (!was_flat && now_flat),
        long ==> stop_loss_side_of(long) == OrderSide::Sell,
        !long ==> stop_loss_side_of(long) == OrderSide::Buy,
{
}

/// The tracked stop-loss, case by case: an accepted submission is tracked,
/// a refused one leaves what was tracked, a close forgets it, and any other
/// fill keeps it.
pub proof fn lemma_tracking_cases(active: Option<Seq<char>>, submitted: Option<Seq<char>>)
    ensures
        submitted is Some ==> tracked_after(active, StopLossAction::Submit, submitted) == submitted,
        submitted is None ==> tracked_after(active, StopLossAction::Submit, submitted) == active,
        tracked_after(active, StopLossAction::Clear, submitted) is None,
        tracked_after(active, StopLossAction::Keep, submitted) == active,
{
}

} // verus!
