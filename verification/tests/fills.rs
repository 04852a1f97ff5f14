use sextant::fills::{
    fill_change, stop_loss_action, stop_loss_order_id, stop_loss_side, FillChange, StopLossAction, StopLossTracker,
};
use sextant::intent::OrderSide;

#[test]
fn fills_open_add_reduce_and_close_positions() {
    // From flat, a buy opens a position.
    assert_eq!(fill_change(true, false, true), FillChange::Opened);
    // Another buy on a long adds to it.
    assert_eq!(fill_change(false, false, true), FillChange::Added);
    // A partial sell on a long reduces it.
    assert_eq!(fill_change(false, false, false), FillChange::Reduced);
    // A sell of the whole position closes it.
    assert_eq!(fill_change(false, true, false), FillChange::Closed);
}

#[test]
fn stop_loss_is_submitted_on_open_and_cleared_on_close() {
    assert_eq!(stop_loss_action(true, false, true), StopLossAction::Submit);
    // Stop-losses disabled: nothing to submit.
    assert_eq!(stop_loss_action(true, false, false), StopLossAction::Keep);
    // Adding or reducing leaves the stop-loss alone.
    assert_eq!(stop_loss_action(false, false, true), StopLossAction::Keep);
    assert_eq!(stop_loss_action(false, true, true), StopLossAction::Clear);
    assert_eq!(stop_loss_action(false, true, false), StopLossAction::Clear);
    assert_eq!(stop_loss_action(true, true, true), StopLossAction::Keep);
}

#[test]
fn stop_loss_orders_sit_against_the_position() {
    assert_eq!(stop_loss_side(true), OrderSide::Sell);
    assert_eq!(stop_loss_side(false), OrderSide::Buy);
    assert_eq!(stop_loss_order_id("O-20240101-001"), "SL-O-20240101-001");
}

#[test]
fn stop_loss_tracking_follows_the_position() {
    let mut t = StopLossTracker::new();
    assert_eq!(t.active, None);
    // Submission refused: nothing tracked.
    t.apply(StopLossAction::Submit, None);
    assert_eq!(t.active, None);
    t.apply(StopLossAction::Submit, Some("SL-A".to_string()));
    assert_eq!(t.active.as_deref(), Some("SL-A"));
    t.apply(StopLossAction::Keep, None);
    assert_eq!(t.active.as_deref(), Some("SL-A"));
    t.apply(StopLossAction::Clear, None);
    assert_eq!(t.active, None);
}
