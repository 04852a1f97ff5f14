//! Intent vocabulary shared by agents, consensus and the compiler.

use vstd::prelude::*;

verus! {

/// What an agent wants to do.
#[derive(Clone, Copy, Debug, PartialEq, Eq, Structural)]
pub enum IntentType {
    DeltaHedge,
    GammaScalp,
    TrendFollow,
    MeanReversion,
    LiquidationCapture,
    /// Do nothing this cycle.
    Hold,
    /// Block every other intent this cycle.
    Veto,
}

/// Side of an order.
#[derive(Clone, Copy, Debug, PartialEq, Eq, Structural)]
pub enum OrderSide {
    Buy,
    Sell,
}

/// How long an order stays live.
#[derive(Clone, Copy, Debug, PartialEq, Eq, Structural)]
pub enum TimeInForce {
    Gtc,
    Ioc,
    Fok,
    Gtd,
}

} // verus!
