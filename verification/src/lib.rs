//! Verified core of a multi-agent trading engine.
//!
//! - Agents and their decisions: `agents` (rule-based position cycles),
//!   `trade_limiter`, `perception` and `router` (the three-layer perception
//!   router and its answer cache), `cycle` (pacing of swarm cycles).
//! - From intents to orders: `intent`, `consensus` (conflict resolution
//!   among agents), `compiler` (admission of intents to their templates),
//!   `fills` (position changes and stop-losses on fills).
//! - Research: `research` (the ratchet's decisions and hypothesis
//!   parameters), `strategy_lock` (human approval of strategy mutations).
//! - Shared state: `seqlock`, `event_ring` and `event_file` (the
//!   sequence-locked event file and its reader's retries), `market_state`
//!   and `text` (the market text agents read).
//! - Configuration: `llm_config`.
//! - The dashboard: `dashboard`, `data_source`, `research_panel`,
//!   `strategy_center`.

pub mod trade_limiter;
pub mod research;
pub mod seqlock;
pub mod event_ring;
pub mod event_file;
pub mod intent;
pub mod consensus;
pub mod compiler;
pub mod strategy_lock;
pub mod data_source;
pub mod dashboard;
pub mod llm_config;
pub mod perception;
pub mod text;
pub mod market_state;
pub mod research_panel;
pub mod agents;
pub mod router;
pub mod cycle;
pub mod strategy_center;
pub mod dashboard_state;
pub mod fills;
