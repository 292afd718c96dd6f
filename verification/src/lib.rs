//! Verified core of the Flowsurface trading client: the agent replay API
//! (order ids, tickers, the idempotency state, session decisions), the
//! Tachibana e-shiten protocol (requests, replies, event frames, the issue
//! master stream) and the parsers of the headless and pane settings.

pub mod agent;
pub mod agent_api;
pub mod auth;
pub mod contract;
pub mod event;
pub mod headless;
pub mod laws;
pub mod market;
pub mod master;
pub mod numeric;
pub mod pane;
pub mod state;
pub mod tachibana;
pub mod ticker;
pub mod text;
