//! Mirrors reaction activity on chat messages onto a board feed.
//!
//! A message whose reactions reach a threshold gets one board entry that
//! summarises them; later reactions rewrite that entry instead of adding
//! another. The crate decides and renders; the caller talks to the chat
//! service and to the database and reports back what happened.

pub mod decimal;
pub mod aggregator;
pub mod store;
pub mod handler;
pub mod replay;
