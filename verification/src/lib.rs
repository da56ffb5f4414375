//! Incremental market-data synchronisation and bounded strategy execution.
//!
//! The crate holds the decision logic of two engines. The sync engine derives,
//! for every symbol, the date range that is still missing from the store,
//! retries the fetch under a bounded policy and hands non-empty batches to a
//! single save stage. The strategy engine runs one test per symbol with at most
//! a fixed number of tests in flight, collects the results by data type and
//! honours a one-shot cancellation signal.
//!
//! Everything here works on plain values. Network, database, clock and task
//! scheduling belong to the caller, which performs the actions that the state
//! machines of this crate hand out and reports back what happened.

pub mod calendar;
pub mod engine;
pub mod error;
pub mod params;
pub mod pipeline;
pub mod retry;
pub mod strategy;
pub mod symbol;
pub mod syncer;
pub mod text;
