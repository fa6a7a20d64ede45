//! Verified core of a browser-automation benchmark harness.
//!
//! The harness drives a remote browser over a control-protocol connection to
//! validate and benchmark a dynamically rendered product page.  The pieces
//! that decide and compute live here, fully verified: the bounded-timeout
//! condition poller, the price-text parser, the product extractor and
//! validator, and the run-metrics aggregation.  The surrounding process
//! (connection handling, the background event pump, remote script evaluation,
//! sleeping between polls) performs I/O and hands this library plain values.

pub mod errors;
pub mod extract;
pub mod metrics;
pub mod poll;
pub mod price;
pub mod runner;
pub mod validate;
