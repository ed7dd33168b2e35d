//! Rate-limited scheduling of DNS lookups for subdomain enumeration.
//!
//! The crate holds the decisions of an enumeration run: how a candidate label
//! becomes a name to look up, how the answer of a lookup becomes the terminal
//! status of its task, how many lookups the configured rate permits at a given
//! moment, and which lookups are outstanding. The caller performs the lookups,
//! reads the clock and sleeps; the scheduler tells it what to do next.

pub mod conservation;
pub mod lookup;
pub mod model;
pub mod pacing;
pub mod progress;
pub mod rate;
pub mod run_invariant;
pub mod scheduler;
pub mod task;
pub mod tickets;
