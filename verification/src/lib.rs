//! Host-activity telemetry engine: an idle/away state machine, a keyed
//! usage-time accumulator that tolerates missed polls, and a bounded window of
//! memory samples that is folded into minute-level aggregates.
//!
//! Every function here works on plain values. Clocks, probes and storage are
//! the caller's business: the caller reads them and hands the readings in.

pub mod afk;
pub mod browser;
pub mod devices;
pub mod installed;
pub mod query;
pub mod resource;
pub mod text;
pub mod usage;
pub mod visible;
