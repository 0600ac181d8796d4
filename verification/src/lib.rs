//! Building blocks of a distributed graph benchmark: a random edge list is
//! generated on one process, replicated to every member of a fixed process
//! group, split into contiguous per-rank slices, and the per-edge results are
//! combined by two collective exchanges.
//!
//! Everything here is a function from plain values to plain values. The
//! transport that moves buffers between processes, the clock and the console
//! belong to the program built around this library.

pub mod collective;
pub mod generator;
pub mod graph;
pub mod partition;
pub mod random;
pub mod replication;
pub mod wire;
