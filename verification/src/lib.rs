//! Driver for a single-wire temperature/humidity sensor.
//!
//! The sensor shares one bidirectional GPIO line with the host.  A read
//! transaction is: host request pulse, line release, sensor acknowledgment,
//! a 40-bit payload decoded bit-by-bit from edge timing, and a checksum.
//! Every wait on the line is bounded, so a transaction always ends in a
//! reading or in a classified error.
//!
//! The line is modeled by [`pin::SimPin`], a simulated pin whose sampled
//! levels are scripted in advance and whose clock counts the microseconds
//! spent in delays.  The protocol logic is verified against that model:
//! the contracts of [`driver::DHT11::read`] pin down the decoded result,
//! the exact number of samples consumed, and the restoration of the line
//! to its driven idle state.

pub mod color;
pub mod driver;
pub mod encode;
pub mod frame;
pub mod pin;
pub mod task;
