//! Classical side of a quantum key distribution simulator: the records of the
//! quantum rounds, the round's sequencing, the public discussion that splits
//! the usable rounds into a checked half and a key half, and the statistics
//! of the resulting key.

pub mod catalog;
pub mod protocol;
pub mod reconciliation;
pub mod round;
pub mod statistics;
pub mod utils;
