//! 64-bit time-sorted unique identifiers: a timestamp, a node identifier and
//! a per-tick sequence number packed into one `u64`.

pub mod clock;
pub mod config;
pub mod generator;
pub mod layout;
pub mod sequence;

pub use crate::clock::GenerateError;
pub use crate::config::TsidConfig;
pub use crate::config::TsidConfigBuilder;
pub use crate::config::DEFAULT_CUSTOM_EPOCH;
pub use crate::config::DEFAULT_NODE_BITS;
pub use crate::config::TIMESTAMP_BITS;
pub use crate::config::TOTAL_NODE_AND_SEQUENCE_BITS;
pub use crate::generator::TsidGenerator;
pub use crate::layout::BitConfig;
