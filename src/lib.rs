//! Wire codec and peer decision logic for a Bitcoin/Zcash-family
//! peer-to-peer protocol test harness.

pub mod bytes;
pub mod compact_size;
pub mod netaddr;
pub mod checksum;
pub mod message;
pub mod node;
