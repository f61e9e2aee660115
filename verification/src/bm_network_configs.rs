//! Capacity and protocol constants of the mesh core. Every container in the
//! core is bounded; overflow is a policy event (the new item is dropped), not
//! a panic.

use vstd::prelude::*;

verus! {

/// Max number of network ids the device can remember.
pub const BM_MAX_NET_DEVICES: usize = 100;

/// Number of transmissions allowed on acknowledged data packets.
pub const BM_PACKET_RETRY_COUNT: u8 = 2;

/// Packet type byte + routing header.
pub const BM_PACKET_HDR_SIZE: usize = 18;

/// Max number of payload bytes a packet can carry.
pub const BM_MAX_PAYLOAD_SIZE: usize = 200;

/// Max on-air size: header + payload.
pub const BM_MAX_OTA_SIZE: usize = 218;

/// Max routes stored per destination.
pub const BM_MAX_DEVICE_ROUTES: usize = 5;

/// Max rssi samples stored per route.
pub const BM_MAX_RSSI_SAMPLES: usize = 5;

/// Outbound queue size.
pub const BM_OUTBOUND_QUEUE_SIZE: usize = 5;

/// Inbound queue size.
pub const BM_INBOUND_QUEUE_SIZE: usize = 5;

/// Milliseconds the engine waits on a discovery response or an ack.
pub const BM_REPLY_TIMEOUT_MS: i64 = 10000;

/// Largest value `ttl` and `hop_count` can hold: they travel in 3 bits each.
pub const MAX_TTL_HOP_CNT: u8 = 7;

} // verus!
