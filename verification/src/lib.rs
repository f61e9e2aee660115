//! Core of a small self-healing LoRa mesh node: the on-air packet codec, the
//! per-destination routing table with quality scoring, the outbound queue
//! policy, the transfer engine state machine, and the text-console command
//! layer. Radio hardware, clocks and serial I/O live outside this crate and
//! talk to it through plain values.

use vstd::prelude::*;

pub mod bm_network_configs;
pub mod bm_network_packet;
pub mod bm_network_node;
pub mod bm_network_routing_table;
pub mod bm_network_engine;
pub mod at_command;
pub mod at_cmd;
pub mod radio_control;

verus! {

/// Device network identifier; `None` is the distinguished "no node" value.
pub type NetworkId = Option<u32>;

/// Radio received signal strength, in dBm.
pub type RssiType = i16;

/// Monotonic wall-clock timestamp in milliseconds.
pub type TimeType = i64;

/// Errors surfaced by the mesh engine.
#[derive(Debug, Clone, Copy, PartialEq, Eq, Structural)]
pub enum BmError {
    NoError,
    Busy,
    QueueFull,
}

/// Errors of the early network-stack surface.
#[derive(Debug, Clone, Copy, PartialEq, Eq, Structural)]
pub enum BmErrors {
    NoPacket,
    QueueFull,
    GenericError,
}

} // verus!
