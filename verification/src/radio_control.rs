//! Types shared with the radio driver. The driver itself — hardware
//! configuration, TX/RX primitives, interrupt plumbing — lives outside this
//! crate; the core only observes the driver's state and consumes the
//! buffers its receive interrupt fills.

use vstd::prelude::*;
use crate::RssiType;

verus! {

/// Largest radio frame the receive buffer holds.
pub const RADIO_MAX_BUFF_SIZE: usize = 255;

/// Observable state of the radio.
#[derive(Debug, Clone, Copy, PartialEq, Eq, Structural)]
pub enum RadioState {
    Idle,
    Receiving,
    Transmitting,
    Failure,
}

impl Default for RadioState {
    fn default() -> (r: Self)
        ensures
            r == RadioState::Idle,
    {
        RadioState::Idle
    }
}

/// One received radio frame as the receive interrupt hands it over: the
/// frame bytes, how many of them are valid, and the signal strength they
/// arrived with.
#[derive(Debug, Clone)]
pub struct RadioRxBuffer {
    pub length: u8,
    pub buffer: [u8; 255],
    pub rssi: RssiType,
}

impl RadioRxBuffer {
    pub fn new() -> (r: RadioRxBuffer)
        ensures
            r.length == 0,
            r.rssi == 0,
            forall|i: int| 0 <= i < 255 ==> r.buffer@[i] == 0,
    {
        RadioRxBuffer { length: 0, buffer: [0; 255], rssi: 0 }
    }

    pub fn with_len(self, length: u8) -> (r: Self)
        ensures
            r.length == length,
            r.buffer@ == self.buffer@,
            r.rssi == self.rssi,
    {
        RadioRxBuffer { length, buffer: self.buffer, rssi: self.rssi }
    }

    pub fn with_rssi(self, rssi: i16) -> (r: Self)
        ensures
            r.length == self.length,
            r.buffer@ == self.buffer@,
            r.rssi == rssi,
    {
        RadioRxBuffer { length: self.length, buffer: self.buffer, rssi }
    }
}

} // verus!
