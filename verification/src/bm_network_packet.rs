//! On-air packet layout and codec.
//!
//! A frame is an 18-byte header followed by 0..=200 payload bytes:
//! packet type (1), destination id (4), source id (4), next hop id (4),
//! originator id (4), packed header-info byte (1). Multi-byte ids travel
//! little-endian. An id of `None` is serialised as the all-zero value.

use vstd::prelude::*;
use vstd::bytes::{spec_u32_to_le_bytes, spec_u32_from_le_bytes, u32_to_le_bytes, u32_from_le_bytes,
    lemma_auto_spec_u32_to_from_le_bytes};
use crate::bm_network_configs::{BM_PACKET_HDR_SIZE, BM_MAX_PAYLOAD_SIZE, BM_MAX_OTA_SIZE,
    MAX_TTL_HOP_CNT};
use crate::NetworkId;

verus! {

/// A full on-air frame: header plus payload.
pub type BmNetworkOtaPacket = Vec<u8>;

/// Payload bytes of a data packet; at most `BM_MAX_PAYLOAD_SIZE` of them.
pub type BmNetworkPacketPayload = Vec<u8>;

/// The tagged packet type carried in the first header byte.
#[derive(Debug, Clone, Copy, PartialEq, Eq, Structural)]
pub enum BmPacketTypes {
    BcastNeighborTable,
    RouteDiscoveryRequest,
    RouteDiscoveryResponse,
    RouteDiscoveryError,
    DataPayload,
    DataPayloadAck,
}

impl BmPacketTypes {
    /// Wire value of each packet type.
    pub open spec fn spec_into_bits(self) -> u8 {
        match self {
            BmPacketTypes::BcastNeighborTable => 0,
            BmPacketTypes::RouteDiscoveryRequest => 10,
            BmPacketTypes::RouteDiscoveryResponse => 11,
            BmPacketTypes::RouteDiscoveryError => 12,
            BmPacketTypes::DataPayload => 20,
            BmPacketTypes::DataPayloadAck => 21,
        }
    }

    /// Classification of a wire byte; every unknown byte reads as
    /// `BcastNeighborTable`.
    pub open spec fn spec_from_bits(value: u8) -> Self {
        if value == 10 {
            BmPacketTypes::RouteDiscoveryRequest
        } else if value == 11 {
            BmPacketTypes::RouteDiscoveryResponse
        } else if value == 12 {
            BmPacketTypes::RouteDiscoveryError
        } else if value == 20 {
            BmPacketTypes::DataPayload
        } else if value == 21 {
            BmPacketTypes::DataPayloadAck
        } else {
            BmPacketTypes::BcastNeighborTable
        }
    }

    pub fn into_bits(self) -> (b: u8)
        ensures
            b == self.spec_into_bits(),
    {
        match self {
            BmPacketTypes::BcastNeighborTable => 0,
            BmPacketTypes::RouteDiscoveryRequest => 10,
            BmPacketTypes::RouteDiscoveryResponse => 11,
            BmPacketTypes::RouteDiscoveryError => 12,
            BmPacketTypes::DataPayload => 20,
            BmPacketTypes::DataPayloadAck => 21,
        }
    }

    pub fn from_bits(value: u8) -> (t: Self)
        ensures
            t == Self::spec_from_bits(value),
    {
        match value {
            10 => BmPacketTypes::RouteDiscoveryRequest,
            11 => BmPacketTypes::RouteDiscoveryResponse,
            12 => BmPacketTypes::RouteDiscoveryError,
            20 => BmPacketTypes::DataPayload,
            21 => BmPacketTypes::DataPayloadAck,
            _ => BmPacketTypes::BcastNeighborTable,
        }
    }
}

/// The packed header-info byte:
/// bits 0..2 `ttl`, bits 3..5 `hop_count`, bit 6 `required_ack`,
/// bit 7 `encrypted` (reserved, always false in this core).
/// When `hop_count >= ttl` the packet is dead.
#[derive(Debug, Clone, Copy, PartialEq, Eq)]
pub struct BmNetworkHdrInfo {
    pub ttl: u8,
    pub hop_count: u8,
    pub required_ack: bool,
    pub encrypted: bool,
}

impl BmNetworkHdrInfo {
    /// Both 3-bit fields are in range.
    pub open spec fn wf(self) -> bool {
        self.ttl <= 7 && self.hop_count <= 7
    }

    /// The packed wire byte.
    pub open spec fn spec_into_bits(self) -> u8 {
        (self.ttl & 7) | ((self.hop_count & 7) << 3) | ((if self.required_ack {
            1u8
        } else {
            0u8
        }) << 6) | ((if self.encrypted {
            1u8
        } else {
            0u8
        }) << 7)
    }

    /// The fields read back out of a wire byte.
    pub open spec fn spec_from_bits(b: u8) -> Self {
        BmNetworkHdrInfo {
            ttl: b & 7,
            hop_count: (b >> 3) & 7,
            required_ack: b & 0x40 != 0,
            encrypted: b & 0x80 != 0,
        }
    }

    pub fn new() -> (r: Self)
        ensures
            r == (BmNetworkHdrInfo { ttl: 0u8, hop_count: 0u8, required_ack: false, encrypted: false }),
    {
        BmNetworkHdrInfo { ttl: 0, hop_count: 0, required_ack: false, encrypted: false }
    }

    /// Values wider than 3 bits are masked, as the wire layout would.
    pub fn with_ttl(self, new_ttl: u8) -> (r: Self)
        ensures
            r == (BmNetworkHdrInfo { ttl: new_ttl & 7, ..self }),
    {
        BmNetworkHdrInfo { ttl: new_ttl & 7, ..self }
    }

    pub fn with_hop_count(self, new_hop_count: u8) -> (r: Self)
        ensures
            r == (BmNetworkHdrInfo { hop_count: new_hop_count & 7, ..self }),
    {
        BmNetworkHdrInfo { hop_count: new_hop_count & 7, ..self }
    }

    pub fn with_required_ack(self, new_required_ack: bool) -> (r: Self)
        ensures
            r == (BmNetworkHdrInfo { required_ack: new_required_ack, ..self }),
    {
        BmNetworkHdrInfo { required_ack: new_required_ack, ..self }
    }

    pub fn with_encrypted(self, new_encrypted: bool) -> (r: Self)
        ensures
            r == (BmNetworkHdrInfo { encrypted: new_encrypted, ..self }),
    {
        BmNetworkHdrInfo { encrypted: new_encrypted, ..self }
    }

    pub fn set_ttl(&mut self, new_ttl: u8)
        ensures
            *final(self) == (BmNetworkHdrInfo { ttl: new_ttl & 7, ..*old(self) }),
    {
        self.ttl = new_ttl & 7;
    }

    pub fn set_hop_count(&mut self, new_hop_count: u8)
        ensures
            *final(self) == (BmNetworkHdrInfo { hop_count: new_hop_count & 7, ..*old(self) }),
    {
        self.hop_count = new_hop_count & 7;
    }

    pub fn set_required_ack(&mut self, new_required_ack: bool)
        ensures
            *final(self) == (BmNetworkHdrInfo { required_ack: new_required_ack, ..*old(self) }),
    {
        self.required_ack = new_required_ack;
    }

    pub fn into_bits(self) -> (b: u8)
        ensures
            b == self.spec_into_bits(),
    {
        (self.ttl & 7) | ((self.hop_count & 7) << 3) | ((if self.required_ack {
            1u8
        } else {
            0u8
        }) << 6) | ((if self.encrypted {
            1u8
        } else {
            0u8
        }) << 7)
    }

    pub fn from_bits(b: u8) -> (r: Self)
        ensures
            r == Self::spec_from_bits(b),
            r.wf(),
    {
        let r = BmNetworkHdrInfo {
            ttl: b & 7,
            hop_count: (b >> 3) & 7,
            required_ack: b & 0x40 != 0,
            encrypted: b & 0x80 != 0,
        };
        proof {
            assert(b & 7 <= 7 && (b >> 3) & 7 <= 7) by (bit_vector);
        }
        r
    }
}

/// Packing then unpacking a header-info value recovers its fields, provided
/// the two 3-bit fields are in range.
pub proof fn lemma_hdr_info_from_into(i: BmNetworkHdrInfo)
    requires
        i.wf(),
    ensures
        BmNetworkHdrInfo::spec_from_bits(i.spec_into_bits()) == i,
{
    let t = i.ttl;
    let h = i.hop_count;
    let a: u8 = if i.required_ack { 1 } else { 0 };
    let e: u8 = if i.encrypted { 1 } else { 0 };
    assert(t <= 7 && h <= 7 && a <= 1 && e <= 1 ==> {
        &&& ((t & 7) | ((h & 7) << 3) | (a << 6) | (e << 7)) & 7 == t
        &&& ((((t & 7) | ((h & 7) << 3) | (a << 6) | (e << 7))) >> 3) & 7 == h
        &&& (((t & 7) | ((h & 7) << 3) | (a << 6) | (e << 7)) & 0x40 != 0) == (a == 1)
        &&& (((t & 7) | ((h & 7) << 3) | (a << 6) | (e << 7)) & 0x80 != 0) == (e == 1)
    }) by (bit_vector);
}

/// Unpacking then packing a wire byte reproduces that byte exactly.
pub proof fn lemma_hdr_info_into_from(b: u8)
    ensures
        BmNetworkHdrInfo::spec_from_bits(b).spec_into_bits() == b,
{
    let a: u8 = if b & 0x40 != 0 { 1 } else { 0 };
    let e: u8 = if b & 0x80 != 0 { 1 } else { 0 };
    assert((a == (if b & 0x40 != 0 { 1u8 } else { 0u8 }) && e == (if b & 0x80 != 0 {
        1u8
    } else {
        0u8
    })) ==> (((b & 7) & 7) | ((((b >> 3) & 7) & 7) << 3) | (a << 6) | (e << 7)) == b)
        by (bit_vector);
}

/// Addressing fields of a packet. `src` is rewritten by every relayer;
/// `orig` and `dest` name the end-to-end endpoints; `next_hop` the neighbor
/// chosen to carry the packet one step further.
#[derive(Debug, Clone, Copy, PartialEq)]
pub struct BmNetworkRoutingHdr {
    pub src: NetworkId,
    pub next_hop: NetworkId,
    pub orig: NetworkId,
    pub dest: NetworkId,
    pub info: BmNetworkHdrInfo,
}

impl BmNetworkRoutingHdr {
    pub fn new(ttl: u8, ack: bool) -> (r: BmNetworkRoutingHdr)
        ensures
            r.src is None && r.next_hop is None && r.orig is None && r.dest is None,
            r.info == (BmNetworkHdrInfo {
                ttl: ttl & 7,
                hop_count: 0u8,
                required_ack: ack,
                encrypted: false,
            }),
            r.info.wf(),
    {
        let r = BmNetworkRoutingHdr {
            src: None,
            next_hop: None,
            orig: None,
            dest: None,
            info: BmNetworkHdrInfo::new().with_ttl(ttl).with_hop_count(0).with_required_ack(
                ack,
            ).with_encrypted(false),
        };
        proof {
            assert(ttl & 7 <= 7 && 0u8 & 7 == 0) by (bit_vector);
        }
        r
    }

    pub fn with_src(self, new_src: NetworkId) -> (r: Self)
        ensures
            r == (BmNetworkRoutingHdr { src: new_src, ..self }),
    {
        BmNetworkRoutingHdr { src: new_src, ..self }
    }

    pub fn with_next_hop(self, new_next_hop: NetworkId) -> (r: Self)
        ensures
            r == (BmNetworkRoutingHdr { next_hop: new_next_hop, ..self }),
    {
        BmNetworkRoutingHdr { next_hop: new_next_hop, ..self }
    }

    pub fn with_orig(self, new_orig: NetworkId) -> (r: Self)
        ensures
            r == (BmNetworkRoutingHdr { orig: new_orig, ..self }),
    {
        BmNetworkRoutingHdr { orig: new_orig, ..self }
    }

    pub fn with_dest(self, new_dest: NetworkId) -> (r: Self)
        ensures
            r == (BmNetworkRoutingHdr { dest: new_dest, ..self }),
    {
        BmNetworkRoutingHdr { dest: new_dest, ..self }
    }

    pub fn set_ttl(&mut self, new_ttl: u8)
        ensures
            *final(self) == (BmNetworkRoutingHdr {
                info: BmNetworkHdrInfo { ttl: new_ttl & 7, ..old(self).info },
                ..*old(self)
            }),
    {
        self.info.set_ttl(new_ttl);
    }

    pub fn set_ack_required(&mut self, new_ack_required: bool)
        ensures
            *final(self) == (BmNetworkRoutingHdr {
                info: BmNetworkHdrInfo { required_ack: new_ack_required, ..old(self).info },
                ..*old(self)
            }),
    {
        self.info.set_required_ack(new_ack_required);
    }
}

/// Transmit lifecycle of an outbound packet. `Ready` means the packet may be
/// handed to the radio now; `Complete` means the radio finished but the
/// packet is retained because a reply is still expected.
#[derive(Debug, Clone, Copy, PartialEq, Eq, Structural)]
pub enum TransmitState {
    Waiting,
    Ready,
    Complete,
}

/// Mathematical image of a packet: the addressing fields, the payload as a
/// byte sequence, and the transmit metadata.
pub struct BmNetworkPacketView {
    pub packet_type: BmPacketTypes,
    pub type_code: u8,
    pub src: NetworkId,
    pub next_hop: NetworkId,
    pub orig: NetworkId,
    pub dest: NetworkId,
    pub info: BmNetworkHdrInfo,
    pub payload: Option<Seq<u8>>,
    pub tx_state: TransmitState,
    pub tx_complete_timestamp: Option<i64>,
    pub tx_count: u8,
    pub wait_for_reply: bool,
}

impl BmNetworkPacketView {
    /// Payload bytes, or the empty sequence when there is no payload.
    pub open spec fn payload_bytes(self) -> Seq<u8> {
        match self.payload {
            Some(p) => p,
            None => Seq::empty(),
        }
    }

    /// The classified type matches the stored wire byte, the info bit fields
    /// are in range, and the payload fits a frame.
    pub open spec fn wf(self) -> bool {
        &&& self.packet_type == BmPacketTypes::spec_from_bits(self.type_code)
        &&& self.info.wf()
        &&& self.payload_bytes().len() <= BM_MAX_PAYLOAD_SIZE
    }
}

/// The id value a header field serialises as: `None` travels as zero.
pub open spec fn id_value(id: NetworkId) -> u32 {
    match id {
        Some(v) => v,
        None => 0,
    }
}

/// The four little-endian bytes of an id field.
pub open spec fn spec_id_bytes(id: NetworkId) -> Seq<u8> {
    spec_u32_to_le_bytes(id_value(id))
}

/// The 18 header bytes of a packet.
pub open spec fn spec_header_bytes(p: BmNetworkPacketView) -> Seq<u8> {
    seq![p.type_code] + spec_id_bytes(p.dest) + spec_id_bytes(p.src) + spec_id_bytes(p.next_hop)
        + spec_id_bytes(p.orig) + seq![p.info.spec_into_bits()]
}

/// The full frame: header then payload.
pub open spec fn spec_encode(p: BmNetworkPacketView) -> Seq<u8> {
    spec_header_bytes(p) + p.payload_bytes()
}

/// What decoding the first `length` bytes of a frame yields: the five header
/// fields, the payload (absent when the frame is bare), and zeroed transmit
/// metadata. Frames shorter than a header, longer than the buffer, or too
/// long to re-emit are refused.
pub open spec fn spec_decode(length: int, bytes: Seq<u8>) -> Option<BmNetworkPacketView> {
    if length < BM_PACKET_HDR_SIZE || length > bytes.len() || length > BM_MAX_OTA_SIZE {
        None
    } else {
        Some(BmNetworkPacketView {
            packet_type: BmPacketTypes::spec_from_bits(bytes[0]),
            type_code: bytes[0],
            dest: Some(spec_u32_from_le_bytes(bytes.subrange(1, 5))),
            src: Some(spec_u32_from_le_bytes(bytes.subrange(5, 9))),
            next_hop: Some(spec_u32_from_le_bytes(bytes.subrange(9, 13))),
            orig: Some(spec_u32_from_le_bytes(bytes.subrange(13, 17))),
            info: BmNetworkHdrInfo::spec_from_bits(bytes[17]),
            payload: if length > BM_PACKET_HDR_SIZE {
                Some(bytes.subrange(BM_PACKET_HDR_SIZE as int, length))
            } else {
                None
            },
            tx_state: TransmitState::Waiting,
            tx_complete_timestamp: None,
            tx_count: 0u8,
            wait_for_reply: false,
        })
    }
}

/// A packet together with its transmit metadata. The metadata never goes
/// over the air. `type_code` keeps the raw wire byte so that a frame whose
/// type byte is unknown still re-encodes exactly as it arrived.
#[derive(Debug)]
pub struct BmNetworkPacket {
    pub packet_type: BmPacketTypes,
    pub type_code: u8,
    pub routing_hdr: BmNetworkRoutingHdr,
    pub payload: Option<BmNetworkPacketPayload>,
    pub tx_state: TransmitState,
    pub tx_complete_timestamp: Option<i64>,
    pub tx_count: u8,
    pub wait_for_reply: bool,
}

impl View for BmNetworkPacket {
    type V = BmNetworkPacketView;

    open spec fn view(&self) -> BmNetworkPacketView {
        BmNetworkPacketView {
            packet_type: self.packet_type,
            type_code: self.type_code,
            src: self.routing_hdr.src,
            next_hop: self.routing_hdr.next_hop,
            orig: self.routing_hdr.orig,
            dest: self.routing_hdr.dest,
            info: self.routing_hdr.info,
            payload: match self.payload {
                Some(p) => Some(p@),
                None => None,
            },
            tx_state: self.tx_state,
            tx_complete_timestamp: self.tx_complete_timestamp,
            tx_count: self.tx_count,
            wait_for_reply: self.wait_for_reply,
        }
    }
}

impl Clone for BmNetworkPacket {
    fn clone(&self) -> (r: Self)
        ensures
            r@ == self@,
    {
        let r = BmNetworkPacket {
            packet_type: self.packet_type,
            type_code: self.type_code,
            routing_hdr: self.routing_hdr,
            payload: match &self.payload {
                Some(p) => Some(p.clone()),
                None => None,
            },
            tx_state: self.tx_state,
            tx_complete_timestamp: self.tx_complete_timestamp,
            tx_count: self.tx_count,
            wait_for_reply: self.wait_for_reply,
        };
        proof {
            assert(r@.payload matches Some(s) ==> self@.payload matches Some(t) && s =~= t);
            assert(r@ == self@);
        }
        r
    }
}

impl BmNetworkPacket {
    pub fn new(
        new_packet_type: BmPacketTypes,
        orig: NetworkId,
        next_hop: NetworkId,
        dest: NetworkId,
        ttl: u8,
        ack: bool,
        new_payload: Option<BmNetworkPacketPayload>,
    ) -> (r: Self)
        ensures
            r@.packet_type == new_packet_type,
            r@.type_code == new_packet_type.spec_into_bits(),
            r@.src == orig,
            r@.next_hop == next_hop,
            r@.orig == orig,
            r@.dest == dest,
            r@.info == (BmNetworkHdrInfo {
                ttl: ttl & 7,
                hop_count: 0u8,
                required_ack: ack,
                encrypted: false,
            }),
            r@.payload == match new_payload {
                Some(p) => Some::<Seq<u8>>(p@),
                None => None::<Seq<u8>>,
            },
            r@.tx_state == TransmitState::Waiting,
            r@.tx_complete_timestamp is None,
            r@.tx_count == 0,
            !r@.wait_for_reply,
            r@.info.wf(),
    {
        let type_code = new_packet_type.into_bits();
        let r = BmNetworkPacket {
            packet_type: new_packet_type,
            type_code,
            routing_hdr: BmNetworkRoutingHdr::new(ttl, ack).with_src(orig).with_next_hop(
                next_hop,
            ).with_orig(orig).with_dest(dest),
            payload: new_payload,
            tx_state: TransmitState::Waiting,
            tx_complete_timestamp: None,
            tx_count: 0,
            wait_for_reply: false,
        };
        r
    }

    pub fn with_next_hop(self, new_next_hop: NetworkId) -> (r: Self)
        ensures
            r@ == (BmNetworkPacketView { next_hop: new_next_hop, ..self@ }),
    {
        BmNetworkPacket { routing_hdr: self.routing_hdr.with_next_hop(new_next_hop), ..self }
    }

    pub fn with_ok_to_transmit(self) -> (r: Self)
        ensures
            r@ == (BmNetworkPacketView { tx_state: TransmitState::Ready, ..self@ }),
    {
        BmNetworkPacket { tx_state: TransmitState::Ready, ..self }
    }

    pub fn with_wait_for_reply(self) -> (r: Self)
        ensures
            r@ == (BmNetworkPacketView { wait_for_reply: true, ..self@ }),
    {
        BmNetworkPacket { wait_for_reply: true, ..self }
    }

    pub fn get_source(&self) -> (r: NetworkId)
        ensures
            r == self@.src,
    {
        self.routing_hdr.src
    }

    pub fn set_source(&mut self, new_src: NetworkId)
        ensures
            final(self)@ == (BmNetworkPacketView { src: new_src, ..old(self)@ }),
    {
        self.routing_hdr.src = new_src;
    }

    pub fn get_next_hop(&self) -> (r: NetworkId)
        ensures
            r == self@.next_hop,
    {
        self.routing_hdr.next_hop
    }

    pub fn set_next_hop(&mut self, new_next_hop: NetworkId)
        ensures
            final(self)@ == (BmNetworkPacketView { next_hop: new_next_hop, ..old(self)@ }),
    {
        self.routing_hdr.next_hop = new_next_hop;
    }

    pub fn get_originator(&self) -> (r: NetworkId)
        ensures
            r == self@.orig,
    {
        self.routing_hdr.orig
    }

    pub fn get_destination(&self) -> (r: NetworkId)
        ensures
            r == self@.dest,
    {
        self.routing_hdr.dest
    }

    pub fn get_hop_count(&self) -> (r: u8)
        ensures
            r == self@.info.hop_count,
    {
        self.routing_hdr.info.hop_count
    }

    pub fn get_info(&self) -> (r: BmNetworkHdrInfo)
        ensures
            r == self@.info,
    {
        self.routing_hdr.info
    }

    pub fn set_info(&mut self, new_info: BmNetworkHdrInfo)
        ensures
            final(self)@ == (BmNetworkPacketView { info: new_info, ..old(self)@ }),
    {
        self.routing_hdr.info = new_info;
    }

    /// Adds one relay to the hop count; the 3-bit field saturates at 7 and
    /// never wraps.
    pub fn increment_hop_count(&mut self)
        ensures
            final(self)@ == (BmNetworkPacketView {
                info: BmNetworkHdrInfo {
                    hop_count: if old(self)@.info.hop_count < MAX_TTL_HOP_CNT {
                        (old(self)@.info.hop_count + 1) as u8
                    } else {
                        old(self)@.info.hop_count
                    },
                    ..old(self)@.info
                },
                ..old(self)@
            }),
            final(self)@.info.hop_count <= 7 || final(self)@.info.hop_count == old(
                self,
            )@.info.hop_count,
    {
        let hop_cnt = self.routing_hdr.info.hop_count;
        if hop_cnt < MAX_TTL_HOP_CNT {
            self.routing_hdr.info.hop_count = hop_cnt + 1;
        }
    }

    pub fn set_ok_to_transmit(&mut self)
        ensures
            final(self)@ == (BmNetworkPacketView { tx_state: TransmitState::Ready, ..old(self)@ }),
    {
        self.tx_state = TransmitState::Ready;
    }

    pub fn is_ok_to_transmit(&self) -> (r: bool)
        ensures
            r == (self@.tx_state == TransmitState::Ready),
    {
        self.tx_state == TransmitState::Ready
    }

    pub fn set_wait_for_reply(&mut self)
        ensures
            final(self)@ == (BmNetworkPacketView { wait_for_reply: true, ..old(self)@ }),
    {
        self.wait_for_reply = true;
    }

    pub fn is_waiting_for_reply(&self) -> (r: bool)
        ensures
            r == self@.wait_for_reply,
    {
        self.wait_for_reply
    }

    pub fn get_payload(&self) -> (r: &Option<BmNetworkPacketPayload>)
        ensures
            self@.payload matches Some(s) ==> r matches Some(p) && p@ == s,
            self@.payload is None ==> r is None,
    {
        &self.payload
    }

    pub fn get_payload_len(&self) -> (r: usize)
        ensures
            r == self@.payload_bytes().len(),
    {
        match &self.payload {
            Some(p) => p.len(),
            None => 0,
        }
    }

    /// Decodes the first `length` bytes of a received frame. Refuses frames
    /// shorter than a header, longer than the buffer holds, or too long to
    /// carry; zero payload bytes decode as "no payload".
    pub fn from(length: usize, buffer: &[u8]) -> (r: Option<BmNetworkPacket>)
        ensures
            match r {
                Some(p) => spec_decode(length as int, buffer@) == Some(p@) && p@.wf(),
                None => spec_decode(length as int, buffer@) is None,
            },
    {
        if length < BM_PACKET_HDR_SIZE || length > buffer.len() || length > BM_MAX_OTA_SIZE {
            return None;
        }
        let type_code = buffer[0];
        let dest = u32_from_le_bytes(slice_range(buffer, 1, 5));
        let src = u32_from_le_bytes(slice_range(buffer, 5, 9));
        let next_hop = u32_from_le_bytes(slice_range(buffer, 9, 13));
        let orig = u32_from_le_bytes(slice_range(buffer, 13, 17));
        let info = BmNetworkHdrInfo::from_bits(buffer[17]);
        let mut payload: Option<BmNetworkPacketPayload> = None;
        if length > BM_PACKET_HDR_SIZE {
            let mut pv: Vec<u8> = Vec::new();
            let mut i: usize = BM_PACKET_HDR_SIZE;
            while i < length
                invariant
                    BM_PACKET_HDR_SIZE <= i <= length,
                    length <= buffer@.len(),
                    pv@ =~= buffer@.subrange(BM_PACKET_HDR_SIZE as int, i as int),
                decreases length - i,
            {
                pv.push(buffer[i]);
                proof {
                    assert(pv@ =~= buffer@.subrange(BM_PACKET_HDR_SIZE as int, i + 1 as int));
                }
                i = i + 1;
            }
            payload = Some(pv);
        }
        Some(
            BmNetworkPacket {
                packet_type: BmPacketTypes::from_bits(type_code),
                type_code,
                routing_hdr: BmNetworkRoutingHdr {
                    dest: Some(dest),
                    src: Some(src),
                    next_hop: Some(next_hop),
                    orig: Some(orig),
                    info,
                },
                payload,
                tx_state: TransmitState::Waiting,
                tx_complete_timestamp: None,
                tx_count: 0,
                wait_for_reply: false,
            },
        )
    }

    /// Serialises the packet: 18 header bytes then the payload bytes. A
    /// payload too large for a frame refuses to serialise.
    pub fn to_bytes(&self) -> (r: Option<BmNetworkOtaPacket>)
        ensures
            if self@.payload_bytes().len() <= BM_MAX_PAYLOAD_SIZE {
                r matches Some(v) && v@ == spec_encode(self@)
            } else {
                r is None
            },
    {
        if let Some(p) = &self.payload {
            if p.len() > BM_MAX_PAYLOAD_SIZE {
                return None;
            }
        }
        let mut out_buffer: Vec<u8> = Vec::new();
        out_buffer.push(self.type_code);
        let mut dest_bytes = u32_to_le_bytes(id_value_exec(self.routing_hdr.dest));
        out_buffer.append(&mut dest_bytes);
        let mut src_bytes = u32_to_le_bytes(id_value_exec(self.routing_hdr.src));
        out_buffer.append(&mut src_bytes);
        let mut next_hop_bytes = u32_to_le_bytes(id_value_exec(self.routing_hdr.next_hop));
        out_buffer.append(&mut next_hop_bytes);
        let mut orig_bytes = u32_to_le_bytes(id_value_exec(self.routing_hdr.orig));
        out_buffer.append(&mut orig_bytes);
        out_buffer.push(self.routing_hdr.info.into_bits());
        proof {
            assert(out_buffer@ =~= spec_header_bytes(self@));
        }
        if let Some(p) = &self.payload {
            let mut payload_bytes = p.clone();
            out_buffer.append(&mut payload_bytes);
        }
        proof {
            assert(out_buffer@ =~= spec_encode(self@));
        }
        Some(out_buffer)
    }
}

/// Law: re-encoding a decoded frame reproduces the frame exactly — the 18
/// header bytes and every payload byte — for every frame that decodes.
pub proof fn lemma_encode_decode(length: int, bytes: Seq<u8>)
    requires
        spec_decode(length, bytes) is Some,
    ensures
        spec_encode(spec_decode(length, bytes).unwrap()) == bytes.subrange(0, length),
{
    let p = spec_decode(length, bytes).unwrap();
    lemma_auto_spec_u32_to_from_le_bytes();
    lemma_hdr_info_into_from(bytes[17]);
    assert(spec_id_bytes(p.dest) == bytes.subrange(1, 5));
    assert(spec_id_bytes(p.src) == bytes.subrange(5, 9));
    assert(spec_id_bytes(p.next_hop) == bytes.subrange(9, 13));
    assert(spec_id_bytes(p.orig) == bytes.subrange(13, 17));
    assert(spec_encode(p) =~= bytes.subrange(0, length));
}

/// Law: the 18 header bytes pin the header fields down. Two well-formed
/// packets with the same header bytes agree on the type byte, on the value
/// each id field serialises as, and on every info bit field.
pub proof fn lemma_header_bytes_inject(p1: BmNetworkPacketView, p2: BmNetworkPacketView)
    requires
        p1.wf(),
        p2.wf(),
        spec_header_bytes(p1) == spec_header_bytes(p2),
    ensures
        p1.type_code == p2.type_code,
        id_value(p1.dest) == id_value(p2.dest),
        id_value(p1.src) == id_value(p2.src),
        id_value(p1.next_hop) == id_value(p2.next_hop),
        id_value(p1.orig) == id_value(p2.orig),
        p1.info == p2.info,
{
    lemma_auto_spec_u32_to_from_le_bytes();
    let h1 = spec_header_bytes(p1);
    let h2 = spec_header_bytes(p2);
    assert(h1[0] == p1.type_code && h2[0] == p2.type_code);
    assert(h1.subrange(1, 5) =~= spec_id_bytes(p1.dest));
    assert(h2.subrange(1, 5) =~= spec_id_bytes(p2.dest));
    assert(h1.subrange(5, 9) =~= spec_id_bytes(p1.src));
    assert(h2.subrange(5, 9) =~= spec_id_bytes(p2.src));
    assert(h1.subrange(9, 13) =~= spec_id_bytes(p1.next_hop));
    assert(h2.subrange(9, 13) =~= spec_id_bytes(p2.next_hop));
    assert(h1.subrange(13, 17) =~= spec_id_bytes(p1.orig));
    assert(h2.subrange(13, 17) =~= spec_id_bytes(p2.orig));
    assert(h1[17] == p1.info.spec_into_bits() && h2[17] == p2.info.spec_into_bits());
    lemma_hdr_info_from_into(p1.info);
    lemma_hdr_info_from_into(p2.info);
}

/// Law: encoding is injective on the header layout. Two well-formed packets
/// whose five addressed ids are all present and that differ anywhere in
/// `(type byte, dest, src, next hop, orig, info)` serialise to different
/// header bytes. (An id of `None` and one of `Some(0)` serialise alike, so
/// absent ids are excluded.)
pub proof fn lemma_encode_injective(p1: BmNetworkPacketView, p2: BmNetworkPacketView)
    requires
        p1.wf(),
        p2.wf(),
        p1.dest is Some && p1.src is Some && p1.next_hop is Some && p1.orig is Some,
        p2.dest is Some && p2.src is Some && p2.next_hop is Some && p2.orig is Some,
        !(p1.type_code == p2.type_code && p1.dest == p2.dest && p1.src == p2.src
            && p1.next_hop == p2.next_hop && p1.orig == p2.orig && p1.info == p2.info),
    ensures
        spec_header_bytes(p1) != spec_header_bytes(p2),
{
    if spec_header_bytes(p1) == spec_header_bytes(p2) {
        lemma_header_bytes_inject(p1, p2);
    }
}

/// The value an id field serialises as: `None` travels as zero.
pub fn id_value_exec(id: NetworkId) -> (r: u32)
    ensures
        r == id_value(id),
{
    match id {
        Some(v) => v,
        None => 0,
    }
}

/// A subslice, with its view tied to `Seq::subrange`.
pub fn slice_range<'a>(s: &'a [u8], start: usize, end: usize) -> (r: &'a [u8])
    requires
        start <= end <= s@.len(),
    ensures
        r@ == s@.subrange(start as int, end as int),
{
    &s[start..end]
}

} // verus!
