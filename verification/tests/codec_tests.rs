use bm_network::bm_network_packet::{BmNetworkHdrInfo, BmNetworkPacket, BmNetworkRoutingHdr, BmPacketTypes, TransmitState};

fn sample_frame() -> Vec<u8> {
    // type 20 (DataPayload); dest 2; src 5; next_hop 9; orig 5; info:
    // ttl=3, hop_count=1, required_ack -> 3 | 1<<3 | 1<<6 = 75; payload "Hi".
    let mut frame = vec![20u8];
    frame.extend_from_slice(&[2, 0, 0, 0]);
    frame.extend_from_slice(&[5, 0, 0, 0]);
    frame.extend_from_slice(&[9, 0, 0, 0]);
    frame.extend_from_slice(&[5, 0, 0, 0]);
    frame.push(75);
    frame.extend_from_slice(b"Hi");
    frame
}

#[test]
fn decode_reads_all_header_fields() {
    let frame = sample_frame();
    let p = BmNetworkPacket::from(frame.len(), &frame).unwrap();
    assert_eq!(p.packet_type, BmPacketTypes::DataPayload);
    assert_eq!(p.get_destination(), Some(2));
    assert_eq!(p.get_source(), Some(5));
    assert_eq!(p.get_next_hop(), Some(9));
    assert_eq!(p.get_originator(), Some(5));
    let info = p.get_info();
    assert_eq!(info.ttl, 3);
    assert_eq!(info.hop_count, 1);
    assert!(info.required_ack);
    assert!(!info.encrypted);
    assert_eq!(p.get_payload().as_ref().unwrap().as_slice(), b"Hi");
    assert_eq!(p.tx_state, TransmitState::Waiting);
    assert_eq!(p.tx_count, 0);
    assert!(!p.wait_for_reply);
    assert!(p.tx_complete_timestamp.is_none());
}

#[test]
fn encode_of_decode_reproduces_frame() {
    let frame = sample_frame();
    let p = BmNetworkPacket::from(frame.len(), &frame).unwrap();
    let bytes = p.to_bytes().unwrap();
    assert_eq!(bytes, frame);
}

#[test]
fn unknown_type_byte_round_trips() {
    let mut frame = sample_frame();
    frame[0] = 99;
    let p = BmNetworkPacket::from(frame.len(), &frame).unwrap();
    assert_eq!(p.packet_type, BmPacketTypes::BcastNeighborTable);
    let bytes = p.to_bytes().unwrap();
    assert_eq!(bytes, frame);
}

#[test]
fn decode_refuses_short_frames() {
    let frame = sample_frame();
    assert!(BmNetworkPacket::from(17, &frame).is_none());
    assert!(BmNetworkPacket::from(0, &frame).is_none());
}

#[test]
fn decode_refuses_length_past_buffer() {
    let frame = sample_frame();
    assert!(BmNetworkPacket::from(frame.len() + 1, &frame).is_none());
}

#[test]
fn bare_header_decodes_without_payload() {
    let frame = sample_frame();
    let p = BmNetworkPacket::from(18, &frame).unwrap();
    assert!(p.get_payload().is_none());
    assert_eq!(p.get_payload_len(), 0);
    let bytes = p.to_bytes().unwrap();
    assert_eq!(bytes.as_slice(), &frame[0..18]);
}

#[test]
fn absent_ids_encode_as_zero() {
    let p = BmNetworkPacket::new(BmPacketTypes::RouteDiscoveryRequest, None, None, None, 7, false, None);
    let bytes = p.to_bytes().unwrap();
    assert_eq!(bytes.len(), 18);
    assert_eq!(bytes[0], 10);
    for i in 1..17 {
        assert_eq!(bytes[i], 0);
    }
    assert_eq!(bytes[17], 7);
}

#[test]
fn different_headers_encode_differently() {
    let frame = sample_frame();
    let p1 = BmNetworkPacket::from(frame.len(), &frame).unwrap();
    let mut p2 = BmNetworkPacket::from(frame.len(), &frame).unwrap();
    p2.set_next_hop(Some(10));
    let b1 = p1.to_bytes().unwrap();
    let b2 = p2.to_bytes().unwrap();
    assert_ne!(b1, b2);
}

#[test]
fn hop_count_increment_saturates_at_seven() {
    let frame = sample_frame();
    let mut p = BmNetworkPacket::from(frame.len(), &frame).unwrap();
    assert_eq!(p.get_hop_count(), 1);
    for _ in 0..20 {
        p.increment_hop_count();
    }
    assert_eq!(p.get_hop_count(), 7);
    p.increment_hop_count();
    assert_eq!(p.get_hop_count(), 7);
}

#[test]
fn hdr_info_bits_round_trip() {
    let info = BmNetworkHdrInfo::new().with_ttl(5).with_hop_count(2).with_required_ack(true);
    let b = info.into_bits();
    assert_eq!(b, 5 | (2 << 3) | (1 << 6));
    let back = BmNetworkHdrInfo::from_bits(b);
    assert_eq!(back, info);
}

#[test]
fn hdr_info_wide_values_are_masked() {
    let info = BmNetworkHdrInfo::new().with_ttl(9).with_hop_count(250);
    assert_eq!(info.ttl, 1);
    assert_eq!(info.hop_count, 2);
}

#[test]
fn packet_type_bits_match_wire_values() {
    assert_eq!(BmPacketTypes::BcastNeighborTable.into_bits(), 0);
    assert_eq!(BmPacketTypes::RouteDiscoveryRequest.into_bits(), 10);
    assert_eq!(BmPacketTypes::RouteDiscoveryResponse.into_bits(), 11);
    assert_eq!(BmPacketTypes::RouteDiscoveryError.into_bits(), 12);
    assert_eq!(BmPacketTypes::DataPayload.into_bits(), 20);
    assert_eq!(BmPacketTypes::DataPayloadAck.into_bits(), 21);
    assert_eq!(BmPacketTypes::from_bits(11), BmPacketTypes::RouteDiscoveryResponse);
    assert_eq!(BmPacketTypes::from_bits(13), BmPacketTypes::BcastNeighborTable);
}

#[test]
fn oversize_payload_refuses_to_build() {
    let big = vec![0u8; 300];
    let p = BmNetworkPacket::new(
        BmPacketTypes::DataPayload,
        Some(1),
        None,
        Some(2),
        3,
        false,
        Some(big),
    );
    assert!(p.to_bytes().is_none());
}

#[test]
fn routing_hdr_builders_set_fields() {
    let mut hdr = BmNetworkRoutingHdr::new(3, true)
        .with_src(Some(1))
        .with_next_hop(Some(2))
        .with_orig(Some(3))
        .with_dest(Some(4));
    assert_eq!(hdr.src, Some(1));
    assert_eq!(hdr.next_hop, Some(2));
    assert_eq!(hdr.orig, Some(3));
    assert_eq!(hdr.dest, Some(4));
    assert_eq!(hdr.info.ttl, 3);
    assert!(hdr.info.required_ack);
    hdr.set_ttl(5);
    hdr.set_ack_required(false);
    assert_eq!(hdr.info.ttl, 5);
    assert!(!hdr.info.required_ack);
}
