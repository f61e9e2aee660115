use bm_network::bm_network_engine::{BmEngineStatus, BmNetworkEngine};
use bm_network::bm_network_packet::{BmNetworkPacket, BmPacketTypes, TransmitState};

const RSSI: i16 = -60;

/// Carries every frame one engine has ready into another engine, in
/// order, acknowledging each TX to the sender.
fn carry_all(from: &mut BmNetworkEngine, to: &mut BmNetworkEngine, now: i64) {
    while let Some(pkt) = from.get_next_outbound_packet() {
        let bytes = pkt.to_bytes().unwrap();
        from.set_next_outbound_complete(now);
        to.process_packet(bytes.len(), &bytes, now, RSSI);
    }
}

/// A frame from `orig` as a direct neighbor would emit it.
fn neighbor_frame(orig: u32, dest: u32, ttl: u8) -> Vec<u8> {
    BmNetworkPacket::new(
        BmPacketTypes::BcastNeighborTable,
        Some(orig),
        None,
        Some(dest),
        ttl,
        false,
        None,
    )
    .to_bytes()
    .unwrap()
}

#[test]
fn direct_neighbor_delivery_with_ack() {
    // S1: A (id 1) sends to B (id 2) with ack; no route known at first.
    let mut a = BmNetworkEngine::new(Some(1));
    let mut b = BmNetworkEngine::new(Some(2));

    a.initiate_packet_transfer(Some(2), true, 3, b"Hi".to_vec());
    assert_eq!(a.engine_status, BmEngineStatus::PerformingNetworkDiscovery);
    assert_eq!(a.outbound.len(), 2);

    // The discovery request floods to B; B answers with a response.
    carry_all(&mut a, &mut b, 100);
    assert_eq!(b.table.get_next_hop(Some(1)), Some(1));
    carry_all(&mut b, &mut a, 200);

    // A learned 2 -> next hop 2, distance 0, and found its route.
    assert_eq!(a.table.get_next_hop(Some(2)), Some(2));
    let entry_idx = a.table.find_node_by_id(Some(2)).unwrap();
    let entry = a.table.get_node_by_idx(entry_idx).unwrap();
    assert_eq!(entry.routes[0].distance, 0);
    assert_eq!(a.engine_status, BmEngineStatus::RouteFound);

    assert_eq!(a.run_engine(300), BmEngineStatus::RouteFound);
    assert_eq!(a.engine_status, BmEngineStatus::SendingPayload);
    assert_eq!(a.run_engine(300), BmEngineStatus::SendingPayload);
    assert_eq!(a.engine_status, BmEngineStatus::WaitingForAck);

    // The payload reaches B; B queues it inbound and acks.
    carry_all(&mut a, &mut b, 400);
    assert_eq!(b.get_inbound_message_count(), 1);
    let msg = b.get_inbound_message().unwrap();
    assert_eq!(msg.get_payload().as_ref().unwrap().as_slice(), b"Hi");

    // The ack returns; A drains to Idle through AckReceieved and Complete.
    carry_all(&mut b, &mut a, 500);
    assert_eq!(a.engine_status, BmEngineStatus::AckReceieved);
    assert_eq!(a.run_engine(600), BmEngineStatus::AckReceieved);
    assert_eq!(a.run_engine(600), BmEngineStatus::Complete);
    assert_eq!(a.engine_status, BmEngineStatus::Idle);
    assert_eq!(a.outbound.len(), 0);
}

#[test]
fn two_hop_delivery() {
    // S2: A(1) -> B(2) -> C(3); A and C are not neighbors, frames pass
    // through B only.
    let mut a = BmNetworkEngine::new(Some(1));
    let mut b = BmNetworkEngine::new(Some(2));
    let mut c = BmNetworkEngine::new(Some(3));

    a.initiate_packet_transfer(Some(3), true, 3, b"Hi".to_vec());
    carry_all(&mut a, &mut b, 100);
    assert_eq!(b.table.get_next_hop(Some(1)), Some(1));
    carry_all(&mut b, &mut c, 150);
    // C saw the relayed discovery: 1 is reachable via 2 at one relay.
    assert_eq!(c.table.get_next_hop(Some(1)), Some(2));
    // C answered; B routes the response back to A.
    carry_all(&mut c, &mut b, 200);
    carry_all(&mut b, &mut a, 250);
    assert_eq!(a.table.get_next_hop(Some(3)), Some(2));
    assert_eq!(a.engine_status, BmEngineStatus::RouteFound);

    a.run_engine(300);
    a.run_engine(300);
    assert_eq!(a.engine_status, BmEngineStatus::WaitingForAck);

    // Payload travels A -> B -> C; the ack travels back C -> B -> A.
    carry_all(&mut a, &mut b, 400);
    carry_all(&mut b, &mut c, 450);
    assert_eq!(c.get_inbound_message_count(), 1);
    carry_all(&mut c, &mut b, 500);
    carry_all(&mut b, &mut a, 550);
    assert_eq!(a.engine_status, BmEngineStatus::AckReceieved);
}

#[test]
fn ack_timeout_retries_then_fails() {
    // S3: the route exists, the payload goes out, but no ack ever comes.
    let mut a = BmNetworkEngine::new(Some(1));
    let frame = neighbor_frame(2, 1, 3);
    a.process_packet(frame.len(), &frame, 0, RSSI);
    assert_eq!(a.table.get_next_hop(Some(2)), Some(2));

    a.initiate_packet_transfer(Some(2), true, 3, b"Hi".to_vec());
    assert_eq!(a.engine_status, BmEngineStatus::SendingPayload);
    a.run_engine(10);
    assert_eq!(a.engine_status, BmEngineStatus::WaitingForAck);

    // The radio reports the first transmission done.
    a.set_next_outbound_complete(1000);
    assert_eq!(a.outbound[0].tx_count, 1);

    // Within 10 s nothing happens; past it the engine retries.
    a.run_engine(10999);
    assert_eq!(a.engine_status, BmEngineStatus::WaitingForAck);
    a.run_engine(11001);
    assert_eq!(a.engine_status, BmEngineStatus::RetryingPayload);
    a.run_engine(11002);
    assert_eq!(a.engine_status, BmEngineStatus::SendingPayload);
    assert_eq!(a.outbound[0].tx_count, 2);
    a.run_engine(11003);
    assert_eq!(a.engine_status, BmEngineStatus::WaitingForAck);

    // The failure was recorded against the destination's primary route.
    let entry_idx = a.table.find_node_by_id(Some(2)).unwrap();
    let entry = a.table.get_node_by_idx(entry_idx).unwrap();
    assert_eq!(entry.routes[0].failures, 1);

    // A second silence gives up.
    a.set_next_outbound_complete(12000);
    a.run_engine(23000);
    assert_eq!(a.engine_status, BmEngineStatus::ErrorNoAck);
    a.run_engine(23001);
    assert_eq!(a.engine_status, BmEngineStatus::Complete);
    a.run_engine(23002);
    assert_eq!(a.engine_status, BmEngineStatus::Idle);
    assert_eq!(a.outbound.len(), 0);
}

#[test]
fn ttl_extinction_still_learns_route() {
    // S4: a dead frame (hop_count >= ttl) is dropped before any enqueue,
    // but the routing table still learns from it.
    let mut a = BmNetworkEngine::new(Some(1));
    let mut p = BmNetworkPacket::new(
        BmPacketTypes::DataPayload,
        Some(5),
        None,
        Some(1),
        1,
        false,
        Some(b"x".to_vec()),
    );
    let info = p.get_info().with_hop_count(1);
    p.set_info(info);
    let bytes = p.to_bytes().unwrap();
    let r = a.process_packet(bytes.len(), &bytes, 0, RSSI);
    assert!(r.is_none());
    assert_eq!(a.get_inbound_message_count(), 0);
    assert_eq!(a.outbound.len(), 0);
    assert_eq!(a.table.get_next_hop(Some(5)), Some(5));
}

#[test]
fn self_echo_changes_nothing() {
    // S5: a frame whose originator is this node mutates no state.
    let mut a = BmNetworkEngine::new(Some(1));
    let frame = neighbor_frame(1, 2, 3);
    let r = a.process_packet(frame.len(), &frame, 0, RSSI);
    assert!(r.is_none());
    assert_eq!(a.table.get_num_nodes(), 0);
    assert_eq!(a.get_inbound_message_count(), 0);
    assert_eq!(a.outbound.len(), 0);
    assert_eq!(a.engine_status, BmEngineStatus::Idle);
}

#[test]
fn busy_engine_refuses_second_transfer() {
    // S6: while a transfer is in flight a second request is refused whole.
    let mut a = BmNetworkEngine::new(Some(1));
    let frame = neighbor_frame(2, 1, 3);
    a.process_packet(frame.len(), &frame, 0, RSSI);
    a.initiate_packet_transfer(Some(2), true, 3, b"Hi".to_vec());
    a.run_engine(10);
    assert_eq!(a.engine_status, BmEngineStatus::WaitingForAck);
    let outbound_before = a.outbound.len();
    a.initiate_packet_transfer(Some(2), false, 3, b"again".to_vec());
    assert_eq!(a.outbound.len(), outbound_before);
    assert_eq!(a.engine_status, BmEngineStatus::WaitingForAck);
}

#[test]
fn tx_done_settles_exactly_first_ready_packet() {
    // Two discovery requests addressed to us queue two ready responses;
    // one TX-done event settles only the first.
    let mut a = BmNetworkEngine::new(Some(1));
    for orig in [7u32, 8u32] {
        let frame = BmNetworkPacket::new(
            BmPacketTypes::RouteDiscoveryRequest,
            Some(orig),
            None,
            Some(1),
            3,
            false,
            None,
        )
        .to_bytes()
        .unwrap();
        a.process_packet(frame.len(), &frame, 0, RSSI);
    }
    assert_eq!(a.outbound.len(), 2);
    assert_eq!(a.outbound[0].tx_state, TransmitState::Ready);
    assert_eq!(a.outbound[1].tx_state, TransmitState::Ready);
    a.set_next_outbound_complete(50);
    // The first response expected no reply, so it left the queue; the
    // second is untouched and still ready.
    assert_eq!(a.outbound.len(), 1);
    assert_eq!(a.outbound[0].tx_state, TransmitState::Ready);
    assert_eq!(a.outbound[0].get_destination(), Some(8));
}

#[test]
fn tx_done_retains_reply_pending_packet() {
    let mut a = BmNetworkEngine::new(Some(1));
    a.initiate_packet_transfer(Some(2), false, 3, b"Hi".to_vec());
    // No route: the working packet is the ready discovery request.
    assert_eq!(a.engine_status, BmEngineStatus::PerformingNetworkDiscovery);
    a.set_next_outbound_complete(42);
    assert_eq!(a.outbound.len(), 2);
    assert_eq!(a.outbound[1].tx_state, TransmitState::Complete);
    assert_eq!(a.outbound[1].tx_complete_timestamp, Some(42));
    assert_eq!(a.outbound[1].tx_count, 1);
}

#[test]
fn discovery_times_out_with_no_route() {
    let mut a = BmNetworkEngine::new(Some(1));
    a.initiate_packet_transfer(Some(2), false, 3, b"Hi".to_vec());
    a.set_next_outbound_complete(1000);
    a.run_engine(11000);
    assert_eq!(a.engine_status, BmEngineStatus::PerformingNetworkDiscovery);
    a.run_engine(11001);
    assert_eq!(a.engine_status, BmEngineStatus::ErrorNoRoute);
    a.run_engine(11002);
    assert_eq!(a.engine_status, BmEngineStatus::Complete);
    a.run_engine(11003);
    assert_eq!(a.engine_status, BmEngineStatus::Idle);
}

#[test]
fn request_addressed_to_us_is_answered() {
    let mut a = BmNetworkEngine::new(Some(1));
    let frame = BmNetworkPacket::new(
        BmPacketTypes::RouteDiscoveryRequest,
        Some(9),
        None,
        Some(1),
        5,
        true,
        None,
    )
    .to_bytes()
    .unwrap();
    a.process_packet(frame.len(), &frame, 0, RSSI);
    assert_eq!(a.outbound.len(), 1);
    let resp = &a.outbound[0];
    assert_eq!(resp.packet_type, BmPacketTypes::RouteDiscoveryResponse);
    assert_eq!(resp.get_originator(), Some(1));
    assert_eq!(resp.get_destination(), Some(9));
    assert_eq!(resp.get_next_hop(), Some(9));
    assert_eq!(resp.get_info().ttl, 5);
    assert!(resp.get_info().required_ack);
    assert_eq!(resp.tx_state, TransmitState::Ready);
}

#[test]
fn unicast_with_no_route_is_dropped() {
    let mut a = BmNetworkEngine::new(Some(1));
    // A payload for node 9 arrives from node 5, but we know no route to 9.
    let frame = BmNetworkPacket::new(
        BmPacketTypes::DataPayload,
        Some(5),
        None,
        Some(9),
        3,
        false,
        Some(b"x".to_vec()),
    )
    .to_bytes()
    .unwrap();
    a.process_packet(frame.len(), &frame, 0, RSSI);
    assert_eq!(a.outbound.len(), 0);
    // The sender was still learned.
    assert_eq!(a.table.get_next_hop(Some(5)), Some(5));
}

#[test]
fn broadcast_is_relayed_with_one_more_hop() {
    let mut a = BmNetworkEngine::new(Some(1));
    let frame = neighbor_frame(5, 9, 3);
    a.process_packet(frame.len(), &frame, 0, RSSI);
    assert_eq!(a.outbound.len(), 1);
    let relay = &a.outbound[0];
    assert_eq!(relay.get_source(), Some(1));
    assert_eq!(relay.get_originator(), Some(5));
    assert_eq!(relay.get_hop_count(), 1);
    assert_eq!(relay.tx_state, TransmitState::Ready);
}
