//! The transfer engine: the receive-side decision tree and the
//! transmit-side state machine that drives one local transfer at a time
//! through discovery, payload transmission, retry and ack-wait. It also owns
//! the outbound queue policy: packets marked ready are drained in insertion
//! order, and one radio TX-done event settles exactly one packet.

use vstd::prelude::*;
use crate::bm_network_configs::{
    BM_INBOUND_QUEUE_SIZE, BM_OUTBOUND_QUEUE_SIZE, BM_MAX_PAYLOAD_SIZE, BM_PACKET_RETRY_COUNT,
    BM_REPLY_TIMEOUT_MS, MAX_TTL_HOP_CNT,
};
use crate::bm_network_packet::{
    BmNetworkHdrInfo, BmNetworkPacket, BmNetworkPacketPayload, BmNetworkPacketView, BmPacketTypes,
    TransmitState, spec_decode,
};
use crate::bm_network_routing_table::{
    BmNetworkRoutingTable, BmNetworkRoutingTableView, table_updated, table_error_marked,
    spec_next_hop,
};
use crate::{NetworkId, RssiType, TimeType};

verus! {

/// The transmit-side state machine. `run_engine` advances it; received
/// replies move it sideways; it always returns to `Idle` through
/// `Complete`.
#[derive(Debug, Clone, Copy, PartialEq, Eq, Structural)]
pub enum BmEngineStatus {
    Idle,
    PerformingNetworkDiscovery,
    RouteFound,
    SendingPayload,
    RetryingPayload,
    WaitingForAck,
    AckReceieved,
    ErrorNoRoute,
    ErrorNoAck,
    Complete,
}

impl Default for BmEngineStatus {
    fn default() -> (r: Self)
        ensures
            r == BmEngineStatus::Idle,
    {
        BmEngineStatus::Idle
    }
}

/// Index `i` holds the first packet of the queue that is ready to transmit.
pub open spec fn is_first_ready(s: Seq<BmNetworkPacketView>, i: int) -> bool {
    &&& 0 <= i < s.len()
    &&& s[i].tx_state == TransmitState::Ready
    &&& forall|j: int| 0 <= j < i ==> (#[trigger] s[j]).tx_state != TransmitState::Ready
}

/// No packet of the queue is ready to transmit.
pub open spec fn none_ready(s: Seq<BmNetworkPacketView>) -> bool {
    forall|j: int| 0 <= j < s.len() ==> (#[trigger] s[j]).tx_state != TransmitState::Ready
}

/// How many packets of the queue are ready to transmit.
pub open spec fn count_ready(s: Seq<BmNetworkPacketView>) -> int
    decreases s.len(),
{
    if s.len() == 0 {
        0
    } else {
        count_ready(s.drop_last()) + if s.last().tx_state == TransmitState::Ready {
            1int
        } else {
            0int
        }
    }
}

pub proof fn lemma_count_ready_concat(a: Seq<BmNetworkPacketView>, b: Seq<BmNetworkPacketView>)
    ensures
        count_ready(a + b) == count_ready(a) + count_ready(b),
    decreases b.len(),
{
    if b.len() == 0 {
        assert(a + b =~= a);
    } else {
        lemma_count_ready_concat(a, b.drop_last());
        assert((a + b).drop_last() =~= a + b.drop_last());
        assert((a + b).last() == b.last());
    }
}

pub proof fn lemma_count_ready_none(s: Seq<BmNetworkPacketView>)
    requires
        none_ready(s),
    ensures
        count_ready(s) == 0,
    decreases s.len(),
{
    if s.len() > 0 {
        lemma_count_ready_none(s.drop_last());
    }
}

/// Law: settling the first ready packet — marking it not-ready or removing
/// it while every other packet stands — leaves one packet fewer ready. The
/// radio transmits one frame at a time, so one TX-done event consumes
/// exactly one ready packet.
pub proof fn lemma_one_fewer_ready(
    pre: Seq<BmNetworkPacketView>,
    post: Seq<BmNetworkPacketView>,
    i: int,
)
    requires
        is_first_ready(pre, i),
        post == pre.remove(i) || (exists|p: BmNetworkPacketView|
            p.tx_state != TransmitState::Ready && post == pre.update(i, p)),
    ensures
        count_ready(post) == count_ready(pre) - 1,
{
    let front = pre.subrange(0, i);
    let back = pre.subrange(i + 1, pre.len() as int);
    let mid = pre.subrange(i, i + 1);
    assert(pre =~= front + mid + back);
    lemma_count_ready_concat(front + mid, back);
    lemma_count_ready_concat(front, mid);
    lemma_count_ready_none(front);
    assert(count_ready(Seq::<BmNetworkPacketView>::empty()) == 0);
    assert(mid.len() == 1 && mid.last() == pre[i]);
    assert(mid.drop_last() =~= Seq::<BmNetworkPacketView>::empty());
    assert(count_ready(mid) == 1);
    if post == pre.remove(i) {
        assert(post =~= front + back);
        lemma_count_ready_concat(front, back);
    } else {
        let p = choose|p: BmNetworkPacketView|
            p.tx_state != TransmitState::Ready && post == pre.update(i, p);
        let midp = seq![p];
        assert(post =~= front + midp + back);
        lemma_count_ready_concat(front + midp, back);
        lemma_count_ready_concat(front, midp);
        assert(midp.drop_last() =~= Seq::<BmNetworkPacketView>::empty());
        assert(count_ready(midp) == 0);
    }
}

/// A queue that holds any adoptable data payload holds a first one.
pub proof fn lemma_first_data_candidate_exists(s: Seq<BmNetworkPacketView>, n: int)
    requires
        0 <= n < s.len(),
        is_data_candidate(s[n]),
    ensures
        exists|k: int| is_first_data_candidate(s, k),
    decreases n,
{
    if forall|j: int| 0 <= j < n ==> !is_data_candidate(#[trigger] s[j]) {
        assert(is_first_data_candidate(s, n));
    } else {
        let j = choose|j: int| 0 <= j < n && is_data_candidate(#[trigger] s[j]);
        lemma_first_data_candidate_exists(s, j);
    }
}

/// What one `run_engine` call at time `now` does to the engine — the
/// transmit-side state machine, one step per call:
/// discovery and ack waits time out after `BM_REPLY_TIMEOUT_MS`; a found
/// route drops the discovery packet and adopts the pending data payload; a
/// send looks the next hop up and either publishes the payload or fails
/// with no route; an ack timeout records an error on the route and retries
/// while transmissions remain; every terminal state drains through
/// `Complete` back to `Idle`.
pub open spec fn tick_transition(
    pre: BmNetworkEngineView,
    post: BmNetworkEngineView,
    now: i64,
) -> bool {
    match pre.engine_status {
        BmEngineStatus::Idle => post == pre,
        BmEngineStatus::PerformingNetworkDiscovery => {
            &&& post.table == pre.table
            &&& post.inbound == pre.inbound
            &&& post.outbound == pre.outbound
            &&& post.working_outbound_index == pre.working_outbound_index
            &&& post.engine_status == match pre.working_outbound_index {
                Some(w) => match pre.outbound[w as int].tx_complete_timestamp {
                    Some(t) => (if reply_timed_out(t, now) {
                        BmEngineStatus::ErrorNoRoute
                    } else {
                        pre.engine_status
                    }),
                    None => pre.engine_status,
                },
                None => pre.engine_status,
            }
        },
        BmEngineStatus::RouteFound => {
            let ob = match pre.working_outbound_index {
                Some(w) => pre.outbound.remove(w as int),
                None => pre.outbound,
            };
            &&& post.table == pre.table
            &&& post.inbound == pre.inbound
            &&& post.outbound == ob
            &&& match post.working_outbound_index {
                Some(k) => {
                    &&& is_first_data_candidate(ob, k as int)
                    &&& post.engine_status == BmEngineStatus::SendingPayload
                },
                None => {
                    &&& no_data_candidate(ob)
                    &&& post.engine_status == BmEngineStatus::Complete
                },
            }
        },
        BmEngineStatus::SendingPayload => {
            &&& post.table == pre.table
            &&& post.inbound == pre.inbound
            &&& post.working_outbound_index == pre.working_outbound_index
            &&& match pre.working_outbound_index {
                Some(w) => {
                    let nh = spec_next_hop(pre.table, pre.outbound[w as int].dest);
                    if nh is Some {
                        &&& post.outbound == pre.outbound.update(
                            w as int,
                            published_payload(pre.outbound[w as int], nh),
                        )
                        &&& post.engine_status == if pre.outbound[w as int].info.required_ack {
                            BmEngineStatus::WaitingForAck
                        } else {
                            BmEngineStatus::Complete
                        }
                    } else {
                        &&& post.outbound == pre.outbound
                        &&& post.engine_status == BmEngineStatus::ErrorNoRoute
                    }
                },
                None => {
                    &&& post.outbound == pre.outbound
                    &&& post.engine_status == pre.engine_status
                },
            }
        },
        BmEngineStatus::RetryingPayload => {
            &&& post.table == pre.table
            &&& post.inbound == pre.inbound
            &&& post.working_outbound_index == pre.working_outbound_index
            &&& match pre.working_outbound_index {
                Some(w) => {
                    &&& post.outbound == pre.outbound.update(
                        w as int,
                        BmNetworkPacketView {
                            tx_count: if pre.outbound[w as int].tx_count < 255 {
                                (pre.outbound[w as int].tx_count + 1) as u8
                            } else {
                                255u8
                            },
                            ..pre.outbound[w as int]
                        },
                    )
                    &&& post.engine_status == BmEngineStatus::SendingPayload
                },
                None => {
                    &&& post.outbound == pre.outbound
                    &&& post.engine_status == pre.engine_status
                },
            }
        },
        BmEngineStatus::WaitingForAck => {
            &&& post.inbound == pre.inbound
            &&& post.outbound == pre.outbound
            &&& post.working_outbound_index == pre.working_outbound_index
            &&& match pre.working_outbound_index {
                Some(w) => match pre.outbound[w as int].tx_complete_timestamp {
                    Some(t) => {
                        &&& (reply_timed_out(t, now) ==> {
                            &&& table_error_marked(pre.table, post.table, pre.outbound[w as int].dest, now)
                            &&& post.engine_status == if pre.outbound[w as int].tx_count
                                < BM_PACKET_RETRY_COUNT {
                                BmEngineStatus::RetryingPayload
                            } else {
                                BmEngineStatus::ErrorNoAck
                            }
                        })
                        &&& (!reply_timed_out(t, now) ==> {
                            &&& post.table == pre.table
                            &&& post.engine_status == pre.engine_status
                        })
                    },
                    None => {
                        &&& post.table == pre.table
                        &&& post.engine_status == pre.engine_status
                    },
                },
                None => {
                    &&& post.table == pre.table
                    &&& post.engine_status == pre.engine_status
                },
            }
        },
        BmEngineStatus::AckReceieved => {
            &&& post == (BmNetworkEngineView { engine_status: BmEngineStatus::Complete, ..pre })
        },
        BmEngineStatus::ErrorNoRoute => {
            &&& post == (BmNetworkEngineView { engine_status: BmEngineStatus::Complete, ..pre })
        },
        BmEngineStatus::ErrorNoAck => {
            &&& post == (BmNetworkEngineView { engine_status: BmEngineStatus::Complete, ..pre })
        },
        BmEngineStatus::Complete => {
            &&& post.table == pre.table
            &&& post.inbound == pre.inbound
            &&& match pre.working_outbound_index {
                Some(w) => {
                    &&& (pre.outbound[w as int].tx_state != TransmitState::Ready ==> {
                        &&& post.outbound == pre.outbound.remove(w as int)
                        &&& post.working_outbound_index is None
                        &&& post.engine_status == BmEngineStatus::Idle
                    })
                    &&& (pre.outbound[w as int].tx_state == TransmitState::Ready ==> {
                        &&& post.outbound == pre.outbound
                        &&& post.working_outbound_index == pre.working_outbound_index
                        &&& post.engine_status == pre.engine_status
                    })
                },
                None => {
                    &&& post.outbound == pre.outbound
                    &&& post.working_outbound_index is None
                    &&& post.engine_status == BmEngineStatus::Idle
                },
            }
        },
    }
}

/// The packet `BmNetworkPacket::new` builds, before any builder is applied.
pub open spec fn spec_new_packet(
    t: BmPacketTypes,
    orig: NetworkId,
    next_hop: NetworkId,
    dest: NetworkId,
    ttl: u8,
    ack: bool,
    payload: Option<Seq<u8>>,
) -> BmNetworkPacketView {
    BmNetworkPacketView {
        packet_type: t,
        type_code: t.spec_into_bits(),
        src: orig,
        next_hop,
        orig,
        dest,
        info: BmNetworkHdrInfo { ttl: ttl & 7, hop_count: 0u8, required_ack: ack, encrypted: false },
        payload,
        tx_state: TransmitState::Waiting,
        tx_complete_timestamp: None,
        tx_count: 0u8,
        wait_for_reply: false,
    }
}

/// The same packet, marked ready for the radio.
pub open spec fn mark_ready(p: BmNetworkPacketView) -> BmNetworkPacketView {
    BmNetworkPacketView { tx_state: TransmitState::Ready, ..p }
}

/// A hop count one relay later; the 3-bit field saturates at 7.
pub open spec fn inc_hop(h: u8) -> u8 {
    if h < MAX_TTL_HOP_CNT {
        (h + 1) as u8
    } else {
        h
    }
}

/// The discovery response a node emits for a request addressed to it:
/// back to the request's originator, through the neighbor the request
/// arrived from, with the request's ttl and ack flag.
pub open spec fn disc_response(q: BmNetworkPacketView, local: NetworkId) -> BmNetworkPacketView {
    mark_ready(
        spec_new_packet(
            BmPacketTypes::RouteDiscoveryResponse,
            local,
            q.src,
            q.orig,
            q.info.ttl,
            q.info.required_ack,
            None,
        ),
    )
}

/// The end-to-end ack a node emits for a data payload addressed to it,
/// with the same addressing pattern as a discovery response.
pub open spec fn data_ack(q: BmNetworkPacketView, local: NetworkId) -> BmNetworkPacketView {
    mark_ready(
        spec_new_packet(
            BmPacketTypes::DataPayloadAck,
            local,
            q.src,
            q.orig,
            q.info.ttl,
            q.info.required_ack,
            None,
        ),
    )
}

/// A flooded packet as this node rebroadcasts it: the source rewritten to
/// the local id, one more hop, ready to transmit.
pub open spec fn relayed_broadcast(q: BmNetworkPacketView, local: NetworkId) -> BmNetworkPacketView {
    BmNetworkPacketView {
        src: local,
        info: BmNetworkHdrInfo { hop_count: inc_hop(q.info.hop_count), ..q.info },
        tx_state: TransmitState::Ready,
        ..q
    }
}

/// A unicast packet as this node routes it onward: the source rewritten,
/// one more hop, the next hop taken from the routing table, ready to
/// transmit.
pub open spec fn relayed_routed(
    q: BmNetworkPacketView,
    local: NetworkId,
    nh: NetworkId,
) -> BmNetworkPacketView {
    BmNetworkPacketView {
        src: local,
        next_hop: nh,
        info: BmNetworkHdrInfo { hop_count: inc_hop(q.info.hop_count), ..q.info },
        tx_state: TransmitState::Ready,
        ..q
    }
}

/// What one received frame `q` (already past the self-echo guard) does to
/// the engine — the receive-side decision tree:
/// the route to `q.orig` via `q.src` is always learned; a dead packet
/// (`hop_count >= ttl`) does nothing more; a packet addressed to this node
/// is consumed (request answered, payload queued and acked, reply advancing
/// the state machine); any other packet is flooded or routed onward. A full
/// queue drops the new packet and nothing else.
pub open spec fn receive_transition(
    pre: BmNetworkEngineView,
    post: BmNetworkEngineView,
    q: BmNetworkPacketView,
) -> bool {
    let local = pre.local_id();
    &&& post.local_id() == local
    &&& table_updated(pre.table, post.table, q.orig, q.src)
    &&& post.working_outbound_index == pre.working_outbound_index
    &&& if q.info.hop_count >= q.info.ttl {
        &&& post.inbound == pre.inbound
        &&& post.outbound == pre.outbound
        &&& post.engine_status == pre.engine_status
    } else if q.dest == local {
        match q.packet_type {
            BmPacketTypes::RouteDiscoveryRequest => {
                &&& post.inbound == pre.inbound
                &&& post.engine_status == pre.engine_status
                &&& post.outbound == if pre.outbound.len() < BM_OUTBOUND_QUEUE_SIZE {
                    pre.outbound.push(disc_response(q, local))
                } else {
                    pre.outbound
                }
            },
            BmPacketTypes::RouteDiscoveryResponse => {
                &&& post.inbound == pre.inbound
                &&& post.outbound == pre.outbound
                &&& post.engine_status == if pre.engine_status
                    == BmEngineStatus::PerformingNetworkDiscovery {
                    BmEngineStatus::RouteFound
                } else {
                    pre.engine_status
                }
            },
            BmPacketTypes::DataPayload => {
                &&& post.engine_status == pre.engine_status
                &&& post.inbound == if pre.inbound.len() < BM_INBOUND_QUEUE_SIZE {
                    pre.inbound.push(q)
                } else {
                    pre.inbound
                }
                &&& post.outbound == if q.info.required_ack && pre.outbound.len()
                    < BM_OUTBOUND_QUEUE_SIZE {
                    pre.outbound.push(data_ack(q, local))
                } else {
                    pre.outbound
                }
            },
            BmPacketTypes::DataPayloadAck => {
                &&& post.inbound == pre.inbound
                &&& post.outbound == pre.outbound
                &&& post.engine_status == if pre.engine_status == BmEngineStatus::WaitingForAck {
                    BmEngineStatus::AckReceieved
                } else {
                    pre.engine_status
                }
            },
            _ => {
                &&& post.inbound == pre.inbound
                &&& post.outbound == pre.outbound
                &&& post.engine_status == pre.engine_status
            },
        }
    } else {
        &&& post.inbound == pre.inbound
        &&& post.engine_status == pre.engine_status
        &&& match q.packet_type {
            BmPacketTypes::RouteDiscoveryRequest | BmPacketTypes::BcastNeighborTable => post.outbound
                == if pre.outbound.len() < BM_OUTBOUND_QUEUE_SIZE {
                pre.outbound.push(relayed_broadcast(q, local))
            } else {
                pre.outbound
            },
            BmPacketTypes::RouteDiscoveryError => post.outbound == pre.outbound,
            _ => {
                let nh = spec_next_hop(post.table, q.dest);
                post.outbound == if nh is Some && pre.outbound.len() < BM_OUTBOUND_QUEUE_SIZE {
                    pre.outbound.push(relayed_routed(q, local, nh))
                } else {
                    pre.outbound
                }
            },
        }
    }
}

/// A reply is overdue: more than the reply timeout has passed since the
/// request's transmission completed.
pub open spec fn reply_timed_out(tx_complete: i64, now: i64) -> bool {
    now - tx_complete > BM_REPLY_TIMEOUT_MS
}

/// A queued packet the state machine can adopt as its working data
/// payload: an untransmitted data packet.
pub open spec fn is_data_candidate(p: BmNetworkPacketView) -> bool {
    &&& p.tx_state != TransmitState::Ready
    &&& p.tx_count == 0
    &&& p.packet_type == BmPacketTypes::DataPayload
}

/// Index `k` holds the first adoptable data payload of the queue.
pub open spec fn is_first_data_candidate(s: Seq<BmNetworkPacketView>, k: int) -> bool {
    &&& 0 <= k < s.len()
    &&& is_data_candidate(s[k])
    &&& forall|j: int| 0 <= j < k ==> !is_data_candidate(#[trigger] s[j])
}

/// The queue holds no adoptable data payload at all.
pub open spec fn no_data_candidate(s: Seq<BmNetworkPacketView>) -> bool {
    forall|j: int| 0 <= j < s.len() ==> !is_data_candidate(#[trigger] s[j])
}

/// The working data payload as `run_engine` publishes it to the radio: the
/// table's next hop filled in, retained for its reply, ready to transmit.
pub open spec fn published_payload(p: BmNetworkPacketView, nh: NetworkId) -> BmNetworkPacketView {
    BmNetworkPacketView {
        next_hop: nh,
        wait_for_reply: true,
        tx_state: TransmitState::Ready,
        ..p
    }
}

/// Mathematical image of the whole engine.
pub struct BmNetworkEngineView {
    pub table: BmNetworkRoutingTableView,
    pub inbound: Seq<BmNetworkPacketView>,
    pub outbound: Seq<BmNetworkPacketView>,
    pub working_outbound_index: Option<usize>,
    pub engine_status: BmEngineStatus,
}

impl BmNetworkEngineView {
    /// The table is well-formed, both queues respect their caps and hold
    /// well-formed packets, and the working index, when set, is in range.
    pub open spec fn wf(self) -> bool {
        &&& self.table.wf()
        &&& self.inbound.len() <= BM_INBOUND_QUEUE_SIZE
        &&& self.outbound.len() <= BM_OUTBOUND_QUEUE_SIZE
        &&& forall|i: int| 0 <= i < self.inbound.len() ==> (#[trigger] self.inbound[i]).wf()
        &&& forall|i: int| 0 <= i < self.outbound.len() ==> (#[trigger] self.outbound[i]).wf()
        &&& match self.working_outbound_index {
            Some(w) => w < self.outbound.len(),
            None => true,
        }
    }

    /// The local node's own id.
    pub open spec fn local_id(self) -> NetworkId {
        self.table.network_id
    }
}

/// The transfer engine. It owns the routing table, both packet queues, and
/// the index of the outbound packet the state machine is driving.
#[derive(Debug)]
pub struct BmNetworkEngine {
    pub table: BmNetworkRoutingTable,
    pub inbound: Vec<BmNetworkPacket>,
    pub outbound: Vec<BmNetworkPacket>,
    pub working_outbound_index: Option<usize>,
    pub engine_status: BmEngineStatus,
}

impl View for BmNetworkEngine {
    type V = BmNetworkEngineView;

    open spec fn view(&self) -> BmNetworkEngineView {
        BmNetworkEngineView {
            table: self.table@,
            inbound: Seq::new(self.inbound@.len(), |i: int| self.inbound@[i]@),
            outbound: Seq::new(self.outbound@.len(), |i: int| self.outbound@[i]@),
            working_outbound_index: self.working_outbound_index,
            engine_status: self.engine_status,
        }
    }
}

impl BmNetworkEngine {
    pub fn new(local_network_id: NetworkId) -> (r: Self)
        ensures
            r@.local_id() == local_network_id,
            r@.table.nodes =~= Seq::<crate::bm_network_node::BmNodeEntryView>::empty(),
            r@.inbound =~= Seq::<BmNetworkPacketView>::empty(),
            r@.outbound =~= Seq::<BmNetworkPacketView>::empty(),
            r@.working_outbound_index is None,
            r@.engine_status == BmEngineStatus::Idle,
            r@.wf(),
    {
        BmNetworkEngine {
            table: BmNetworkRoutingTable::new(local_network_id),
            inbound: Vec::new(),
            outbound: Vec::new(),
            working_outbound_index: None,
            engine_status: BmEngineStatus::default(),
        }
    }

    /// A copy of the first outbound packet that is ready to transmit, in
    /// insertion order — the packet the radio must send next.
    pub fn get_next_outbound_packet(&self) -> (r: Option<BmNetworkPacket>)
        ensures
            match r {
                Some(p) => exists|i: int| is_first_ready(self@.outbound, i) && p@ == self@.outbound[i],
                None => none_ready(self@.outbound),
            },
    {
        let mut k: usize = 0;
        while k < self.outbound.len()
            invariant
                k <= self@.outbound.len(),
                forall|j: int|
                    0 <= j < k ==> (#[trigger] self@.outbound[j]).tx_state != TransmitState::Ready,
            decreases self@.outbound.len() - k,
        {
            if self.outbound[k].is_ok_to_transmit() {
                let p = self.outbound[k].clone();
                proof {
                    assert(is_first_ready(self@.outbound, k as int));
                }
                return Some(p);
            }
            k = k + 1;
        }
        None
    }

    /// Settles one radio TX-done event on the first ready packet: a packet
    /// awaiting a reply is stamped and retained as `Complete`; any other is
    /// removed. Exactly one packet is affected; with no ready packet the
    /// call is a logged no-op.
    pub fn set_next_outbound_complete(&mut self, time_millis: i64)
        requires
            old(self)@.wf(),
        ensures
            final(self)@.wf(),
            final(self)@.table == old(self)@.table,
            final(self)@.inbound == old(self)@.inbound,
            final(self)@.engine_status == old(self)@.engine_status,
            none_ready(old(self)@.outbound) ==> final(self)@ == old(self)@,
            forall|i: int|
                is_first_ready(old(self)@.outbound, i) ==> {
                    if old(self)@.outbound[i].wait_for_reply {
                        &&& final(self)@.outbound == old(self)@.outbound.update(
                            i,
                            BmNetworkPacketView {
                                tx_state: TransmitState::Complete,
                                tx_complete_timestamp: Some(time_millis),
                                tx_count: if old(self)@.outbound[i].tx_count < 255 {
                                    (old(self)@.outbound[i].tx_count + 1) as u8
                                } else {
                                    255u8
                                },
                                ..old(self)@.outbound[i]
                            },
                        )
                        &&& final(self)@.working_outbound_index
                            == old(self)@.working_outbound_index
                    } else {
                        &&& final(self)@.outbound == old(self)@.outbound.remove(i)
                        &&& final(self)@.working_outbound_index == match old(
                            self,
                        )@.working_outbound_index {
                            Some(w) => (if w as int == i {
                                None::<usize>
                            } else if w as int > i {
                                Some((w - 1) as usize)
                            } else {
                                Some(w)
                            }),
                            None => None::<usize>,
                        }
                    }
                },
            !none_ready(old(self)@.outbound) ==> count_ready(final(self)@.outbound) == count_ready(
                old(self)@.outbound,
            ) - 1,
    {
        let ghost pre = self@.outbound;
        let mut index: usize = 0;
        while index < self.outbound.len()
            invariant
                index <= self@.outbound.len(),
                self@ == old(self)@,
                self@.wf(),
                pre == self@.outbound,
                forall|j: int|
                    0 <= j < index ==> (#[trigger] self@.outbound[j]).tx_state
                        != TransmitState::Ready,
            decreases self@.outbound.len() - index,
        {
            let ready = self.outbound[index].is_ok_to_transmit();
            if ready {
                proof {
                    assert(self@.outbound[index as int].tx_state == TransmitState::Ready);
                    assert(is_first_ready(pre, index as int));
                    assert forall|i: int| is_first_ready(pre, i) implies i == index as int by {
                        if i < index as int {
                            assert(pre[i].tx_state != TransmitState::Ready);
                        }
                        if i > index as int {
                            assert(pre[index as int].tx_state != TransmitState::Ready);
                        }
                    }
                }
                if self.outbound[index].is_waiting_for_reply() {
                    let mut pkt = self.outbound[index].clone();
                    pkt.tx_complete_timestamp = Some(time_millis);
                    if pkt.tx_count < 255 {
                        pkt.tx_count = pkt.tx_count + 1;
                    }
                    pkt.tx_state = TransmitState::Complete;
                    self.outbound.set(index, pkt);
                    proof {
                        assert(self@.outbound =~= pre.update(index as int, self@.outbound[index as int]));
                        lemma_one_fewer_ready(pre, self@.outbound, index as int);
                        assert forall|i: int|
                            0 <= i < self@.outbound.len() implies (
                        #[trigger] self@.outbound[i]).wf() by {
                            assert(pre[i].wf());
                        }
                        assert(self@.wf());
                    }
                } else {
                    self.outbound.remove(index);
                    match self.working_outbound_index {
                        Some(w) => {
                            if w == index {
                                self.working_outbound_index = None;
                            } else if w > index {
                                self.working_outbound_index = Some(w - 1);
                            }
                        },
                        None => {},
                    }
                    proof {
                        assert(self@.outbound =~= pre.remove(index as int));
                        lemma_one_fewer_ready(pre, self@.outbound, index as int);
                        assert forall|i: int|
                            0 <= i < self@.outbound.len() implies (
                        #[trigger] self@.outbound[i]).wf() by {
                            if i < index as int {
                                assert(pre[i].wf());
                            } else {
                                assert(pre[i + 1].wf());
                            }
                        }
                        assert(self@.wf());
                    }
                }
                return;
            }
            index = index + 1;
        }
        proof {
            assert(none_ready(pre));
        }
    }

    /// Runs the receive-side decision tree on one radio frame. A frame that
    /// does not decode is dropped untouched; one whose originator is this
    /// node is dropped with no state change at all; every other frame
    /// teaches the table its route and is then consumed, answered, relayed
    /// or discarded as `receive_transition` says. Returns the decoded
    /// packet, or `None` when it was dropped for any of the first three
    /// reasons.
    pub fn process_packet(
        &mut self,
        length: usize,
        buffer: &[u8],
        millis: TimeType,
        rssi: RssiType,
    ) -> (r: Option<BmNetworkPacket>)
        requires
            old(self)@.wf(),
        ensures
            final(self)@.wf(),
            spec_decode(length as int, buffer@) is None ==> final(self)@ == old(self)@ && r
                is None,
            spec_decode(length as int, buffer@) is Some && spec_decode(
                length as int,
                buffer@,
            ).unwrap().orig == old(self)@.local_id() ==> final(self)@ == old(self)@ && r is None,
            spec_decode(length as int, buffer@) is Some && spec_decode(
                length as int,
                buffer@,
            ).unwrap().orig != old(self)@.local_id() ==> ({
                let q = spec_decode(length as int, buffer@).unwrap();
                &&& receive_transition(old(self)@, final(self)@, q)
                &&& if q.info.hop_count < q.info.ttl {
                    r matches Some(p) && p@ == q
                } else {
                    r is None
                }
            }),
    {
        let new_packet = match BmNetworkPacket::from(length, buffer) {
            Some(p) => p,
            None => {
                return None;
            },
        };
        let local = self.table.get_local_network_id();
        if new_packet.get_originator() == local {
            return None;
        }
        self.table.update_node_route(
            new_packet.get_originator(),
            new_packet.get_source(),
            new_packet.get_hop_count(),
            millis,
            rssi,
        );
        let ghost mid = self@;
        let info = new_packet.get_info();
        if info.hop_count >= info.ttl {
            return None;
        }
        if new_packet.get_destination() == local {
            match new_packet.packet_type {
                BmPacketTypes::RouteDiscoveryRequest => {
                    if self.outbound.len() < BM_OUTBOUND_QUEUE_SIZE {
                        let resp = BmNetworkPacket::new(
                            BmPacketTypes::RouteDiscoveryResponse,
                            local,
                            new_packet.get_source(),
                            new_packet.get_originator(),
                            info.ttl,
                            info.required_ack,
                            None,
                        ).with_ok_to_transmit();
                        proof {
                            assert(resp@ == disc_response(new_packet@, old(self)@.local_id()));
                            assert(resp@.wf());
                        }
                        self.outbound.push(resp);
                        proof {
                            assert(self@.outbound =~= mid.outbound.push(resp@));
                        }
                    }
                },
                BmPacketTypes::RouteDiscoveryResponse => {
                    if self.engine_status == BmEngineStatus::PerformingNetworkDiscovery {
                        self.engine_status = BmEngineStatus::RouteFound;
                    }
                },
                BmPacketTypes::DataPayload => {
                    if self.inbound.len() < BM_INBOUND_QUEUE_SIZE {
                        let copy = new_packet.clone();
                        self.inbound.push(copy);
                        proof {
                            assert(self@.inbound =~= mid.inbound.push(new_packet@));
                        }
                    }
                    if info.required_ack {
                        if self.outbound.len() < BM_OUTBOUND_QUEUE_SIZE {
                            let ack = BmNetworkPacket::new(
                                BmPacketTypes::DataPayloadAck,
                                local,
                                new_packet.get_source(),
                                new_packet.get_originator(),
                                info.ttl,
                                info.required_ack,
                                None,
                            ).with_ok_to_transmit();
                            proof {
                                assert(ack@ == data_ack(new_packet@, old(self)@.local_id()));
                                assert(ack@.wf());
                            }
                            self.outbound.push(ack);
                            proof {
                                assert(self@.outbound =~= mid.outbound.push(ack@));
                            }
                        }
                    }
                },
                BmPacketTypes::DataPayloadAck => {
                    if self.engine_status == BmEngineStatus::WaitingForAck {
                        self.engine_status = BmEngineStatus::AckReceieved;
                    }
                },
                BmPacketTypes::RouteDiscoveryError => {},
                BmPacketTypes::BcastNeighborTable => {},
            }
        } else {
            match new_packet.packet_type {
                BmPacketTypes::RouteDiscoveryRequest | BmPacketTypes::BcastNeighborTable => {
                    self.broadcast_packet(new_packet.clone());
                },
                BmPacketTypes::RouteDiscoveryResponse
                | BmPacketTypes::DataPayload
                | BmPacketTypes::DataPayloadAck => {
                    self.route_packet(new_packet.clone());
                },
                BmPacketTypes::RouteDiscoveryError => {},
            }
        }
        proof {
            assert(receive_transition(old(self)@, self@, new_packet@));
        }
        Some(new_packet)
    }

    /// Rebroadcasts a flooded packet: rewrites the source to this node,
    /// counts the hop, marks it ready. A full outbound queue drops it.
    fn broadcast_packet(&mut self, packet_to_broadcast: BmNetworkPacket)
        requires
            old(self)@.wf(),
            packet_to_broadcast@.wf(),
        ensures
            final(self)@.wf(),
            final(self)@.table == old(self)@.table,
            final(self)@.inbound == old(self)@.inbound,
            final(self)@.working_outbound_index == old(self)@.working_outbound_index,
            final(self)@.engine_status == old(self)@.engine_status,
            final(self)@.outbound == if old(self)@.outbound.len() < BM_OUTBOUND_QUEUE_SIZE {
                old(self)@.outbound.push(
                    relayed_broadcast(packet_to_broadcast@, old(self)@.local_id()),
                )
            } else {
                old(self)@.outbound
            },
    {
        let mut pkt = packet_to_broadcast;
        let local = self.table.get_local_network_id();
        pkt.set_source(local);
        pkt.increment_hop_count();
        pkt.set_ok_to_transmit();
        proof {
            assert(pkt@ == relayed_broadcast(packet_to_broadcast@, old(self)@.local_id()));
        }
        if self.outbound.len() < BM_OUTBOUND_QUEUE_SIZE {
            self.outbound.push(pkt);
            proof {
                assert(self@.outbound =~= old(self)@.outbound.push(
                    relayed_broadcast(packet_to_broadcast@, old(self)@.local_id()),
                ));
            }
        }
    }

    /// Routes a unicast packet onward when the table knows a next hop for
    /// its destination: rewrites the source, counts the hop, retargets the
    /// next hop, marks it ready. Returns whether a route was known; with no
    /// route the packet is dropped.
    fn route_packet(&mut self, packet_to_route: BmNetworkPacket) -> (r: bool)
        requires
            old(self)@.wf(),
            packet_to_route@.wf(),
        ensures
            final(self)@.wf(),
            final(self)@.table == old(self)@.table,
            final(self)@.inbound == old(self)@.inbound,
            final(self)@.working_outbound_index == old(self)@.working_outbound_index,
            final(self)@.engine_status == old(self)@.engine_status,
            r == (spec_next_hop(old(self)@.table, packet_to_route@.dest) is Some),
            final(self)@.outbound == ({
                let nh = spec_next_hop(old(self)@.table, packet_to_route@.dest);
                if nh is Some && old(self)@.outbound.len() < BM_OUTBOUND_QUEUE_SIZE {
                    old(self)@.outbound.push(
                        relayed_routed(packet_to_route@, old(self)@.local_id(), nh),
                    )
                } else {
                    old(self)@.outbound
                }
            }),
    {
        let next_hop = self.table.get_next_hop(packet_to_route.get_destination());
        if next_hop.is_some() {
            let mut pkt = packet_to_route;
            let local = self.table.get_local_network_id();
            pkt.set_source(local);
            pkt.increment_hop_count();
            pkt.set_next_hop(next_hop);
            pkt.set_ok_to_transmit();
            proof {
                assert(pkt@ == relayed_routed(
                    packet_to_route@,
                    old(self)@.local_id(),
                    spec_next_hop(old(self)@.table, packet_to_route@.dest),
                ));
            }
            if self.outbound.len() < BM_OUTBOUND_QUEUE_SIZE {
                self.outbound.push(pkt);
                proof {
                    assert(self@.outbound =~= old(self)@.outbound.push(
                        relayed_routed(
                            packet_to_route@,
                            old(self)@.local_id(),
                            spec_next_hop(old(self)@.table, packet_to_route@.dest),
                        ),
                    ));
                }
            }
            return true;
        }
        false
    }

    /// Starts a transfer of `payload` to `dest`, with optional end-to-end
    /// ack, when the engine is idle: the data payload is queued; with no
    /// route known a route discovery request is queued too and the machine
    /// enters discovery, else it proceeds straight to sending. A busy
    /// engine, or a full queue, refuses and changes nothing.
    pub fn initiate_packet_transfer(
        &mut self,
        dest: NetworkId,
        ack: bool,
        ttl: u8,
        payload: BmNetworkPacketPayload,
    )
        requires
            old(self)@.wf(),
            payload@.len() <= BM_MAX_PAYLOAD_SIZE,
        ensures
            final(self)@.wf(),
            final(self)@.table == old(self)@.table,
            final(self)@.inbound == old(self)@.inbound,
            old(self)@.engine_status != BmEngineStatus::Idle ==> final(self)@ == old(self)@,
            old(self)@.engine_status == BmEngineStatus::Idle && old(self)@.outbound.len()
                >= BM_OUTBOUND_QUEUE_SIZE ==> final(self)@ == old(self)@,
            old(self)@.engine_status == BmEngineStatus::Idle && old(self)@.outbound.len()
                < BM_OUTBOUND_QUEUE_SIZE ==> ({
                let data = BmNetworkPacketView {
                    wait_for_reply: true,
                    ..spec_new_packet(
                        BmPacketTypes::DataPayload,
                        old(self)@.local_id(),
                        None,
                        dest,
                        ttl,
                        ack,
                        Some(payload@),
                    )
                };
                if old(self)@.table.has_node(dest) {
                    &&& final(self)@.outbound == old(self)@.outbound.push(data)
                    &&& final(self)@.engine_status == BmEngineStatus::SendingPayload
                    &&& (final(self)@.working_outbound_index matches Some(k)
                        && is_first_data_candidate(final(self)@.outbound, k as int))
                } else if old(self)@.outbound.len() + 1 < BM_OUTBOUND_QUEUE_SIZE {
                    let disc = BmNetworkPacketView {
                        wait_for_reply: true,
                        tx_state: TransmitState::Ready,
                        ..spec_new_packet(
                            BmPacketTypes::RouteDiscoveryRequest,
                            old(self)@.local_id(),
                            None,
                            dest,
                            ttl,
                            false,
                            None,
                        )
                    };
                    &&& final(self)@.outbound == old(self)@.outbound.push(data).push(disc)
                    &&& final(self)@.engine_status
                        == BmEngineStatus::PerformingNetworkDiscovery
                    &&& final(self)@.working_outbound_index == Some(
                        (old(self)@.outbound.len() + 1) as usize,
                    )
                } else {
                    &&& final(self)@.outbound == old(self)@.outbound.push(data)
                    &&& final(self)@.engine_status == BmEngineStatus::Idle
                    &&& final(self)@.working_outbound_index
                        == old(self)@.working_outbound_index
                }
            }),
    {
        if self.engine_status == BmEngineStatus::Idle {
            if self.outbound.len() >= BM_OUTBOUND_QUEUE_SIZE {
                return;
            }
            let local = self.table.get_local_network_id();
            let data = BmNetworkPacket::new(
                BmPacketTypes::DataPayload,
                local,
                None,
                dest,
                ttl,
                ack,
                Some(payload),
            ).with_wait_for_reply();
            proof {
                assert(data@.wf());
            }
            self.outbound.push(data);
            let ghost mid = self@;
            proof {
                assert(mid.outbound =~= old(self)@.outbound.push(mid.outbound.last()));
            }
            if self.table.find_node_by_id(dest).is_none() {
                self.start_network_discovery(dest, ttl);
            } else {
                self.select_data_packet();
                self.engine_status = BmEngineStatus::SendingPayload;
                proof {
                    let n = mid.outbound.len() - 1;
                    assert(is_data_candidate(mid.outbound[n]));
                    lemma_first_data_candidate_exists(mid.outbound, n);
                }
            }
        }
    }

    /// Queues a route discovery request for `dest` and enters discovery,
    /// tracking the request as the working packet. When even the request
    /// cannot be queued the engine stays idle.
    fn start_network_discovery(&mut self, dest: NetworkId, ttl: u8)
        requires
            old(self)@.wf(),
            old(self)@.engine_status == BmEngineStatus::Idle,
        ensures
            final(self)@.wf(),
            final(self)@.table == old(self)@.table,
            final(self)@.inbound == old(self)@.inbound,
            old(self)@.outbound.len() < BM_OUTBOUND_QUEUE_SIZE ==> ({
                let disc = BmNetworkPacketView {
                    wait_for_reply: true,
                    tx_state: TransmitState::Ready,
                    ..spec_new_packet(
                        BmPacketTypes::RouteDiscoveryRequest,
                        old(self)@.local_id(),
                        None,
                        dest,
                        ttl,
                        false,
                        None,
                    )
                };
                &&& final(self)@.outbound == old(self)@.outbound.push(disc)
                &&& final(self)@.engine_status == BmEngineStatus::PerformingNetworkDiscovery
                &&& final(self)@.working_outbound_index == Some(old(self)@.outbound.len() as usize)
            }),
            old(self)@.outbound.len() >= BM_OUTBOUND_QUEUE_SIZE ==> final(self)@ == old(self)@,
    {
        if self.outbound.len() < BM_OUTBOUND_QUEUE_SIZE {
            let local = self.table.get_local_network_id();
            let disc = BmNetworkPacket::new(
                BmPacketTypes::RouteDiscoveryRequest,
                local,
                None,
                dest,
                ttl,
                false,
                None,
            ).with_ok_to_transmit().with_wait_for_reply();
            proof {
                assert(disc@.wf());
            }
            self.outbound.push(disc);
            proof {
                assert(self@.outbound =~= old(self)@.outbound.push(self@.outbound.last()));
            }
            self.working_outbound_index = Some(self.outbound.len() - 1);
            self.engine_status = BmEngineStatus::PerformingNetworkDiscovery;
        }
    }

    /// Drops the working packet from the queue and forgets the index; a
    /// logged no-op when no working packet is tracked.
    fn clear_working_packet(&mut self)
        requires
            old(self)@.wf(),
        ensures
            final(self)@.wf(),
            final(self)@.table == old(self)@.table,
            final(self)@.inbound == old(self)@.inbound,
            final(self)@.engine_status == old(self)@.engine_status,
            final(self)@.working_outbound_index is None,
            final(self)@.outbound == match old(self)@.working_outbound_index {
                Some(w) => old(self)@.outbound.remove(w as int),
                None => old(self)@.outbound,
            },
            old(self)@.working_outbound_index is None ==> final(self)@ == old(self)@,
    {
        if let Some(index) = self.working_outbound_index {
            self.outbound.remove(index);
            self.working_outbound_index = None;
            proof {
                assert(self@.outbound =~= old(self)@.outbound.remove(index as int));
                assert forall|i: int|
                    0 <= i < self@.outbound.len() implies (#[trigger] self@.outbound[i]).wf() by {
                    if i < index as int {
                        assert(old(self)@.outbound[i].wf());
                    } else {
                        assert(old(self)@.outbound[i + 1].wf());
                    }
                }
            }
        }
    }

    /// Adopts the first untransmitted data payload in the queue as the
    /// working packet; reports whether one was found.
    fn select_data_packet(&mut self) -> (r: bool)
        requires
            old(self)@.wf(),
        ensures
            final(self)@.wf(),
            final(self)@.table == old(self)@.table,
            final(self)@.inbound == old(self)@.inbound,
            final(self)@.outbound == old(self)@.outbound,
            final(self)@.engine_status == old(self)@.engine_status,
            r == exists|k: int| is_first_data_candidate(old(self)@.outbound, k),
            r ==> (final(self)@.working_outbound_index matches Some(k) && is_first_data_candidate(
                old(self)@.outbound,
                k as int,
            )),
            !r ==> final(self)@.working_outbound_index == old(self)@.working_outbound_index,
    {
        let mut index: usize = 0;
        while index < self.outbound.len()
            invariant
                index <= self@.outbound.len(),
                self@ == old(self)@,
                self@.wf(),
                forall|j: int| 0 <= j < index ==> !is_data_candidate(#[trigger] self@.outbound[j]),
            decreases self@.outbound.len() - index,
        {
            let is_ready = self.outbound[index].is_ok_to_transmit();
            let count_ok = self.outbound[index].tx_count == 0;
            let is_data = self.outbound[index].packet_type == BmPacketTypes::DataPayload;
            if !is_ready && count_ok && is_data {
                self.working_outbound_index = Some(index);
                proof {
                    assert(is_first_data_candidate(old(self)@.outbound, index as int));
                }
                return true;
            }
            index = index + 1;
        }
        proof {
            assert forall|k: int| !is_first_data_candidate(old(self)@.outbound, k) by {
                if 0 <= k < old(self)@.outbound.len() {
                    assert(!is_data_candidate(old(self)@.outbound[k]));
                }
            }
        }
        false
    }

    /// Publishes the working data payload: looks the next hop up in the
    /// table, fills it in, retains the packet for its reply and marks it
    /// ready; with no route the machine fails over to `ErrorNoRoute`.
    fn send_data_payload(&mut self)
        requires
            old(self)@.wf(),
        ensures
            final(self)@.wf(),
            final(self)@.table == old(self)@.table,
            final(self)@.inbound == old(self)@.inbound,
            final(self)@.working_outbound_index == old(self)@.working_outbound_index,
            match old(self)@.working_outbound_index {
                Some(w) => {
                    let nh = spec_next_hop(old(self)@.table, old(self)@.outbound[w as int].dest);
                    if nh is Some {
                        &&& final(self)@.outbound == old(self)@.outbound.update(
                            w as int,
                            published_payload(old(self)@.outbound[w as int], nh),
                        )
                        &&& final(self)@.engine_status == if old(self)@.outbound[w as int].info.required_ack {
                            BmEngineStatus::WaitingForAck
                        } else {
                            BmEngineStatus::Complete
                        }
                    } else {
                        &&& final(self)@.outbound == old(self)@.outbound
                        &&& final(self)@.engine_status == BmEngineStatus::ErrorNoRoute
                    }
                },
                None => {
                    &&& final(self)@.outbound == old(self)@.outbound
                    &&& final(self)@.engine_status == old(self)@.engine_status
                },
            },
    {
        if let Some(working_index) = self.working_outbound_index {
            let dest_id = self.outbound[working_index].get_destination();
            let next_hop = self.table.get_next_hop(dest_id);
            if next_hop.is_some() {
                let mut pkt = self.outbound[working_index].clone();
                pkt.set_next_hop(next_hop);
                pkt.set_wait_for_reply();
                pkt.set_ok_to_transmit();
                let required_ack = pkt.get_info().required_ack;
                self.outbound.set(working_index, pkt);
                proof {
                    assert(self@.outbound =~= old(self)@.outbound.update(
                        working_index as int,
                        published_payload(
                            old(self)@.outbound[working_index as int],
                            spec_next_hop(
                                old(self)@.table,
                                old(self)@.outbound[working_index as int].dest,
                            ),
                        ),
                    ));
                    assert forall|i: int|
                        0 <= i < self@.outbound.len() implies (
                    #[trigger] self@.outbound[i]).wf() by {
                        assert(old(self)@.outbound[i].wf());
                    }
                }
                if required_ack {
                    self.engine_status = BmEngineStatus::WaitingForAck;
                } else {
                    self.engine_status = BmEngineStatus::Complete;
                }
            } else {
                self.engine_status = BmEngineStatus::ErrorNoRoute;
            }
        }
    }

    /// Advances the transmit-side state machine one step, as
    /// `tick_transition` says, and returns the state it was in before the
    /// call — the caller renders user-visible transitions on the edge.
    #[verifier::rlimit(100)]
    #[verifier::spinoff_prover]
    pub fn run_engine(&mut self, current_time_millis: i64) -> (r: BmEngineStatus)
        requires
            old(self)@.wf(),
        ensures
            final(self)@.wf(),
            r == old(self)@.engine_status,
            tick_transition(old(self)@, final(self)@, current_time_millis),
    {
        let current_engine_status = self.engine_status;
        match current_engine_status {
            BmEngineStatus::PerformingNetworkDiscovery => {
                if let Some(w) = self.working_outbound_index {
                    if let Some(tx_comp_time) = self.outbound[w].tx_complete_timestamp {
                        if check_reply_timeout(tx_comp_time, current_time_millis) {
                            self.engine_status = BmEngineStatus::ErrorNoRoute;
                        }
                    }
                }
            },
            BmEngineStatus::RouteFound => {
                self.clear_working_packet();
                if self.select_data_packet() {
                    self.engine_status = BmEngineStatus::SendingPayload;
                } else {
                    proof {
                        assert forall|j: int|
                            0 <= j < self@.outbound.len() implies !is_data_candidate(
                            #[trigger] self@.outbound[j],
                        ) by {
                            if is_data_candidate(self@.outbound[j]) {
                                lemma_first_data_candidate_exists(self@.outbound, j);
                            }
                        }
                    }
                    self.working_outbound_index = None;
                    self.engine_status = BmEngineStatus::Complete;
                }
            },
            BmEngineStatus::SendingPayload => {
                self.send_data_payload();
            },
            BmEngineStatus::RetryingPayload => {
                if let Some(w) = self.working_outbound_index {
                    let mut pkt = self.outbound[w].clone();
                    if pkt.tx_count < 255 {
                        pkt.tx_count = pkt.tx_count + 1;
                    }
                    self.outbound.set(w, pkt);
                    proof {
                        assert(self@.outbound =~= old(self)@.outbound.update(
                            w as int,
                            self@.outbound[w as int],
                        ));
                        assert forall|i: int|
                            0 <= i < self@.outbound.len() implies (
                        #[trigger] self@.outbound[i]).wf() by {
                            assert(old(self)@.outbound[i].wf());
                        }
                    }
                    self.engine_status = BmEngineStatus::SendingPayload;
                }
            },
            BmEngineStatus::WaitingForAck => {
                if let Some(w) = self.working_outbound_index {
                    if let Some(tx_comp_time) = self.outbound[w].tx_complete_timestamp {
                        if check_reply_timeout(tx_comp_time, current_time_millis) {
                            let dest = self.outbound[w].get_destination();
                            self.table.set_node_error(dest, current_time_millis);
                            if self.outbound[w].tx_count < BM_PACKET_RETRY_COUNT {
                                self.engine_status = BmEngineStatus::RetryingPayload;
                            } else {
                                self.engine_status = BmEngineStatus::ErrorNoAck;
                            }
                        }
                    }
                }
            },
            BmEngineStatus::AckReceieved => {
                self.engine_status = BmEngineStatus::Complete;
            },
            BmEngineStatus::ErrorNoRoute => {
                self.engine_status = BmEngineStatus::Complete;
            },
            BmEngineStatus::ErrorNoAck => {
                self.engine_status = BmEngineStatus::Complete;
            },
            BmEngineStatus::Complete => {
                match self.working_outbound_index {
                    Some(w) => {
                        let still_ready = self.outbound[w].is_ok_to_transmit();
                        if !still_ready {
                            self.clear_working_packet();
                            self.engine_status = BmEngineStatus::Idle;
                        }
                    },
                    None => {
                        self.engine_status = BmEngineStatus::Idle;
                    },
                }
            },
            BmEngineStatus::Idle => {},
        }
        proof {
            assert(tick_transition(old(self)@, self@, current_time_millis));
        }
        current_engine_status
    }

    pub fn get_inbound_message_count(&self) -> (r: usize)
        ensures
            r == self@.inbound.len(),
    {
        self.inbound.len()
    }

    /// Pops the most recently queued inbound payload packet, if any.
    pub fn get_inbound_message(&mut self) -> (r: Option<BmNetworkPacket>)
        ensures
            final(self)@.table == old(self)@.table,
            final(self)@.outbound == old(self)@.outbound,
            final(self)@.working_outbound_index == old(self)@.working_outbound_index,
            final(self)@.engine_status == old(self)@.engine_status,
            old(self)@.inbound.len() == 0 ==> r is None && final(self)@ == old(self)@,
            old(self)@.inbound.len() > 0 ==> {
                &&& r matches Some(p) && p@ == old(self)@.inbound.last()
                &&& final(self)@.inbound == old(self)@.inbound.drop_last()
            },
    {
        let r = self.inbound.pop();
        proof {
            if old(self)@.inbound.len() == 0 {
                assert(self@.inbound =~= old(self)@.inbound);
                assert(self@ == old(self)@);
            } else {
                assert(self@.inbound =~= old(self)@.inbound.drop_last());
            }
        }
        r
    }
}

/// Law: processing a packet teaches the table a scored route to its
/// originator. After any receive step for a frame from another node —
/// unless the table was full and the originator new — the table holds an
/// entry for the originator whose primary index points at its best-scoring
/// route, with at least one route, at most `BM_MAX_DEVICE_ROUTES` routes,
/// and at most `BM_MAX_RSSI_SAMPLES` readings averaged per route; the next
/// hop the table answers for the originator is the neighbor of that best
/// route.
pub proof fn lemma_learned_route_is_best(
    pre: BmNetworkEngineView,
    post: BmNetworkEngineView,
    q: BmNetworkPacketView,
)
    requires
        pre.wf(),
        post.wf(),
        receive_transition(pre, post, q),
        q.orig != pre.local_id(),
        pre.table.has_node(q.orig) || pre.table.nodes.len()
            < crate::bm_network_configs::BM_MAX_NET_DEVICES,
    ensures
        post.table.has_node(q.orig),
        post.table.node_of(q.orig).primary_is_best(),
        post.table.node_of(q.orig).primary_route_idx is Some,
        1 <= post.table.node_of(q.orig).routes.len()
            <= crate::bm_network_configs::BM_MAX_DEVICE_ROUTES,
        forall|i: int|
            0 <= i < post.table.node_of(q.orig).routes.len() ==> (#[trigger] post.table.node_of(
                q.orig,
            ).routes[i]).rssi_samples.len() <= crate::bm_network_configs::BM_MAX_RSSI_SAMPLES,
        spec_next_hop(post.table, q.orig) == post.table.node_of(q.orig).routes[post.table.node_of(
            q.orig,
        ).primary_route_idx.unwrap() as int].next_hop,
{
    let t = post.table;
    assert(t.has_node(q.orig));
    let w = choose|i: int| 0 <= i < t.nodes.len() && (#[trigger] t.nodes[i]).dest_id == q.orig;
    assert(t.node_of(q.orig) == t.nodes[w]);
    assert(t.nodes[w].primary_is_best() && t.nodes[w].routes.len() >= 1);
    assert(t.nodes[w].wf());
    match t.nodes[w].primary_route_idx {
        Some(k) => {},
        None => {
            assert(t.nodes[w].routes.len() == 0);
        },
    }
}

/// Law: an overdue ack with transmissions left must pass through the
/// retry state — the engine visits `RetryingPayload` before it can either
/// succeed or surface `ErrorNoAck`.
pub proof fn lemma_retry_before_error(
    pre: BmNetworkEngineView,
    post: BmNetworkEngineView,
    now: i64,
)
    requires
        tick_transition(pre, post, now),
        pre.engine_status == BmEngineStatus::WaitingForAck,
        pre.working_outbound_index matches Some(w) && (pre.outbound[w as int].tx_complete_timestamp
            matches Some(t) && reply_timed_out(t, now)),
    ensures
        pre.working_outbound_index matches Some(w) ==> (pre.outbound[w as int].tx_count
            < BM_PACKET_RETRY_COUNT ==> post.engine_status == BmEngineStatus::RetryingPayload),
        pre.working_outbound_index matches Some(w) ==> (pre.outbound[w as int].tx_count
            >= BM_PACKET_RETRY_COUNT ==> post.engine_status == BmEngineStatus::ErrorNoAck),
{
}

/// Overflow-safe check that a reply is overdue.
fn check_reply_timeout(tx_complete: i64, now: i64) -> (r: bool)
    ensures
        r == reply_timed_out(tx_complete, now),
{
    tx_complete <= i64::MAX - (BM_REPLY_TIMEOUT_MS + 1) && now > tx_complete
        + BM_REPLY_TIMEOUT_MS
}

} // verus!

