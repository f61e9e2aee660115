//! Destination-indexed routing table, bounded at `BM_MAX_NET_DEVICES`
//! entries. Every received packet feeds it: a passively observed relay is
//! evidence of reachability. A full table drops new destinations; it never
//! fails.

use vstd::prelude::*;
use crate::bm_network_configs::{BM_MAX_NET_DEVICES, BM_MAX_DEVICE_ROUTES};
use crate::bm_network_node::{BmNodeEntry, BmNodeEntryView, node_error_bumped};
use crate::{NetworkId, RssiType, TimeType};

verus! {

/// Mathematical image of the table.
pub struct BmNetworkRoutingTableView {
    pub network_id: NetworkId,
    pub nodes: Seq<BmNodeEntryView>,
}

impl BmNetworkRoutingTableView {
    /// Bounded, well-formed entries, one entry per destination, and no
    /// entry without a route.
    pub open spec fn wf(self) -> bool {
        &&& self.nodes.len() <= BM_MAX_NET_DEVICES
        &&& forall|i: int| 0 <= i < self.nodes.len() ==> (#[trigger] self.nodes[i]).wf()
        &&& forall|i: int| 0 <= i < self.nodes.len() ==> (#[trigger] self.nodes[i]).routes.len() >= 1
        &&& forall|i: int, j: int|
            0 <= i < j < self.nodes.len() ==> (#[trigger] self.nodes[i]).dest_id != (
            #[trigger] self.nodes[j]).dest_id
    }

    /// A destination is known.
    pub open spec fn has_node(self, id: NetworkId) -> bool {
        exists|i: int| 0 <= i < self.nodes.len() && (#[trigger] self.nodes[i]).dest_id == id
    }

    /// The entry of a known destination (unique when `wf`).
    pub open spec fn node_of(self, id: NetworkId) -> BmNodeEntryView {
        self.nodes[choose|i: int| 0 <= i < self.nodes.len() && (#[trigger] self.nodes[i]).dest_id
            == id]
    }
}

/// What one observation `(orig seen via, at distance)` does to the table:
/// entries of other destinations stand untouched; the destination's entry
/// exists afterwards unless the table was full, holds at least one route,
/// and its primary index points at its best-scoring route.
pub open spec fn table_updated(
    pre: BmNetworkRoutingTableView,
    post: BmNetworkRoutingTableView,
    orig: NetworkId,
    via: NetworkId,
) -> bool {
    &&& post.network_id == pre.network_id
    &&& pre.nodes.len() <= post.nodes.len() <= pre.nodes.len() + 1
    &&& (pre.has_node(orig) ==> post.nodes.len() == pre.nodes.len())
    &&& forall|j: int|
        0 <= j < pre.nodes.len() && (#[trigger] pre.nodes[j]).dest_id != orig ==> post.nodes[j]
            == pre.nodes[j]
    &&& (pre.has_node(orig) || pre.nodes.len() < BM_MAX_NET_DEVICES ==> post.has_node(orig))
    &&& forall|j: int|
        0 <= j < post.nodes.len() && (#[trigger] post.nodes[j]).dest_id == orig ==> {
            &&& post.nodes[j].primary_is_best()
            &&& post.nodes[j].routes.len() >= 1
        }
}

/// What recording a delivery error against `dest` does to the table: the
/// destination's entry has the failure count of its primary route bumped
/// and its timestamp touched; every other entry stands; an unknown
/// destination changes nothing.
pub open spec fn table_error_marked(
    pre: BmNetworkRoutingTableView,
    post: BmNetworkRoutingTableView,
    dest: NetworkId,
    millis: TimeType,
) -> bool {
    &&& post.network_id == pre.network_id
    &&& post.nodes.len() == pre.nodes.len()
    &&& forall|j: int|
        0 <= j < pre.nodes.len() && (#[trigger] pre.nodes[j]).dest_id != dest ==> post.nodes[j]
            == pre.nodes[j]
    &&& forall|j: int|
        0 <= j < pre.nodes.len() && (#[trigger] pre.nodes[j]).dest_id == dest ==> post.nodes[j]
            == node_error_bumped(pre.nodes[j], millis)
    &&& !pre.has_node(dest) ==> post == pre
}

/// The primary next hop the table answers for a destination: the neighbor
/// of the best-scoring route, or `None` when the destination is unknown or
/// no route is selected.
pub open spec fn spec_next_hop(t: BmNetworkRoutingTableView, dest: NetworkId) -> NetworkId {
    if t.has_node(dest) {
        match t.node_of(dest).primary_route_idx {
            Some(k) => t.node_of(dest).routes[k as int].next_hop,
            None => None,
        }
    } else {
        None
    }
}

/// The routing table: the local node's own id and one entry per known
/// destination.
#[derive(Debug)]
pub struct BmNetworkRoutingTable {
    pub network_id: NetworkId,
    pub nodes: Vec<BmNodeEntry>,
}

impl View for BmNetworkRoutingTable {
    type V = BmNetworkRoutingTableView;

    open spec fn view(&self) -> BmNetworkRoutingTableView {
        BmNetworkRoutingTableView {
            network_id: self.network_id,
            nodes: Seq::new(self.nodes@.len(), |i: int| self.nodes@[i]@),
        }
    }
}

impl BmNetworkRoutingTable {
    pub fn new(local_network_id: NetworkId) -> (r: Self)
        ensures
            r@.network_id == local_network_id,
            r@.nodes =~= Seq::<BmNodeEntryView>::empty(),
            r@.wf(),
    {
        BmNetworkRoutingTable { network_id: local_network_id, nodes: Vec::new() }
    }

    pub fn get_local_network_id(&self) -> (r: NetworkId)
        ensures
            r == self@.network_id,
    {
        self.network_id
    }

    /// Index of the entry for a destination, when one exists.
    pub fn find_node_by_id(&self, net_id: NetworkId) -> (r: Option<usize>)
        ensures
            match r {
                Some(k) => k < self@.nodes.len() && self@.nodes[k as int].dest_id == net_id,
                None => !self@.has_node(net_id),
            },
    {
        let mut k: usize = 0;
        while k < self.nodes.len()
            invariant
                k <= self@.nodes.len(),
                forall|j: int| 0 <= j < k ==> (#[trigger] self@.nodes[j]).dest_id != net_id,
            decreases self@.nodes.len() - k,
        {
            if self.nodes[k].dest_id == net_id {
                return Some(k);
            }
            k = k + 1;
        }
        None
    }

    /// Records that `orig_id` was reached through neighbor `next_hop` at
    /// `distance` relays: finds or creates the entry and upserts the route.
    /// A full table drops a new destination.
    pub fn update_node_route(
        &mut self,
        orig_id: NetworkId,
        next_hop: NetworkId,
        distance: u8,
        millis: TimeType,
        rssi: RssiType,
    )
        requires
            old(self)@.wf(),
        ensures
            final(self)@.wf(),
            table_updated(old(self)@, final(self)@, orig_id, next_hop),
            !old(self)@.has_node(orig_id) && old(self)@.nodes.len() >= BM_MAX_NET_DEVICES
                ==> final(self)@ == old(self)@,
    {
        let found = self.find_node_by_id(orig_id);
        match found {
            Some(j) => {
                let mut node = self.nodes[j].clone();
                proof {
                    assert(node@.wf());
                    assert(node@.routes.len() >= 1);
                }
                node.update_route(next_hop, distance, millis, rssi);
                self.nodes.set(j, node);
                proof {
                    assert(self@.nodes =~= old(self)@.nodes.update(j as int, node@));
                    assert forall|i: int, jj: int|
                        0 <= i < jj < self@.nodes.len() implies (#[trigger] self@.nodes[i]).dest_id
                        != (#[trigger] self@.nodes[jj]).dest_id by {
                        assert(old(self)@.nodes[i].dest_id != old(self)@.nodes[jj].dest_id);
                    }
                    assert(self@.wf());
                    assert(self@.nodes[j as int].dest_id == orig_id);
                    assert forall|jj: int|
                        0 <= jj < self@.nodes.len() && (#[trigger] self@.nodes[jj]).dest_id
                            == orig_id implies self@.nodes[jj].primary_is_best()
                        && self@.nodes[jj].routes.len() >= 1 by {
                        if jj != j {
                            assert(old(self)@.nodes[jj].dest_id == orig_id);
                            assert(old(self)@.nodes[j as int].dest_id == orig_id);
                        }
                    }
                }
            },
            None => {
                if self.nodes.len() < BM_MAX_NET_DEVICES {
                    let new_node = BmNodeEntry::new(orig_id).with_route(
                        next_hop,
                        distance,
                        millis,
                        rssi,
                    );
                    proof {
                        assert(new_node@.routes.len() == 1);
                    }
                    self.nodes.push(new_node);
                    proof {
                        assert(self@.nodes =~= old(self)@.nodes.push(new_node@));
                        assert(self@.wf());
                        assert(self@.nodes[old(self)@.nodes.len() as int].dest_id == orig_id);
                    }
                }
            },
        }
    }

    /// Bumps the failure count on the primary route of a destination's
    /// entry; unknown destinations are ignored.
    pub fn set_node_error(&mut self, dest_id: NetworkId, millis: TimeType)
        requires
            old(self)@.wf(),
        ensures
            final(self)@.wf(),
            table_error_marked(old(self)@, final(self)@, dest_id, millis),
    {
        let found = self.find_node_by_id(dest_id);
        match found {
            Some(j) => {
                let mut node = self.nodes[j].clone();
                proof {
                    assert(node@.wf());
                }
                node.record_error(millis);
                self.nodes.set(j, node);
                proof {
                    assert(self@.nodes =~= old(self)@.nodes.update(j as int, node@));
                    assert(node@ == node_error_bumped(old(self)@.nodes[j as int], millis));
                    assert(node@.routes.len() >= 1);
                    assert forall|i: int, jj: int|
                        0 <= i < jj < self@.nodes.len() implies (#[trigger] self@.nodes[i]).dest_id
                        != (#[trigger] self@.nodes[jj]).dest_id by {
                        assert(old(self)@.nodes[i].dest_id != old(self)@.nodes[jj].dest_id);
                    }
                    assert(self@.wf());
                }
            },
            None => {
                proof {
                    assert(self@.nodes =~= old(self)@.nodes);
                }
            },
        }
    }

    /// The primary next hop toward a destination, or `None` when the
    /// destination is unknown or has no selected route.
    pub fn get_next_hop(&self, dest_id: NetworkId) -> (r: NetworkId)
        requires
            self@.wf(),
        ensures
            r == spec_next_hop(self@, dest_id),
    {
        let found = self.find_node_by_id(dest_id);
        if let Some(j) = found {
            proof {
                assert(self@.nodes[j as int].dest_id == dest_id);
                let w = choose|i: int|
                    0 <= i < self@.nodes.len() && (#[trigger] self@.nodes[i]).dest_id == dest_id;
                if w != j as int {
                    assert(self@.nodes[w].dest_id != self@.nodes[j as int].dest_id);
                }
                assert(self@.node_of(dest_id) == self@.nodes[j as int]);
            }
            let best = self.nodes[j].get_best_route();
            if let Some(route) = best {
                return route.get_next_hop();
            }
            return None;
        }
        None
    }

    /// Appends an entry for a destination not yet in the table.
    pub fn add_node(&mut self, new_node: BmNodeEntry)
        requires
            old(self)@.wf(),
            old(self)@.nodes.len() < BM_MAX_NET_DEVICES,
            !old(self)@.has_node(new_node@.dest_id),
            new_node@.wf(),
            new_node@.routes.len() >= 1,
        ensures
            final(self)@.network_id == old(self)@.network_id,
            final(self)@.nodes == old(self)@.nodes.push(new_node@),
            final(self)@.wf(),
    {
        self.nodes.push(new_node);
        proof {
            assert(self@.nodes =~= old(self)@.nodes.push(new_node@));
            assert(self@.wf());
        }
    }

    pub fn get_num_nodes(&self) -> (r: usize)
        ensures
            r == self@.nodes.len(),
    {
        self.nodes.len()
    }

    pub fn get_node_by_idx(&self, index: usize) -> (r: Option<&BmNodeEntry>)
        ensures
            match r {
                Some(n) => index < self@.nodes.len() && n@ == self@.nodes[index as int],
                None => index >= self@.nodes.len(),
            },
    {
        if index < self.nodes.len() {
            Some(&self.nodes[index])
        } else {
            None
        }
    }
}

} // verus!
