use bm_network::bm_network_node::{calc_route_metric, BmNodeEntry, BmRoute};
use bm_network::bm_network_routing_table::BmNetworkRoutingTable;

fn route(next_hop: u32, distance: u8, rssi: i16, failures: u8) -> BmRoute {
    let mut r = BmRoute {
        next_hop: Some(next_hop),
        distance,
        timestamp_millis: 0,
        avg_rssi: 0,
        rssi_samples: Vec::new(),
        failures: 0,
    };
    r.update_rssi(rssi);
    r.failures = failures;
    r
}

#[test]
fn metric_formula_examples() {
    assert_eq!(calc_route_metric(&route(1, 0, -90, 0)), 90);
    assert_eq!(calc_route_metric(&route(1, 1, -87, 0)), 117);
    assert_eq!(calc_route_metric(&route(1, 2, -80, 0)), 140);
    assert_eq!(calc_route_metric(&route(1, 1, -112, 1)), 192);
}

#[test]
fn rssi_ring_keeps_last_five_and_averages() {
    let mut r = route(1, 0, 10, 0);
    for v in [20i16, 30, 40, 50, 60] {
        r.update_rssi(v);
    }
    assert_eq!(r.rssi_samples, vec![20, 30, 40, 50, 60]);
    assert_eq!(r.avg_rssi, 40);
}

#[test]
fn rssi_average_truncates_toward_zero() {
    let mut r = route(1, 0, -3, 0);
    r.update_rssi(-4);
    assert_eq!(r.avg_rssi, -3);
}

#[test]
fn best_route_wins_by_lower_metric() {
    let mut entry = BmNodeEntry::new(Some(7)).with_route(Some(1), 0, 0, -90);
    entry.update_route(Some(2), 1, 1, -40);
    // metric via 1: 90; via 2: 30 + 40 = 70 -> via 2 is primary.
    let best = entry.get_best_route().unwrap();
    assert_eq!(best.get_next_hop(), Some(2));
}

#[test]
fn repeated_failures_dethrone_a_route() {
    let mut entry = BmNodeEntry::new(Some(7)).with_route(Some(1), 0, 0, -90);
    entry.update_route(Some(2), 1, 1, -40);
    assert_eq!(entry.get_best_route().unwrap().get_next_hop(), Some(2));
    // One failure on the primary costs 50 units: 70 -> 120, worse than 90.
    entry.record_error(2);
    // The primary is re-evaluated on the next observation.
    entry.update_route(Some(1), 0, 3, -90);
    assert_eq!(entry.get_best_route().unwrap().get_next_hop(), Some(1));
}

#[test]
fn tie_keeps_earlier_route() {
    let mut entry = BmNodeEntry::new(Some(7)).with_route(Some(1), 1, 0, -60);
    entry.update_route(Some(2), 1, 1, -60);
    // Equal metrics: the earlier route stays primary.
    assert_eq!(entry.get_best_route().unwrap().get_next_hop(), Some(1));
}

#[test]
fn route_set_is_capped_at_five() {
    let mut entry = BmNodeEntry::new(Some(7)).with_route(Some(1), 0, 0, -90);
    for nh in 2u32..=6 {
        entry.update_route(Some(nh), 0, 0, -90);
    }
    assert_eq!(entry.routes.len(), 5);
    // The sixth neighbor was dropped.
    assert!(entry.routes.iter().all(|r| r.next_hop != Some(6)));
}

#[test]
fn table_learns_and_answers_next_hop() {
    let mut table = BmNetworkRoutingTable::new(Some(1));
    assert_eq!(table.get_local_network_id(), Some(1));
    assert_eq!(table.get_next_hop(Some(9)), None);
    table.update_node_route(Some(9), Some(4), 2, 100, -70);
    assert_eq!(table.get_num_nodes(), 1);
    assert_eq!(table.get_next_hop(Some(9)), Some(4));
    // A better observation through another neighbor takes over.
    table.update_node_route(Some(9), Some(5), 0, 200, -50);
    assert_eq!(table.get_next_hop(Some(9)), Some(5));
}

#[test]
fn table_error_penalises_primary_sample() {
    let mut table = BmNetworkRoutingTable::new(Some(1));
    table.update_node_route(Some(9), Some(4), 0, 0, -60);
    table.update_node_route(Some(9), Some(5), 0, 0, -90);
    assert_eq!(table.get_next_hop(Some(9)), Some(4));
    // Two failures cost 100 units: 60 -> 160, worse than 90; the next
    // observation re-selects.
    table.set_node_error(Some(9), 10);
    table.set_node_error(Some(9), 20);
    table.update_node_route(Some(9), Some(5), 0, 30, -90);
    assert_eq!(table.get_next_hop(Some(9)), Some(5));
}

#[test]
fn table_error_on_unknown_destination_is_ignored() {
    let mut table = BmNetworkRoutingTable::new(Some(1));
    table.set_node_error(Some(9), 10);
    assert_eq!(table.get_num_nodes(), 0);
}

#[test]
fn full_table_drops_new_destinations() {
    let mut table = BmNetworkRoutingTable::new(Some(1));
    for id in 0u32..100 {
        table.update_node_route(Some(1000 + id), Some(2), 0, 0, -60);
    }
    assert_eq!(table.get_num_nodes(), 100);
    table.update_node_route(Some(5000), Some(2), 0, 0, -60);
    assert_eq!(table.get_num_nodes(), 100);
    assert_eq!(table.get_next_hop(Some(5000)), None);
    // Known destinations still update.
    table.update_node_route(Some(1000), Some(3), 0, 0, -10);
    assert_eq!(table.get_next_hop(Some(1000)), Some(3));
}

#[test]
fn node_lookup_by_index() {
    let mut table = BmNetworkRoutingTable::new(Some(1));
    table.update_node_route(Some(9), Some(4), 2, 100, -70);
    let entry = table.get_node_by_idx(0).unwrap();
    assert_eq!(entry.dest_id, Some(9));
    assert_eq!(entry.routes.len(), 1);
    assert!(table.get_node_by_idx(1).is_none());
}
