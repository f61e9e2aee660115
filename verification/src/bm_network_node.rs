//! Per-destination route set with quality scoring.
//!
//! Each known destination holds up to `BM_MAX_DEVICE_ROUTES` candidate
//! routes, one per neighbor the destination was reached through. A route is
//! scored `30 * distance - avg_rssi + 50 * failures`; smaller is better.
//! The average smooths a bounded ring of the last `BM_MAX_RSSI_SAMPLES`
//! RSSI readings.

use vstd::prelude::*;
use crate::bm_network_configs::{BM_MAX_DEVICE_ROUTES, BM_MAX_RSSI_SAMPLES};
use crate::{NetworkId, RssiType, TimeType};

verus! {

/// Sum of a sequence of RSSI readings.
pub open spec fn sum_rssi(s: Seq<i16>) -> int
    decreases s.len(),
{
    if s.len() == 0 {
        0
    } else {
        sum_rssi(s.drop_last()) + s.last()
    }
}

/// Integer division that truncates toward zero, as the machine division the
/// average is computed with does.
pub open spec fn trunc_div(a: int, b: int) -> int {
    if a >= 0 {
        a / b
    } else {
        -((-a) / b)
    }
}

/// The average the scorer keeps: the truncating mean of the sample ring.
pub open spec fn avg_of(s: Seq<i16>) -> int {
    trunc_div(sum_rssi(s), s.len() as int)
}

pub proof fn lemma_sum_rssi_bounds(s: Seq<i16>)
    ensures
        -32768 * s.len() <= sum_rssi(s) <= 32767 * s.len(),
    decreases s.len(),
{
    if s.len() > 0 {
        lemma_sum_rssi_bounds(s.drop_last());
    }
}

pub proof fn lemma_avg_bounds(s: Seq<i16>)
    requires
        s.len() >= 1,
    ensures
        -32768 <= avg_of(s) <= 32767,
{
    lemma_sum_rssi_bounds(s);
    let a = sum_rssi(s);
    let n = s.len() as int;
    if a >= 0 {
        assert(0 <= a <= 32767 * n && n >= 1 ==> 0 <= a / n <= 32767) by (nonlinear_arith);
    } else {
        assert(-32768 * n <= a < 0 && n >= 1 ==> 0 <= (-a) / n <= 32768) by (nonlinear_arith);
    }
}

/// Mathematical image of one route.
pub struct BmRouteView {
    pub next_hop: NetworkId,
    pub distance: u8,
    pub timestamp_millis: TimeType,
    pub avg_rssi: i32,
    pub rssi_samples: Seq<i16>,
    pub failures: u8,
}

impl BmRouteView {
    /// The sample ring is non-empty and bounded, and the stored average is
    /// the truncating mean of the ring.
    pub open spec fn wf(self) -> bool {
        &&& 1 <= self.rssi_samples.len() <= BM_MAX_RSSI_SAMPLES
        &&& self.avg_rssi == avg_of(self.rssi_samples)
        &&& -32768 <= self.avg_rssi <= 32767
    }
}

/// The quality metric of a route; smaller is better. Fewer hops and higher
/// received power dominate; each recorded failure costs 50 units.
pub open spec fn route_metric(r: BmRouteView) -> int {
    30 * r.distance - r.avg_rssi + 50 * r.failures
}

/// One way of reaching a destination: through `next_hop`, at `distance`
/// relays, with a smoothed signal strength and a failure count.
#[derive(Debug)]
pub struct BmRoute {
    pub next_hop: NetworkId,
    pub distance: u8,
    pub timestamp_millis: TimeType,
    pub avg_rssi: i32,
    pub rssi_samples: Vec<RssiType>,
    pub failures: u8,
}

impl View for BmRoute {
    type V = BmRouteView;

    open spec fn view(&self) -> BmRouteView {
        BmRouteView {
            next_hop: self.next_hop,
            distance: self.distance,
            timestamp_millis: self.timestamp_millis,
            avg_rssi: self.avg_rssi,
            rssi_samples: self.rssi_samples@,
            failures: self.failures,
        }
    }
}

impl Clone for BmRoute {
    fn clone(&self) -> (r: Self)
        ensures
            r@ == self@,
    {
        let r = BmRoute {
            next_hop: self.next_hop,
            distance: self.distance,
            timestamp_millis: self.timestamp_millis,
            avg_rssi: self.avg_rssi,
            rssi_samples: self.rssi_samples.clone(),
            failures: self.failures,
        };
        proof {
            assert(r@.rssi_samples =~= self@.rssi_samples);
            assert(r@ == self@);
        }
        r
    }
}

impl BmRoute {
    /// Pushes a new reading into the ring, evicting the oldest when the ring
    /// is full, and recomputes the stored average.
    pub fn update_rssi(&mut self, rssi: RssiType)
        requires
            old(self)@.rssi_samples.len() <= BM_MAX_RSSI_SAMPLES,
        ensures
            final(self)@.rssi_samples == (if old(self)@.rssi_samples.len() >= BM_MAX_RSSI_SAMPLES {
                old(self)@.rssi_samples.skip(1)
            } else {
                old(self)@.rssi_samples
            }).push(rssi),
            final(self)@.avg_rssi == avg_of(final(self)@.rssi_samples),
            final(self)@ == (BmRouteView {
                avg_rssi: final(self)@.avg_rssi,
                rssi_samples: final(self)@.rssi_samples,
                ..old(self)@
            }),
            1 <= final(self)@.rssi_samples.len() <= BM_MAX_RSSI_SAMPLES,
            -32768 <= final(self)@.avg_rssi <= 32767,
    {
        if self.rssi_samples.len() >= BM_MAX_RSSI_SAMPLES {
            self.rssi_samples.remove(0);
            proof {
                assert(self.rssi_samples@ =~= old(self)@.rssi_samples.skip(1));
            }
        }
        self.rssi_samples.push(rssi);
        let ghost samples = self.rssi_samples@;
        let mut sum: i32 = 0;
        let mut i: usize = 0;
        while i < self.rssi_samples.len()
            invariant
                i <= samples.len() <= BM_MAX_RSSI_SAMPLES,
                self.rssi_samples@ == samples,
                sum == sum_rssi(samples.subrange(0, i as int)),
                -32768 * i <= sum <= 32767 * i,
            decreases samples.len() - i,
        {
            proof {
                assert(samples.subrange(0, i + 1 as int).drop_last() =~= samples.subrange(
                    0,
                    i as int,
                ));
                lemma_sum_rssi_bounds(samples.subrange(0, i as int));
            }
            sum = sum + self.rssi_samples[i] as i32;
            i = i + 1;
        }
        proof {
            assert(samples.subrange(0, samples.len() as int) =~= samples);
            lemma_avg_bounds(samples);
        }
        let len = self.rssi_samples.len() as u32;
        let avg: i32 = if sum >= 0 {
            ((sum as u32) / len) as i32
        } else {
            -((((-sum) as u32) / len) as i32)
        };
        self.avg_rssi = avg;
    }

    pub fn get_next_hop(&self) -> (r: NetworkId)
        ensures
            r == self@.next_hop,
    {
        self.next_hop
    }
}

/// The ring after one more reading: the oldest entry leaves when the ring
/// is full.
pub open spec fn ring_push(s: Seq<i16>, rssi: i16) -> Seq<i16> {
    if s.len() >= BM_MAX_RSSI_SAMPLES {
        s.skip(1).push(rssi)
    } else {
        s.push(rssi)
    }
}

/// A known route after a fresh observation through the same neighbor.
pub open spec fn route_refreshed(
    r: BmRouteView,
    distance: u8,
    millis: TimeType,
    rssi: i16,
) -> BmRouteView {
    BmRouteView {
        distance,
        timestamp_millis: millis,
        rssi_samples: ring_push(r.rssi_samples, rssi),
        avg_rssi: avg_of(ring_push(r.rssi_samples, rssi)) as i32,
        ..r
    }
}

/// A route first observed now: one sample, no failures.
pub open spec fn fresh_route(
    next_hop: NetworkId,
    distance: u8,
    millis: TimeType,
    rssi: i16,
) -> BmRouteView {
    BmRouteView {
        next_hop,
        distance,
        timestamp_millis: millis,
        avg_rssi: rssi as i32,
        rssi_samples: seq![rssi],
        failures: 0u8,
    }
}

/// An entry after an error on its primary route: the failure count bumped
/// (saturating) and the timestamp touched; without a primary, unchanged.
pub open spec fn node_error_bumped(n: BmNodeEntryView, millis: TimeType) -> BmNodeEntryView {
    match n.primary_route_idx {
        Some(k) => BmNodeEntryView {
            routes: n.routes.update(
                k as int,
                BmRouteView {
                    failures: if n.routes[k as int].failures < 255 {
                        (n.routes[k as int].failures + 1) as u8
                    } else {
                        255u8
                    },
                    timestamp_millis: millis,
                    ..n.routes[k as int]
                },
            ),
            ..n
        },
        None => n,
    }
}

/// Index `k` holds the best route of the set: no route scores lower, and no
/// earlier route ties it.
pub open spec fn is_best_route(routes: Seq<BmRouteView>, k: int) -> bool {
    &&& 0 <= k < routes.len()
    &&& forall|j: int| 0 <= j < routes.len() ==> route_metric(routes[k]) <= route_metric(
        #[trigger] routes[j],
    )
    &&& forall|j: int| 0 <= j < k ==> route_metric(#[trigger] routes[j]) > route_metric(routes[k])
}

/// Mathematical image of a destination's entry.
pub struct BmNodeEntryView {
    pub dest_id: NetworkId,
    pub primary_route_idx: Option<usize>,
    pub routes: Seq<BmRouteView>,
}

impl BmNodeEntryView {
    /// Bounded route set, well-formed routes, one route per neighbor, and a
    /// primary index in range.
    pub open spec fn wf(self) -> bool {
        &&& self.routes.len() <= BM_MAX_DEVICE_ROUTES
        &&& forall|i: int| 0 <= i < self.routes.len() ==> (#[trigger] self.routes[i]).wf()
        &&& forall|i: int, j: int|
            0 <= i < j < self.routes.len() ==> (#[trigger] self.routes[i]).next_hop != (
            #[trigger] self.routes[j]).next_hop
        &&& match self.primary_route_idx {
            Some(k) => k < self.routes.len(),
            None => true,
        }
    }

    /// Some route goes through this neighbor.
    pub open spec fn has_route(self, next_hop: NetworkId) -> bool {
        exists|i: int| 0 <= i < self.routes.len() && (#[trigger] self.routes[i]).next_hop == next_hop
    }

    /// The primary index points at the best route, and is absent only when
    /// no route is known.
    pub open spec fn primary_is_best(self) -> bool {
        match self.primary_route_idx {
            Some(k) => is_best_route(self.routes, k as int),
            None => self.routes.len() == 0,
        }
    }
}

/// All that is known about one destination: its id and the scored set of
/// candidate routes, with the current primary.
#[derive(Debug)]
pub struct BmNodeEntry {
    pub dest_id: NetworkId,
    pub primary_route_idx: Option<usize>,
    pub routes: Vec<BmRoute>,
}

impl View for BmNodeEntry {
    type V = BmNodeEntryView;

    open spec fn view(&self) -> BmNodeEntryView {
        BmNodeEntryView {
            dest_id: self.dest_id,
            primary_route_idx: self.primary_route_idx,
            routes: Seq::new(self.routes@.len(), |i: int| self.routes@[i]@),
        }
    }
}

impl Clone for BmNodeEntry {
    fn clone(&self) -> (r: Self)
        ensures
            r@ == self@,
    {
        let mut routes: Vec<BmRoute> = Vec::new();
        let mut i: usize = 0;
        while i < self.routes.len()
            invariant
                i <= self.routes@.len(),
                routes@.len() == i,
                forall|j: int| 0 <= j < i ==> (#[trigger] routes@[j])@ == self.routes@[j]@,
            decreases self.routes@.len() - i,
        {
            routes.push(self.routes[i].clone());
            i = i + 1;
        }
        let r = BmNodeEntry { dest_id: self.dest_id, primary_route_idx: self.primary_route_idx, routes };
        proof {
            assert(r@.routes =~= self@.routes);
        }
        r
    }
}

impl BmNodeEntry {
    pub fn new(dest_id: NetworkId) -> (r: BmNodeEntry)
        ensures
            r@.dest_id == dest_id,
            r@.primary_route_idx is None,
            r@.routes =~= Seq::<BmRouteView>::empty(),
            r@.wf(),
    {
        BmNodeEntry { dest_id, primary_route_idx: None, routes: Vec::new() }
    }

    /// First index whose route goes through `next_hop`.
    fn find_route_index(&self, next_hop: NetworkId) -> (r: Option<usize>)
        ensures
            match r {
                Some(k) => k < self@.routes.len() && self@.routes[k as int].next_hop == next_hop,
                None => !self@.has_route(next_hop),
            },
    {
        let mut k: usize = 0;
        while k < self.routes.len()
            invariant
                k <= self@.routes.len(),
                forall|j: int| 0 <= j < k ==> (#[trigger] self@.routes[j]).next_hop != next_hop,
            decreases self@.routes.len() - k,
        {
            if self.routes[k].next_hop == next_hop {
                return Some(k);
            }
            k = k + 1;
        }
        None
    }

    fn route_exists(&self, next_hop: NetworkId) -> (r: bool)
        ensures
            r == self@.has_route(next_hop),
    {
        self.find_route_index(next_hop).is_some()
    }

    /// Rescans the whole set and points the primary index at the best route;
    /// the earliest route wins a tie. The index is absent only when the set
    /// is empty.
    fn determine_primary_route(&mut self)
        requires
            old(self)@.wf(),
        ensures
            final(self)@.dest_id == old(self)@.dest_id,
            final(self)@.routes == old(self)@.routes,
            final(self)@.primary_is_best(),
            final(self)@.wf(),
    {
        if self.routes.len() == 0 {
            self.primary_route_idx = None;
            return;
        }
        let mut best: usize = 0;
        let mut k: usize = 1;
        while k < self.routes.len()
            invariant
                self@.wf(),
                self@ == old(self)@,
                self@.routes.len() > 0,
                best < k <= self@.routes.len(),
                is_best_route(self@.routes.subrange(0, k as int), best as int),
            decreases self@.routes.len() - k,
        {
            let ghost pre = self@.routes.subrange(0, k as int);
            let ghost cur = self@.routes.subrange(0, k + 1 as int);
            proof {
                assert(self@.routes[best as int].wf());
                assert(self@.routes[k as int].wf());
            }
            if compare_routes(&self.routes[best], &self.routes[k]) {
                best = k;
            }
            proof {
                assert(forall|j: int| 0 <= j < k ==> cur[j] == pre[j]);
                assert(cur[k as int] == self@.routes[k as int]);
                assert(is_best_route(cur, best as int));
            }
            k = k + 1;
        }
        proof {
            assert(self@.routes.subrange(0, self@.routes.len() as int) =~= self@.routes);
        }
        self.primary_route_idx = Some(best);
    }

    /// Records a fresh observation of this destination through `next_hop`,
    /// creating the route or refreshing the existing one, then re-selects
    /// the primary. A new route is dropped when the set is full.
    pub fn update_route(&mut self, next_hop: NetworkId, distance: u8, millis: TimeType, rssi: RssiType)
        requires
            old(self)@.wf(),
        ensures
            final(self)@.dest_id == old(self)@.dest_id,
            final(self)@.wf(),
            final(self)@.primary_is_best(),
            old(self)@.has_route(next_hop) ==> exists|k: int|
                {
                    &&& 0 <= k < old(self)@.routes.len()
                    &&& (#[trigger] old(self)@.routes[k]).next_hop == next_hop
                    &&& final(self)@.routes == old(self)@.routes.update(
                        k,
                        route_refreshed(old(self)@.routes[k], distance, millis, rssi),
                    )
                },
            !old(self)@.has_route(next_hop) && old(self)@.routes.len() < BM_MAX_DEVICE_ROUTES
                ==> final(self)@.routes == old(self)@.routes.push(
                fresh_route(next_hop, distance, millis, rssi),
            ),
            !old(self)@.has_route(next_hop) && old(self)@.routes.len() >= BM_MAX_DEVICE_ROUTES
                ==> final(self)@.routes == old(self)@.routes,
            old(self)@.has_route(next_hop) || old(self)@.routes.len() < BM_MAX_DEVICE_ROUTES
                ==> final(self)@.has_route(next_hop),
    {
        let found = self.find_route_index(next_hop);
        match found {
            Some(idx) => {
                let ghost k = idx as int;
                let mut rt = self.routes[idx].clone();
                rt.distance = distance;
                rt.timestamp_millis = millis;
                rt.update_rssi(rssi);
                proof {
                    assert(rt@ == route_refreshed(old(self)@.routes[k], distance, millis, rssi));
                }
                self.routes.set(idx, rt);
                proof {
                    assert(self@.routes =~= old(self)@.routes.update(
                        k,
                        route_refreshed(old(self)@.routes[k], distance, millis, rssi),
                    ));
                    assert(forall|i: int, j: int|
                        0 <= i < j < self@.routes.len() ==> (#[trigger] self@.routes[i]).next_hop
                            != (#[trigger] self@.routes[j]).next_hop);
                    assert(self@.wf());
                    assert(self@.routes[k].next_hop == next_hop);
                }
                self.determine_primary_route();
                proof {
                    assert(self@.routes[k].next_hop == next_hop);
                }
            },
            None => {
                let was_full = self.routes.len() >= BM_MAX_DEVICE_ROUTES;
                self.add_new_route(next_hop, distance, millis, rssi);
                if was_full {
                    self.determine_primary_route();
                } else {
                    proof {
                        let n = old(self)@.routes.len() as int;
                        assert(self@.routes[n].next_hop == next_hop);
                    }
                }
            },
        }
    }

    /// Adds a route through a neighbor not yet in the set. When the set is
    /// full the new route is dropped and nothing changes.
    pub fn add_new_route(&mut self, next_hop: NetworkId, distance: u8, millis: TimeType, rssi: RssiType)
        requires
            old(self)@.wf(),
            !old(self)@.has_route(next_hop),
        ensures
            final(self)@.dest_id == old(self)@.dest_id,
            final(self)@.wf(),
            old(self)@.routes.len() < BM_MAX_DEVICE_ROUTES ==> {
                &&& final(self)@.routes == old(self)@.routes.push(
                    fresh_route(next_hop, distance, millis, rssi),
                )
                &&& final(self)@.primary_is_best()
            },
            old(self)@.routes.len() >= BM_MAX_DEVICE_ROUTES ==> *final(self) == *old(self),
    {
        if self.routes.len() < BM_MAX_DEVICE_ROUTES {
            let mut new_route = BmRoute {
                next_hop,
                distance,
                timestamp_millis: millis,
                avg_rssi: 0,
                rssi_samples: Vec::new(),
                failures: 0,
            };
            new_route.update_rssi(rssi);
            proof {
                assert(new_route@.rssi_samples =~= seq![rssi]);
                assert(sum_rssi(Seq::<i16>::empty()) == 0);
                assert(seq![rssi].drop_last() =~= Seq::<i16>::empty());
                assert(sum_rssi(seq![rssi]) == rssi);
                assert(new_route@ == fresh_route(next_hop, distance, millis, rssi));
            }
            self.routes.push(new_route);
            proof {
                assert(self@.routes =~= old(self)@.routes.push(
                    fresh_route(next_hop, distance, millis, rssi),
                ));
                assert(self@.wf());
            }
            self.determine_primary_route();
        }
    }

    /// Upsert used while building an entry: refresh the route through
    /// `next_hop` or add it.
    pub fn with_route(self, next_hop: NetworkId, distance: u8, millis: TimeType, rssi: RssiType) -> (r:
        Self)
        requires
            self@.wf(),
        ensures
            r@.dest_id == self@.dest_id,
            r@.wf(),
            self@.has_route(next_hop) || self@.routes.len() < BM_MAX_DEVICE_ROUTES
                ==> r@.primary_is_best() && r@.has_route(next_hop),
            !self@.has_route(next_hop) && self@.routes.len() < BM_MAX_DEVICE_ROUTES ==> r@.routes
                == self@.routes.push(fresh_route(next_hop, distance, millis, rssi)),
    {
        let mut this = self;
        if this.route_exists(next_hop) {
            this.update_route(next_hop, distance, millis, rssi);
        } else {
            let ghost old_len = this@.routes.len() as int;
            this.add_new_route(next_hop, distance, millis, rssi);
            proof {
                if old_len < BM_MAX_DEVICE_ROUTES {
                    assert(this@.routes[old_len].next_hop == next_hop);
                }
            }
        }
        this
    }

    /// Bumps the failure count of the current primary route (saturating)
    /// and touches its timestamp; a no-op when no primary is selected.
    pub fn record_error(&mut self, millis: TimeType)
        requires
            old(self)@.wf(),
        ensures
            final(self)@.dest_id == old(self)@.dest_id,
            final(self)@.primary_route_idx == old(self)@.primary_route_idx,
            final(self)@.wf(),
            match old(self)@.primary_route_idx {
                Some(k) => final(self)@.routes == old(self)@.routes.update(
                    k as int,
                    BmRouteView {
                        failures: if old(self)@.routes[k as int].failures < 255 {
                            (old(self)@.routes[k as int].failures + 1) as u8
                        } else {
                            255u8
                        },
                        timestamp_millis: millis,
                        ..old(self)@.routes[k as int]
                    },
                ),
                None => final(self)@.routes == old(self)@.routes,
            },
    {
        if let Some(route_idx) = self.primary_route_idx {
            let mut rt = self.routes[route_idx].clone();
            if rt.failures < 255 {
                rt.failures = rt.failures + 1;
            }
            rt.timestamp_millis = millis;
            self.routes.set(route_idx, rt);
            proof {
                assert(self@.routes =~= old(self)@.routes.update(
                    route_idx as int,
                    BmRouteView {
                        failures: if old(self)@.routes[route_idx as int].failures < 255 {
                            (old(self)@.routes[route_idx as int].failures + 1) as u8
                        } else {
                            255u8
                        },
                        timestamp_millis: millis,
                        ..old(self)@.routes[route_idx as int]
                    },
                ));
                assert(self@.wf());
            }
        }
    }

    /// A copy of the current primary route, when one is selected.
    pub fn get_best_route(&self) -> (r: Option<BmRoute>)
        requires
            self@.wf(),
        ensures
            match self@.primary_route_idx {
                Some(k) => r matches Some(rt) && rt@ == self@.routes[k as int],
                None => r is None,
            },
    {
        if let Some(route_idx) = self.primary_route_idx {
            return Some(self.routes[route_idx].clone());
        }
        None
    }
}

/// Compares two routes by the metric; true when `route2` scores strictly
/// better (lower) than `route1`.
pub fn compare_routes(route1: &BmRoute, route2: &BmRoute) -> (r: bool)
    requires
        route1@.wf(),
        route2@.wf(),
    ensures
        r == (route_metric(route1@) > route_metric(route2@)),
{
    calc_route_metric(route1) > calc_route_metric(route2)
}

/// The route quality metric; lower is better.
pub fn calc_route_metric(route: &BmRoute) -> (r: i32)
    requires
        route@.wf(),
    ensures
        r == route_metric(route@),
{
    let mut metric: i32 = 0;
    metric += route.distance as i32 * 30;
    metric -= route.avg_rssi;
    metric += route.failures as i32 * 50;
    metric
}

} // verus!
