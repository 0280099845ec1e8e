//! Query layer: read-only operations against one snapshot value. Each
//! operation is pure with respect to the snapshot it is called on, so any
//! number of concurrent readers can share a published snapshot; absence
//! (unknown feed, route or stop) is an empty result or an explicit
//! no-match, never an error.

use vstd::prelude::*;
use crate::hierarchy::copy_strings;
use crate::models::{NandiRoutesRes, RouteStopMapping, RouteStopMappingWithGeojson, VehicleData};
use crate::normalize::{cast_vehicle_type, cast_vehicle_type_spec, clean_identifier, clean_identifier_spec};
use crate::route_index::seq_nums_distinct;
use crate::snapshot::{spec_geometry, GTFSData};

verus! {

/// The stop-on-route records a snapshot holds for a route of a feed, in
/// arrival order; empty for an unknown feed or route.
pub open spec fn spec_feed_route_records(
    snap: GTFSData,
    feed: Seq<char>,
    route: Seq<char>,
) -> Seq<RouteStopMapping> {
    if snap.stores.contains_key(feed) {
        snap.stores.spec_get(feed).route_data.spec_route_records(route)
    } else {
        Seq::<RouteStopMapping>::empty()
    }
}

/// Some record of the feed references both the stop and the route.
pub open spec fn spec_feed_serves(
    snap: GTFSData,
    feed: Seq<char>,
    stop: Seq<char>,
    route: Seq<char>,
) -> bool {
    snap.stores.contains_key(feed) && snap.stores.spec_get(feed).route_data.spec_stop_served_by(
        stop,
        route,
    )
}

/// Non-decreasing by sequence number.
pub open spec fn sorted_by_seq_num(s: Seq<RouteStopMapping>) -> bool {
    forall|a: int, b: int|
        0 <= a < b < s.len() ==> (#[trigger] s[a]).sequence_num <= (#[trigger] s[b]).sequence_num
}

/// The geometry payload served for a raw stop code: the entry of the
/// global geometry table under the cleaned code, if any.
pub open spec fn spec_geojson_for(snap: GTFSData, stop_code: Seq<char>) -> Option<String> {
    match spec_geometry(snap, clean_identifier_spec(stop_code)) {
        Some(g) => Some(g.geo_json),
        None => None,
    }
}

/// A record joined with the geometry its stop code resolves to.
pub open spec fn enrich_spec(snap: GTFSData, m: RouteStopMapping) -> RouteStopMappingWithGeojson {
    RouteStopMappingWithGeojson {
        estimated_travel_time_from_previous_stop: m.estimated_travel_time_from_previous_stop,
        provider_code: m.provider_code,
        route_code: m.route_code,
        sequence_num: m.sequence_num,
        stop_code: m.stop_code,
        stop_name: m.stop_name,
        stop_point: m.stop_point,
        vehicle_type: m.vehicle_type,
        stop_geojson: spec_geojson_for(snap, m.stop_code@),
    }
}

/// The record a joined row came from.
pub open spec fn strip_spec(x: RouteStopMappingWithGeojson) -> RouteStopMapping {
    RouteStopMapping {
        estimated_travel_time_from_previous_stop: x.estimated_travel_time_from_previous_stop,
        provider_code: x.provider_code,
        route_code: x.route_code,
        sequence_num: x.sequence_num,
        stop_code: x.stop_code,
        stop_name: x.stop_name,
        stop_point: x.stop_point,
        vehicle_type: x.vehicle_type,
    }
}

impl GTFSData {
    /// The stop sequence of a route, sorted ascending by sequence number
    /// (strictly, when the route's sequence numbers are distinct; ties
    /// keep arrival order). Unknown feeds and routes give an empty
    /// sequence, not an error.
    pub fn route_stops(&self, feed_id: &str, route_code: &str) -> (r: Vec<RouteStopMapping>)
        requires
            self.wf(),
        ensures
            r@.len() == spec_feed_route_records(*self, feed_id@, route_code@).len(),
            r@.to_multiset() == spec_feed_route_records(*self, feed_id@, route_code@).to_multiset(),
            sorted_by_seq_num(r@),
            seq_nums_distinct(spec_feed_route_records(*self, feed_id@, route_code@))
                ==> forall|a: int, b: int|
                0 <= a < b < r@.len() ==> (#[trigger] r@[a]).sequence_num < (
                #[trigger] r@[b]).sequence_num,
    {
        let key = feed_id.to_owned();
        match self.stores.get(&key) {
            Some(store) => {
                proof {
                    assert(self.stores.contains_key(feed_id@));
                    assert(self.stores.spec_get(feed_id@).wf());
                }
                let r = store.route_data.stops_for_route(route_code);
                proof {
                    assert(store.route_data.spec_route_records(route_code@).len()
                        == store.route_data.spec_route_positions(route_code@).len());
                }
                r
            },
            None => {
                let r: Vec<RouteStopMapping> = Vec::new();
                proof {
                    assert(r@ =~= spec_feed_route_records(*self, feed_id@, route_code@));
                }
                r
            },
        }
    }

    /// The stop sequence of a route, each stop left-joined against the
    /// global geometry table by its cleaned stop code; missing geometry
    /// is represented as an absent payload, not an error.
    pub fn route_stops_with_geometry(&self, feed_id: &str, route_code: &str) -> (r: Vec<
        RouteStopMappingWithGeojson,
    >)
        requires
            self.wf(),
        ensures
            r@.len() == spec_feed_route_records(*self, feed_id@, route_code@).len(),
            r@.map_values(|x: RouteStopMappingWithGeojson| strip_spec(x)).to_multiset()
                == spec_feed_route_records(*self, feed_id@, route_code@).to_multiset(),
            sorted_by_seq_num(r@.map_values(|x: RouteStopMappingWithGeojson| strip_spec(x))),
            seq_nums_distinct(spec_feed_route_records(*self, feed_id@, route_code@))
                ==> forall|a: int, b: int|
                0 <= a < b < r@.len() ==> (#[trigger] r@[a]).sequence_num < (
                #[trigger] r@[b]).sequence_num,
            forall|i: int|
                0 <= i < r@.len() ==> (#[trigger] r@[i]).stop_geojson == spec_geojson_for(
                    *self,
                    r@[i].stop_code@,
                ),
    {
        let stops = self.route_stops(feed_id, route_code);
        let mut out: Vec<RouteStopMappingWithGeojson> = Vec::new();
        let mut i: usize = 0;
        while i < stops.len()
            invariant
                self.wf(),
                i <= stops@.len(),
                out@.len() == i,
                forall|a: int| 0 <= a < i ==> #[trigger] out@[a] == enrich_spec(*self, stops@[a]),
            decreases stops@.len() - i,
        {
            let m = &stops[i];
            let cleaned = clean_identifier(m.stop_code.as_str());
            let geo = match self.stop_geojsons.get(&cleaned) {
                Some(g) => Some(g.geo_json.clone()),
                None => None,
            };
            out.push(
                RouteStopMappingWithGeojson {
                    estimated_travel_time_from_previous_stop:
                        m.estimated_travel_time_from_previous_stop,
                    provider_code: m.provider_code.clone(),
                    route_code: m.route_code.clone(),
                    sequence_num: m.sequence_num,
                    stop_code: m.stop_code.clone(),
                    stop_name: m.stop_name.clone(),
                    stop_point: m.stop_point,
                    vehicle_type: m.vehicle_type.clone(),
                    stop_geojson: geo,
                },
            );
            i = i + 1;
        }
        proof {
            assert(out@.map_values(|x: RouteStopMappingWithGeojson| strip_spec(x)) =~= stops@);
        }
        out
    }

    /// The distinct route codes serving a stop within a feed. Unknown
    /// feeds and stops give an empty set, not an error.
    pub fn stops_routes(&self, feed_id: &str, stop_code: &str) -> (r: Vec<String>)
        requires
            self.wf(),
        ensures
            forall|a: int|
                0 <= a < r@.len() ==> spec_feed_serves(
                    *self,
                    feed_id@,
                    stop_code@,
                    (#[trigger] r@[a])@,
                ),
            self.stores.contains_key(feed_id@) ==> forall|j: int|
                0 <= j < self.stores.spec_get(feed_id@).route_data.mappings@.len() && (
                #[trigger] self.stores.spec_get(feed_id@).route_data.mappings@[j]).stop_code@
                    == stop_code@ ==> exists|a: int|
                    0 <= a < r@.len() && r@[a]@ == self.stores.spec_get(
                        feed_id@,
                    ).route_data.mappings@[j].route_code@,
            forall|a: int, b: int| 0 <= a < b < r@.len() ==> (#[trigger] r@[a])@ != (#[trigger] r@[b])@,
            !self.stores.contains_key(feed_id@) ==> r@.len() == 0,
    {
        let key = feed_id.to_owned();
        match self.stores.get(&key) {
            Some(store) => {
                proof {
                    assert(self.stores.contains_key(feed_id@));
                    assert(self.stores.spec_get(feed_id@).wf());
                }
                store.route_data.routes_for_stop(stop_code)
            },
            None => Vec::new(),
        }
    }

    /// Station expansion: the recorded child stops of a parent stop
    /// within a feed; a stop without recorded children is its own unit of
    /// service and expands to the singleton of itself.
    pub fn expand_station(&self, feed_id: &str, parent_stop_id: &str) -> (r: Vec<String>)
        requires
            self.wf(),
        ensures
            (self.stores.contains_key(feed_id@) && self.stores.spec_get(
                feed_id@,
            ).children_by_parent.contains_key(parent_stop_id@) && self.stores.spec_get(
                feed_id@,
            ).children_by_parent.spec_get(parent_stop_id@)@.len() > 0) ==> r@ == self.stores.spec_get(
                feed_id@,
            ).children_by_parent.spec_get(parent_stop_id@)@,
            !(self.stores.contains_key(feed_id@) && self.stores.spec_get(
                feed_id@,
            ).children_by_parent.contains_key(parent_stop_id@) && self.stores.spec_get(
                feed_id@,
            ).children_by_parent.spec_get(parent_stop_id@)@.len() > 0) ==> r@.len() == 1
                && r@[0]@ == parent_stop_id@,
    {
        let feed_key = feed_id.to_owned();
        match self.stores.get(&feed_key) {
            Some(store) => {
                proof {
                    assert(self.stores.contains_key(feed_id@));
                    assert(self.stores.spec_get(feed_id@).wf());
                }
                let parent_key = parent_stop_id.to_owned();
                match store.children_by_parent.get(&parent_key) {
                    Some(children) => {
                        if children.len() > 0 {
                            copy_strings(children)
                        } else {
                            let mut r: Vec<String> = Vec::new();
                            r.push(parent_stop_id.to_owned());
                            r
                        }
                    },
                    None => {
                        let mut r: Vec<String> = Vec::new();
                        r.push(parent_stop_id.to_owned());
                        r
                    },
                }
            },
            None => {
                let mut r: Vec<String> = Vec::new();
                r.push(parent_stop_id.to_owned());
                r
            },
        }
    }

    /// Live-vehicle correlation: normalizes the record's service type and
    /// returns the first route of the feed whose mode equals it, in the
    /// feed's route listing order (the documented tie-break when several
    /// routes share the mode). No match is an explicit absent result, not
    /// an error.
    pub fn resolve_vehicle_route(&self, live: &VehicleData, feed_id: &str) -> (r: Option<
        NandiRoutesRes,
    >)
        requires
            self.wf(),
        ensures
            match r {
                Some(v) => self.stores.contains_key(feed_id@) && exists|i: int|
                    {
                        &&& 0 <= i < self.stores.spec_get(feed_id@).routes.pairs@.len()
                        &&& (#[trigger] self.stores.spec_get(feed_id@).routes.pairs@[i]).1 == v
                        &&& self.stores.spec_get(feed_id@).routes.pairs@[i].1.mode@
                            == cast_vehicle_type_spec(live.service_type@)
                        &&& forall|j: int|
                            0 <= j < i ==> (#[trigger] self.stores.spec_get(
                                feed_id@,
                            ).routes.pairs@[j]).1.mode@ != cast_vehicle_type_spec(
                                live.service_type@,
                            )
                    },
                None => !self.stores.contains_key(feed_id@) || forall|j: int|
                    0 <= j < self.stores.spec_get(feed_id@).routes.pairs@.len() ==> (
                    #[trigger] self.stores.spec_get(feed_id@).routes.pairs@[j]).1.mode@
                        != cast_vehicle_type_spec(live.service_type@),
            },
    {
        let normalized = cast_vehicle_type(live.service_type.as_str());
        let feed_key = feed_id.to_owned();
        match self.stores.get(&feed_key) {
            Some(store) => {
                proof {
                    assert(self.stores.contains_key(feed_id@));
                }
                let mut i: usize = 0;
                while i < store.routes.pairs.len()
                    invariant
                        i <= store.routes.pairs@.len(),
                        self.wf(),
                        self.stores.contains_key(feed_id@),
                        store == self.stores.spec_get(feed_id@),
                        normalized@ == cast_vehicle_type_spec(live.service_type@),
                        forall|j: int|
                            0 <= j < i ==> (#[trigger] store.routes.pairs@[j]).1.mode@
                                != normalized@,
                    decreases store.routes.pairs@.len() - i,
                {
                    if store.routes.pairs[i].1.mode == normalized {
                        let v = store.routes.pairs[i].1.clone();
                        proof {
                            let gi = i as int;
                            assert((#[trigger] self.stores.spec_get(
                                feed_id@,
                            ).routes.pairs@[gi]).1 == v);
                            assert(self.stores.spec_get(feed_id@).routes.pairs@[gi].1.mode@
                                == cast_vehicle_type_spec(live.service_type@));
                            assert forall|j: int| 0 <= j < gi implies (
                            #[trigger] self.stores.spec_get(
                                feed_id@,
                            ).routes.pairs@[j]).1.mode@ != cast_vehicle_type_spec(
                                live.service_type@,
                            ) by {
                                assert(store.routes.pairs@[j].1.mode@ != normalized@);
                            }
                            assert(exists|i2: int|
                                {
                                    &&& 0 <= i2 < self.stores.spec_get(
                                        feed_id@,
                                    ).routes.pairs@.len()
                                    &&& (#[trigger] self.stores.spec_get(
                                        feed_id@,
                                    ).routes.pairs@[i2]).1 == v
                                    &&& self.stores.spec_get(feed_id@).routes.pairs@[i2].1.mode@
                                        == cast_vehicle_type_spec(live.service_type@)
                                    &&& forall|j: int|
                                        0 <= j < i2 ==> (#[trigger] self.stores.spec_get(
                                            feed_id@,
                                        ).routes.pairs@[j]).1.mode@ != cast_vehicle_type_spec(
                                            live.service_type@,
                                        )
                                }) by {
                                assert(0 <= gi < self.stores.spec_get(
                                    feed_id@,
                                ).routes.pairs@.len());
                            }
                        }
                        return Some(v);
                    }
                    i = i + 1;
                }
                None
            },
            None => None,
        }
    }
}

} // verus!
