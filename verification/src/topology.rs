//! Per-feed topology store: route metadata, the route index, the stop
//! hierarchy and the content hash of the raw feed content, for one feed.

use vstd::prelude::*;
use crate::hashing::{content_hash, content_hash_spec};
use crate::hierarchy::{build_stop_hierarchy, hier_reaches, hier_wf, is_child, is_child_of, parent_of_spec};
use crate::models::{NandiRoutesRes, RouteStopMapping};
use crate::route_index::GTFSRouteData;
use crate::strmap::StrMap;

verus! {

/// The route-metadata map holds exactly the summaries of the input list,
/// keyed by route id, the first summary of an id winning.
pub open spec fn routes_map_ok(rm: StrMap<NandiRoutesRes>, rs: Seq<NandiRoutesRes>) -> bool {
    &&& rm.wf()
    &&& forall|a: int| 0 <= a < rs.len() ==> rm.contains_key((#[trigger] rs[a]).id@)
    &&& forall|k: Seq<char>|
        #[trigger] rm.contains_key(k) ==> exists|a: int|
            0 <= a < rs.len() && (#[trigger] rs[a]).id@ == k && rm.spec_get(k) == rs[a]
    &&& forall|a: int|
        0 <= a < rs.len() && (forall|b: int| 0 <= b < a ==> (#[trigger] rs[b]).id@ != rs[a].id@)
            ==> rm.spec_get((#[trigger] rs[a]).id@) == rs[a]
}

/// The stop hierarchy a well-formed build derives from an edge list:
/// every recorded link comes from an input edge; every non-self-loop edge
/// either got its child recorded (under some parent) or was dropped
/// because its parent already descended from its child; and a surviving
/// parent different from an edge's own parent traces to an earlier edge,
/// a self-loop, or a dropped cycle.
pub open spec fn hierarchy_ok(ch: StrMap<Vec<String>>, edges: Seq<(String, String)>) -> bool {
    &&& hier_wf(ch)
    &&& forall|p: Seq<char>, c: Seq<char>|
        #[trigger] is_child_of(ch, p, c) ==> exists|e: int|
            0 <= e < edges.len() && (#[trigger] edges[e]).0@ == p && edges[e].1@ == c
    &&& forall|e: int|
        0 <= e < edges.len() && (#[trigger] edges[e]).1@ != edges[e].0@ ==> is_child(
            ch,
            edges[e].1@,
        ) || hier_reaches(ch, edges[e].0@, edges[e].1@, (edges.len() + 1) as nat)
    &&& forall|e: int|
        0 <= e < edges.len() && is_child(ch, (#[trigger] edges[e]).1@) && parent_of_spec(
            ch,
            edges[e].1@,
        ) != edges[e].0@ ==> edges[e].0@ == edges[e].1@ || hier_reaches(
            ch,
            edges[e].0@,
            edges[e].1@,
            (edges.len() + 1) as nat,
        ) || exists|e2: int|
            0 <= e2 < e && (#[trigger] edges[e2]).1@ == edges[e].1@ && edges[e2].0@
                == parent_of_spec(ch, edges[e].1@)
}

/// One feed's full derived state.
pub struct TopologyStore {
    pub feed_id: String,
    pub routes: StrMap<NandiRoutesRes>,
    pub route_data: GTFSRouteData,
    pub children_by_parent: StrMap<Vec<String>>,
    pub data_hash: String,
}

impl TopologyStore {
    pub open spec fn wf(self) -> bool {
        &&& self.routes.wf()
        &&& self.route_data.wf()
        &&& hier_wf(self.children_by_parent)
    }

    /// Builds one feed's topology: hashes the raw content, indexes the
    /// stop-on-route records, keys the route summaries by id (first
    /// summary of an id wins) and groups the stop hierarchy, dropping,
    /// never failing on, malformed hierarchy edges.
    pub fn build(
        feed_id: String,
        route_summaries: &Vec<NandiRoutesRes>,
        stop_on_route: Vec<RouteStopMapping>,
        hierarchy_edges: &Vec<(String, String)>,
        raw_content: &Vec<u8>,
    ) -> (r: TopologyStore)
        requires
            hierarchy_edges@.len() < usize::MAX,
        ensures
            r.wf(),
            r.feed_id@ == feed_id@,
            r.data_hash@ == content_hash_spec(raw_content@),
            r.route_data.mappings@ == stop_on_route@,
            routes_map_ok(r.routes, route_summaries@),
            hierarchy_ok(r.children_by_parent, hierarchy_edges@),
    {
        let data_hash = content_hash(raw_content);
        let route_data = GTFSRouteData::build(stop_on_route);
        let routes = build_routes_map(route_summaries);
        let children_by_parent = build_stop_hierarchy(hierarchy_edges);
        TopologyStore { feed_id, routes, route_data, children_by_parent, data_hash }
    }

    /// Change detection against this store: true iff the candidate hash
    /// differs from the stored content hash.
    pub fn changed(&self, candidate_hash: &String) -> (r: bool)
        ensures
            r == (candidate_hash@ != self.data_hash@),
    {
        !(self.data_hash == *candidate_hash)
    }
}

/// Keys route summaries by route id; the first summary of an id wins.
fn build_routes_map(route_summaries: &Vec<NandiRoutesRes>) -> (r: StrMap<NandiRoutesRes>)
    ensures
        routes_map_ok(r, route_summaries@),
{
    let ghost rs = route_summaries@;
    let mut rm: StrMap<NandiRoutesRes> = StrMap::new();
    let mut i: usize = 0;
    while i < route_summaries.len()
        invariant
            i <= rs.len(),
            route_summaries@ == rs,
            rm.wf(),
            forall|a: int| 0 <= a < i ==> rm.contains_key((#[trigger] rs[a]).id@),
            forall|k: Seq<char>|
                #[trigger] rm.contains_key(k) ==> exists|a: int|
                    0 <= a < i && (#[trigger] rs[a]).id@ == k && rm.spec_get(k) == rs[a],
            forall|a: int|
                0 <= a < i && (forall|b: int| 0 <= b < a ==> (#[trigger] rs[b]).id@ != rs[a].id@)
                    ==> rm.spec_get((#[trigger] rs[a]).id@) == rs[a],
        decreases rs.len() - i,
    {
        let ghost rm0 = rm;
        let s = route_summaries[i].clone();
        let key = s.id.clone();
        rm.insert_if_absent(key, s);
        proof {
            if rm0.contains_key(rs[i as int].id@) {
                assert(rm == rm0);
            }
        }
        i = i + 1;
    }
    rm
}

} // verus!
