//! Global snapshot: the whole queryable world at one instant. A snapshot
//! is assembled fully before it is published, published by replacing the
//! previous aggregate as one unit, and never mutated afterwards: a reader
//! holding a snapshot value sees one point-in-time view across all its
//! queries.

use vstd::prelude::*;
use crate::hierarchy::{copy_strings, hier_wf, is_child_of};
use crate::models::StopGeojson;
use crate::route_index::GTFSRouteData;
use crate::strmap::StrMap;
use crate::topology::TopologyStore;
use crate::models::RouteStopMapping;
use crate::models::NandiRoutesRes;

verus! {

/// The top-level aggregate: per-feed topology stores, the cross-feed
/// stop-geometry table, and a generation counter for staleness
/// observability.
pub struct GTFSData {
    pub stores: StrMap<TopologyStore>,
    pub stop_geojsons: StrMap<StopGeojson>,
    pub generation: u64,
}

/// The per-feed store a snapshot holds for a feed, if any.
pub open spec fn spec_store(snap: GTFSData, feed: Seq<char>) -> Option<TopologyStore> {
    if snap.stores.contains_key(feed) {
        Some(snap.stores.spec_get(feed))
    } else {
        None
    }
}

/// The geometry entry a snapshot holds for a normalized stop code, if
/// any.
pub open spec fn spec_geometry(snap: GTFSData, code: Seq<char>) -> Option<StopGeojson> {
    if snap.stop_geojsons.contains_key(code) {
        Some(snap.stop_geojsons.spec_get(code))
    } else {
        None
    }
}

impl GTFSData {
    pub open spec fn wf(self) -> bool {
        &&& self.stores.wf()
        &&& forall|k: Seq<char>|
            #[trigger] self.stores.contains_key(k) ==> self.stores.spec_get(k).wf()
        &&& self.stop_geojsons.wf()
    }

    /// The empty snapshot: no feeds, no geometry, generation zero.
    pub fn new() -> (r: Self)
        ensures
            r.wf(),
            r.generation == 0,
            forall|feed: Seq<char>| spec_store(r, feed) is None,
            forall|code: Seq<char>| spec_geometry(r, code) is None,
    {
        GTFSData { stores: StrMap::new(), stop_geojsons: StrMap::new(), generation: 0 }
    }

    /// Publication: replaces the whole aggregate with the newly built
    /// one, as one unit, and advances the generation. No field of the
    /// previous aggregate survives into the published state, so a reader
    /// can never observe a mix of old and new per-feed data.
    pub fn update_data(&mut self, temp_data: GTFSData)
        requires
            old(self).generation < u64::MAX,
        ensures
            final(self).stores == temp_data.stores,
            final(self).stop_geojsons == temp_data.stop_geojsons,
            final(self).generation == old(self).generation + 1,
            temp_data.wf() ==> final(self).wf(),
    {
        let g = self.generation;
        self.stores = temp_data.stores;
        self.stop_geojsons = temp_data.stop_geojsons;
        self.generation = g + 1;
    }

    /// Change detection for one feed: true iff no store is held for the
    /// feed, or the candidate hash differs from its stored content hash.
    pub fn changed(&self, feed_id: &str, candidate_hash: &String) -> (r: bool)
        requires
            self.wf(),
        ensures
            r == !(self.stores.contains_key(feed_id@) && self.stores.spec_get(
                feed_id@,
            ).data_hash@ == candidate_hash@),
    {
        let key = feed_id.to_owned();
        match self.stores.get(&key) {
            Some(store) => store.changed(candidate_hash),
            None => true,
        }
    }
}

/// Publish atomicity: a snapshot published from a built aggregate answers
/// every per-feed and every geometry lookup exactly as the built
/// aggregate does; nothing of the superseded snapshot can be observed
/// through it.
pub proof fn lemma_publish_atomic(post: GTFSData, built: GTFSData)
    requires
        post.stores == built.stores,
        post.stop_geojsons == built.stop_geojsons,
    ensures
        forall|feed: Seq<char>| spec_store(post, feed) == spec_store(built, feed),
        forall|code: Seq<char>| spec_geometry(post, code) == spec_geometry(built, code),
{
}

fn copy_mappings(v: &Vec<RouteStopMapping>) -> (r: Vec<RouteStopMapping>)
    ensures
        r@ == v@,
{
    let mut r: Vec<RouteStopMapping> = Vec::new();
    let mut i: usize = 0;
    while i < v.len()
        invariant
            i <= v@.len(),
            r@ == v@.take(i as int),
        decreases v@.len() - i,
    {
        r.push(v[i].clone());
        proof {
            assert(v@.take(i as int + 1) =~= v@.take(i as int).push(v@[i as int]));
        }
        i = i + 1;
    }
    proof {
        assert(v@.take(v@.len() as int) =~= v@);
    }
    r
}

fn copy_routes_map(m: &StrMap<NandiRoutesRes>) -> (r: StrMap<NandiRoutesRes>)
    ensures
        r.pairs@ == m.pairs@,
{
    let mut pairs: Vec<(String, NandiRoutesRes)> = Vec::new();
    let mut i: usize = 0;
    while i < m.pairs.len()
        invariant
            i <= m.pairs@.len(),
            pairs@ == m.pairs@.take(i as int),
        decreases m.pairs@.len() - i,
    {
        pairs.push((m.pairs[i].0.clone(), m.pairs[i].1.clone()));
        proof {
            assert(m.pairs@.take(i as int + 1) =~= m.pairs@.take(i as int).push(
                m.pairs@[i as int],
            ));
        }
        i = i + 1;
    }
    proof {
        assert(m.pairs@.take(m.pairs@.len() as int) =~= m.pairs@);
    }
    StrMap { pairs }
}

/// Pointwise sameness of two child maps: equal keys and equal child
/// lists, entry by entry.
pub open spec fn childmap_same(x: StrMap<Vec<String>>, y: StrMap<Vec<String>>) -> bool {
    &&& x.pairs@.len() == y.pairs@.len()
    &&& forall|i: int|
        0 <= i < x.pairs@.len() ==> (#[trigger] y.pairs@[i]).0@ == (#[trigger] x.pairs@[i]).0@
            && y.pairs@[i].1@ == x.pairs@[i].1@
}

fn copy_children(m: &StrMap<Vec<String>>) -> (r: StrMap<Vec<String>>)
    ensures
        childmap_same(*m, r),
{
    let mut pairs: Vec<(String, Vec<String>)> = Vec::new();
    let mut i: usize = 0;
    while i < m.pairs.len()
        invariant
            i <= m.pairs@.len(),
            pairs@.len() == i,
            forall|a: int|
                0 <= a < i ==> (#[trigger] pairs@[a]).0@ == (#[trigger] m.pairs@[a]).0@
                    && pairs@[a].1@ == m.pairs@[a].1@,
        decreases m.pairs@.len() - i,
    {
        pairs.push((m.pairs[i].0.clone(), copy_strings(&m.pairs[i].1)));
        i = i + 1;
    }
    StrMap { pairs }
}

/// Two pointwise-same child maps record the same parent/child links and
/// are well-formed together.
proof fn lemma_childmap_same(x: StrMap<Vec<String>>, y: StrMap<Vec<String>>)
    requires
        childmap_same(x, y),
        hier_wf(x),
    ensures
        hier_wf(y),
        forall|k: Seq<char>| #[trigger] y.contains_key(k) <==> x.contains_key(k),
        forall|k: Seq<char>| #[trigger] x.contains_key(k) ==> y.spec_get(k)@ == x.spec_get(k)@,
        forall|p: Seq<char>, c: Seq<char>|
            #[trigger] is_child_of(y, p, c) <==> #[trigger] is_child_of(x, p, c),
{
    assert forall|k: Seq<char>| #[trigger] y.contains_key(k) <==> x.contains_key(k) by {
        if y.contains_key(k) {
            let i = choose|i: int| 0 <= i < y.pairs.len() && y.pairs[i].0@ == k;
            assert(x.pairs[i].0@ == k);
        }
        if x.contains_key(k) {
            let i = choose|i: int| 0 <= i < x.pairs.len() && x.pairs[i].0@ == k;
            assert(y.pairs[i].0@ == k);
        }
    }
    assert(y.wf()) by {
        assert forall|i: int, j: int|
            0 <= i < j < y.pairs.len() implies y.pairs[i].0@ != y.pairs[j].0@ by {
            assert(x.pairs[i].0@ != x.pairs[j].0@);
        }
    }
    assert forall|k: Seq<char>| #[trigger] x.contains_key(k) implies y.spec_get(k)@ == x.spec_get(
        k,
    )@ by {
        let i = choose|i: int| 0 <= i < x.pairs.len() && x.pairs[i].0@ == k;
        assert(y.pairs@[i].0@ == x.pairs@[i].0@);
        assert(y.contains_key(k));
        let j = choose|j: int| 0 <= j < y.pairs.len() && y.pairs[j].0@ == k;
        assert(y.pairs@[j].0@ == x.pairs@[j].0@);
        assert(x.pairs[j].0@ == k);
        assert(i == j);
        assert(y.pairs@[j].1@ == x.pairs@[j].1@);
        assert(y.spec_get(k) == y.pairs@[j].1);
        assert(x.spec_get(k) == x.pairs@[i].1);
    }
    assert forall|p: Seq<char>, c: Seq<char>|
        #[trigger] is_child_of(y, p, c) <==> #[trigger] is_child_of(x, p, c) by {
        if is_child_of(y, p, c) {
            let a = choose|a: int|
                0 <= a < y.spec_get(p)@.len() && (#[trigger] y.spec_get(p)@[a])@ == c;
            assert((x.spec_get(p)@[a])@ == c);
        }
        if is_child_of(x, p, c) {
            let a = choose|a: int|
                0 <= a < x.spec_get(p)@.len() && (#[trigger] x.spec_get(p)@[a])@ == c;
            assert((y.spec_get(p)@[a])@ == c);
        }
    }
    assert forall|p1: Seq<char>, p2: Seq<char>, c: Seq<char>|
        #[trigger] is_child_of(y, p1, c) && #[trigger] is_child_of(y, p2, c) implies p1 == p2 by {
        assert(is_child_of(x, p1, c));
        assert(is_child_of(x, p2, c));
    }
    assert forall|p: Seq<char>, a: int, b: int|
        #[trigger] y.contains_key(p) && 0 <= a < b < y.spec_get(p)@.len() implies (
    #[trigger] y.spec_get(p)@[a])@ != (#[trigger] y.spec_get(p)@[b])@ by {
        assert(x.contains_key(p));
        assert(y.spec_get(p)@ == x.spec_get(p)@);
        assert((x.spec_get(p)@[a])@ != (x.spec_get(p)@[b])@);
    }
}

/// A copy of one feed's store, answering every lookup as the original
/// does; the route index is rebuilt from the copied record list.
fn copy_store(s: &TopologyStore) -> (r: TopologyStore)
    requires
        s.wf(),
    ensures
        r.wf(),
        r.feed_id@ == s.feed_id@,
        r.data_hash@ == s.data_hash@,
        r.routes.pairs@ == s.routes.pairs@,
        r.route_data.mappings@ == s.route_data.mappings@,
        childmap_same(s.children_by_parent, r.children_by_parent),
        forall|p: Seq<char>, c: Seq<char>|
            #[trigger] is_child_of(r.children_by_parent, p, c) <==> #[trigger] is_child_of(
                s.children_by_parent,
                p,
                c,
            ),
        forall|k: Seq<char>|
            #[trigger] r.children_by_parent.contains_key(k) <==> s.children_by_parent.contains_key(
                k,
            ),
        forall|k: Seq<char>|
            #[trigger] s.children_by_parent.contains_key(k)
                ==> r.children_by_parent.spec_get(k)@ == s.children_by_parent.spec_get(k)@,
{
    let feed_id = s.feed_id.clone();
    let data_hash = s.data_hash.clone();
    let routes = copy_routes_map(&s.routes);
    let mappings = copy_mappings(&s.route_data.mappings);
    let route_data = GTFSRouteData::build(mappings);
    let children_by_parent = copy_children(&s.children_by_parent);
    proof {
        lemma_childmap_same(s.children_by_parent, children_by_parent);
    }
    TopologyStore { feed_id, routes, route_data, children_by_parent, data_hash }
}

/// Partial-feed failure policy: when a feed's rebuild failed, its entry
/// from the previous snapshot is carried forward unchanged into the new
/// stores map instead of being dropped or blocking publication. A feed
/// already rebuilt, or absent from the previous snapshot too, leaves the
/// map as it is.
pub fn carry_forward(new_stores: &mut StrMap<TopologyStore>, previous: &GTFSData, feed_id: &str)
    requires
        old(new_stores).wf(),
        previous.wf(),
    ensures
        final(new_stores).wf(),
        old(new_stores).contains_key(feed_id@) ==> *final(new_stores) == *old(new_stores),
        !old(new_stores).contains_key(feed_id@) && !previous.stores.contains_key(feed_id@)
            ==> *final(new_stores) == *old(new_stores),
        !old(new_stores).contains_key(feed_id@) && previous.stores.contains_key(feed_id@) ==> {
            &&& final(new_stores).contains_key(feed_id@)
            &&& final(new_stores).spec_get(feed_id@).wf()
            &&& final(new_stores).spec_get(feed_id@).data_hash@ == previous.stores.spec_get(
                feed_id@,
            ).data_hash@
            &&& final(new_stores).spec_get(feed_id@).routes.pairs@ == previous.stores.spec_get(
                feed_id@,
            ).routes.pairs@
            &&& final(new_stores).spec_get(feed_id@).route_data.mappings@
                == previous.stores.spec_get(feed_id@).route_data.mappings@
            &&& childmap_same(
                previous.stores.spec_get(feed_id@).children_by_parent,
                final(new_stores).spec_get(feed_id@).children_by_parent,
            )
        },
        forall|k: Seq<char>|
            k != feed_id@ ==> (final(new_stores).contains_key(k) <==> old(
                new_stores,
            ).contains_key(k)),
        forall|k: Seq<char>|
            k != feed_id@ && old(new_stores).contains_key(k) ==> final(new_stores).spec_get(k)
                == old(new_stores).spec_get(k),
        old(new_stores).contains_key(feed_id@) ==> final(new_stores).spec_get(feed_id@) == old(
            new_stores,
        ).spec_get(feed_id@),
{
    let key = feed_id.to_owned();
    if new_stores.contains(&key) {
        return ;
    }
    let prev = match previous.stores.get(&key) {
        Some(p) => p,
        None => {
            return ;
        },
    };
    let copied = copy_store(prev);
    new_stores.insert_if_absent(key, copied);
}

} // verus!
