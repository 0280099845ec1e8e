//! Per-feed route index: two inverted indices over one shared list of
//! stop-on-route records. Records are stored once; both indices hold
//! integer positions into the record list (arena-and-index pattern), so
//! memory stays proportional to the number of records.

use vstd::prelude::*;
use crate::models::RouteStopMapping;
use crate::strmap::{contains_string, StrMap};

verus! {

/// The key a record contributes to one of the two indices: its route code
/// for the route index, its stop code for the stop index.
pub open spec fn rec_key(m: RouteStopMapping, by_route: bool) -> Seq<char> {
    if by_route {
        m.route_code@
    } else {
        m.stop_code@
    }
}

/// A position list is sound for key `k`: every position is a valid index
/// below `t` whose record carries key `k`, and positions are strictly
/// increasing (arrival order, each at most once).
pub open spec fn positions_ok(
    ms: Seq<RouteStopMapping>,
    ps: Seq<usize>,
    k: Seq<char>,
    by_route: bool,
    t: int,
) -> bool {
    &&& forall|a: int|
        0 <= a < ps.len() ==> (#[trigger] ps[a]) < t && rec_key(ms[ps[a] as int], by_route) == k
    &&& forall|a: int, b: int| 0 <= a < b < ps.len() ==> ps[a] < ps[b]
}

/// The index covers exactly the first `t` records: sound position lists,
/// and every record below `t` is filed under its key.
pub open spec fn index_ok_upto(
    ms: Seq<RouteStopMapping>,
    idx: StrMap<Vec<usize>>,
    by_route: bool,
    t: int,
) -> bool {
    &&& idx.wf()
    &&& forall|k: Seq<char>|
        #[trigger] idx.contains_key(k) ==> positions_ok(ms, idx.spec_get(k)@, k, by_route, t)
    &&& forall|j: int|
        0 <= j < t ==> idx.contains_key(rec_key(#[trigger] ms[j], by_route))
            && idx.spec_get(rec_key(ms[j], by_route))@.contains(j as usize)
}

pub open spec fn index_ok(
    ms: Seq<RouteStopMapping>,
    idx: StrMap<Vec<usize>>,
    by_route: bool,
) -> bool {
    index_ok_upto(ms, idx, by_route, ms.len() as int)
}

/// The records a position list resolves to, in position order.
pub open spec fn records_at(ms: Seq<RouteStopMapping>, ps: Seq<usize>) -> Seq<RouteStopMapping> {
    ps.map_values(|p: usize| ms[p as int])
}

fn copy_positions(v: &Vec<usize>) -> (r: Vec<usize>)
    ensures
        r@ == v@,
{
    let mut r: Vec<usize> = Vec::new();
    let mut i: usize = 0;
    while i < v.len()
        invariant
            i <= v.len(),
            r@ == v@.take(i as int),
        decreases v.len() - i,
    {
        r.push(v[i]);
        proof {
            assert(v@.take(i as int + 1) =~= v@.take(i as int).push(v@[i as int]));
        }
        i = i + 1;
    }
    proof {
        assert(v@.take(v@.len() as int) =~= v@);
    }
    r
}

impl StrMap<Vec<usize>> {
    /// Appends `pos` to the position list of `k`, starting a fresh list if
    /// the key is new.
    pub fn push_under(&mut self, k: &String, pos: usize)
        requires
            old(self).wf(),
        ensures
            final(self).wf(),
            final(self).contains_key(k@),
            old(self).contains_key(k@) ==> final(self).spec_get(k@)@ == old(self).spec_get(
                k@,
            )@.push(pos),
            !old(self).contains_key(k@) ==> final(self).spec_get(k@)@ == seq![pos],
            forall|k2: Seq<char>|
                k2 != k@ ==> (final(self).contains_key(k2) <==> old(self).contains_key(k2)),
            forall|k2: Seq<char>|
                k2 != k@ && old(self).contains_key(k2) ==> final(self).spec_get(k2) == old(
                    self,
                ).spec_get(k2),
    {
        match self.find(k) {
            Some(i) => {
                proof {
                    let w = choose|j: int|
                        0 <= j < self.pairs.len() && self.pairs[j].0@ == k@;
                    assert(self.pairs[i as int].0@ == k@);
                    assert(w == i as int);
                }
                let mut nv = copy_positions(&self.pairs[i].1);
                nv.push(pos);
                self.replace_at(i, nv);
            },
            None => {
                let mut nv: Vec<usize> = Vec::new();
                nv.push(pos);
                self.insert_if_absent(k.clone(), nv);
            },
        }
    }
}

/// Per-feed inverted indices over one backing list of stop-on-route
/// records.
pub struct GTFSRouteData {
    pub mappings: Vec<RouteStopMapping>,
    pub by_route: StrMap<Vec<usize>>,
    pub by_stop: StrMap<Vec<usize>>,
}

impl GTFSRouteData {
    /// Both indices are sound and complete for the backing record list.
    pub open spec fn wf(self) -> bool {
        &&& index_ok(self.mappings@, self.by_route, true)
        &&& index_ok(self.mappings@, self.by_stop, false)
    }

    /// The position list of a route, empty for an unknown route.
    pub open spec fn spec_route_positions(self, route: Seq<char>) -> Seq<usize> {
        if self.by_route.contains_key(route) {
            self.by_route.spec_get(route)@
        } else {
            Seq::<usize>::empty()
        }
    }

    /// The records of a route in arrival order, empty for an unknown route.
    pub open spec fn spec_route_records(self, route: Seq<char>) -> Seq<RouteStopMapping> {
        records_at(self.mappings@, self.spec_route_positions(route))
    }

    /// A stop is served by route `r` when some record references both.
    pub open spec fn spec_stop_served_by(self, stop: Seq<char>, r: Seq<char>) -> bool {
        exists|j: int|
            0 <= j < self.mappings@.len() && (#[trigger] self.mappings@[j]).stop_code@ == stop
                && self.mappings@[j].route_code@ == r
    }

    pub fn new() -> (r: Self)
        ensures
            r.wf(),
            r.mappings@ == Seq::<RouteStopMapping>::empty(),
    {
        GTFSRouteData { mappings: Vec::new(), by_route: StrMap::new(), by_stop: StrMap::new() }
    }

    /// Single-pass construction: each record is assigned its position in
    /// the backing list and that position is appended to the lists of its
    /// route code and its stop code. Arrival order is not assumed to match
    /// sequence order.
    pub fn build(mappings: Vec<RouteStopMapping>) -> (r: GTFSRouteData)
        ensures
            r.wf(),
            r.mappings@ == mappings@,
    {
        let ghost ms = mappings@;
        let mut by_route: StrMap<Vec<usize>> = StrMap::new();
        let mut by_stop: StrMap<Vec<usize>> = StrMap::new();
        let mut i: usize = 0;
        while i < mappings.len()
            invariant
                i <= mappings.len(),
                mappings@ == ms,
                index_ok_upto(ms, by_route, true, i as int),
                index_ok_upto(ms, by_stop, false, i as int),
            decreases mappings.len() - i,
        {
            let ghost br0 = by_route;
            let rkey = mappings[i].route_code.clone();
            by_route.push_under(&rkey, i);
            proof {
                lemma_push_under_step(ms, br0, by_route, true, i);
            }
            let ghost bs0 = by_stop;
            let skey = mappings[i].stop_code.clone();
            by_stop.push_under(&skey, i);
            proof {
                lemma_push_under_step(ms, bs0, by_stop, false, i);
            }
            i = i + 1;
        }
        GTFSRouteData { mappings, by_route, by_stop }
    }

    /// Resolves the route's positions, sorts the records by sequence
    /// number ascending (ties keep arrival order: the earliest minimum is
    /// taken first), and returns them. Unknown routes give an empty
    /// sequence, not an error.
    pub fn stops_for_route(&self, route_code: &str) -> (r: Vec<RouteStopMapping>)
        requires
            self.wf(),
        ensures
            r@.len() == self.spec_route_positions(route_code@).len(),
            r@.to_multiset() == self.spec_route_records(route_code@).to_multiset(),
            forall|a: int, b: int|
                0 <= a < b < r@.len() ==> #[trigger] r@[a].sequence_num <= #[trigger] r@[b].sequence_num,
            seq_nums_distinct(self.spec_route_records(route_code@)) ==> forall|a: int, b: int|
                0 <= a < b < r@.len() ==> #[trigger] r@[a].sequence_num < #[trigger] r@[b].sequence_num,
    {
        let key = route_code.to_owned();
        let recs: Vec<RouteStopMapping> = match self.by_route.get(&key) {
            Some(ps) => {
                let mut recs: Vec<RouteStopMapping> = Vec::new();
                let mut a: usize = 0;
                while a < ps.len()
                    invariant
                        a <= ps@.len(),
                        self.wf(),
                        self.by_route.contains_key(key@),
                        ps == self.by_route.spec_get(key@),
                        recs@ == records_at(self.mappings@, ps@.take(a as int)),
                    decreases ps@.len() - a,
                {
                    let p = ps[a];
                    assert(ps@[a as int] < self.mappings@.len());
                    recs.push(self.mappings[p].clone());
                    proof {
                        assert(records_at(self.mappings@, ps@.take(a as int + 1)) =~= records_at(
                            self.mappings@,
                            ps@.take(a as int),
                        ).push(self.mappings@[ps@[a as int] as int]));
                    }
                    a = a + 1;
                }
                proof {
                    assert(ps@.take(ps@.len() as int) =~= ps@);
                    assert(records_at(self.mappings@, ps@.take(ps@.len() as int)) =~= records_at(
                        self.mappings@,
                        ps@,
                    ));
                }
                recs
            },
            None => Vec::new(),
        };
        let ghost route_recs = self.spec_route_records(route_code@);
        assert(recs@ == route_recs);
        let r = sort_by_sequence_num(recs);
        proof {
            if seq_nums_distinct(route_recs) {
                lemma_sorted_distinct_strict(r@, route_recs);
            }
            route_recs.to_multiset_ensures();
            r@.to_multiset_ensures();
        }
        r
    }

    /// The distinct route codes that serve the stop, in first-appearance
    /// order. Unknown stops give an empty set, not an error.
    pub fn routes_for_stop(&self, stop_code: &str) -> (r: Vec<String>)
        requires
            self.wf(),
        ensures
            forall|a: int|
                0 <= a < r@.len() ==> self.spec_stop_served_by(stop_code@, #[trigger] r@[a]@),
            forall|j: int|
                0 <= j < self.mappings@.len() && (#[trigger] self.mappings@[j]).stop_code@
                    == stop_code@ ==> exists|a: int|
                    0 <= a < r@.len() && r@[a]@ == self.mappings@[j].route_code@,
            forall|a: int, b: int| 0 <= a < b < r@.len() ==> r@[a]@ != r@[b]@,
    {
        let key = stop_code.to_owned();
        let mut out: Vec<String> = Vec::new();
        match self.by_stop.get(&key) {
            Some(ps) => {
                let mut a: usize = 0;
                while a < ps.len()
                    invariant
                        a <= ps@.len(),
                        self.wf(),
                        self.by_stop.contains_key(key@),
                        ps == self.by_stop.spec_get(key@),
                        key@ == stop_code@,
                        forall|x: int|
                            0 <= x < out@.len() ==> self.spec_stop_served_by(
                                stop_code@,
                                #[trigger] out@[x]@,
                            ),
                        forall|b: int|
                            0 <= b < a ==> exists|x: int|
                                0 <= x < out@.len() && out@[x]@ == self.mappings@[#[trigger] ps@[b] as int].route_code@,
                        forall|x: int, y: int| 0 <= x < y < out@.len() ==> out@[x]@ != out@[y]@,
                    decreases ps@.len() - a,
                {
                    let p = ps[a];
                    assert(ps@[a as int] < self.mappings@.len());
                    let cand = &self.mappings[p].route_code;
                    let ghost out0 = out@;
                    let present = contains_string(&out, cand);
                    if !present {
                        proof {
                            assert(rec_key(self.mappings@[p as int], false) == key@);
                            assert(self.mappings@[p as int].stop_code@ == stop_code@);
                        }
                        out.push(cand.clone());
                    }
                    proof {
                        assert forall|b: int| 0 <= b <= a as int implies exists|x: int|
                            0 <= x < out@.len() && out@[x]@ == self.mappings@[#[trigger] ps@[b] as int].route_code@ by {
                            if b == a as int {
                                if present {
                                    let x = choose|x: int|
                                        0 <= x < out0.len() && out0[x]@ == cand@;
                                    assert(out@[x]@ == cand@);
                                } else {
                                    assert(out@[out@.len() - 1]@ == cand@);
                                }
                            } else {
                                let x = choose|x: int|
                                    0 <= x < out0.len() && out0[x]@ == self.mappings@[ps@[b] as int].route_code@;
                                assert(out@[x]@ == self.mappings@[ps@[b] as int].route_code@);
                            }
                        }
                    }
                    a = a + 1;
                }
                proof {
                    assert forall|j: int|
                        0 <= j < self.mappings@.len() && (#[trigger] self.mappings@[j]).stop_code@
                            == stop_code@ implies exists|x: int|
                        0 <= x < out@.len() && out@[x]@ == self.mappings@[j].route_code@ by {
                        let ps = self.by_stop.spec_get(key@)@;
                        assert(ps.contains(j as usize));
                        let b = choose|b: int| 0 <= b < ps.len() && ps[b] == j as usize;
                        assert(self.mappings@[ps[b] as int].route_code@
                            == self.mappings@[j].route_code@);
                    }
                }
            },
            None => {
                proof {
                    assert forall|j: int|
                        0 <= j < self.mappings@.len() && (#[trigger] self.mappings@[j]).stop_code@
                            == stop_code@ implies exists|x: int|
                        0 <= x < out@.len() && out@[x]@ == self.mappings@[j].route_code@ by {
                        assert(self.by_stop.contains_key(rec_key(self.mappings@[j], false)));
                        assert(false);
                    }
                }
            },
        }
        out
    }
}

/// All sequence numbers in `s` are pairwise distinct.
pub open spec fn seq_nums_distinct(s: Seq<RouteStopMapping>) -> bool {
    forall|i: int, j: int|
        0 <= i < j < s.len() ==> (#[trigger] s[i]).sequence_num != (#[trigger] s[j]).sequence_num
}

proof fn lemma_push_under_step(
    ms: Seq<RouteStopMapping>,
    pre: StrMap<Vec<usize>>,
    post: StrMap<Vec<usize>>,
    by_route: bool,
    i: usize,
)
    requires
        i < ms.len(),
        index_ok_upto(ms, pre, by_route, i as int),
        post.wf(),
        post.contains_key(rec_key(ms[i as int], by_route)),
        pre.contains_key(rec_key(ms[i as int], by_route)) ==> post.spec_get(
            rec_key(ms[i as int], by_route),
        )@ == pre.spec_get(rec_key(ms[i as int], by_route))@.push(i),
        !pre.contains_key(rec_key(ms[i as int], by_route)) ==> post.spec_get(
            rec_key(ms[i as int], by_route),
        )@ == seq![i],
        forall|k2: Seq<char>|
            k2 != rec_key(ms[i as int], by_route) ==> (post.contains_key(k2)
                <==> pre.contains_key(k2)),
        forall|k2: Seq<char>|
            k2 != rec_key(ms[i as int], by_route) && pre.contains_key(k2) ==> post.spec_get(k2)
                == pre.spec_get(k2),
    ensures
        index_ok_upto(ms, post, by_route, i as int + 1),
{
    let k = rec_key(ms[i as int], by_route);
    assert forall|k2: Seq<char>| #[trigger] post.contains_key(k2) implies positions_ok(
        ms,
        post.spec_get(k2)@,
        k2,
        by_route,
        i as int + 1,
    ) by {
        if k2 == k {
            if pre.contains_key(k) {
                let old_ps = pre.spec_get(k)@;
                let new_ps = post.spec_get(k)@;
                assert(new_ps == old_ps.push(i));
                assert(positions_ok(ms, old_ps, k, by_route, i as int));
                assert forall|a: int, b: int| 0 <= a < b < new_ps.len() implies new_ps[a]
                    < new_ps[b] by {
                    if b == new_ps.len() - 1 {
                        assert(new_ps[a] == old_ps[a]);
                        assert(old_ps[a] < i);
                    }
                }
            } else {
                assert(post.spec_get(k)@ == seq![i]);
                assert(post.spec_get(k)@[0] == i);
            }
        } else {
            assert(pre.contains_key(k2));
            assert(post.spec_get(k2) == pre.spec_get(k2));
        }
    }
    assert forall|j: int| 0 <= j < i as int + 1 implies post.contains_key(
        rec_key(#[trigger] ms[j], by_route),
    ) && post.spec_get(rec_key(ms[j], by_route))@.contains(j as usize) by {
        let kj = rec_key(ms[j], by_route);
        if j == i as int {
            if pre.contains_key(k) {
                let old_ps = pre.spec_get(k)@;
                let new_ps = post.spec_get(k)@;
                assert(new_ps == old_ps.push(i));
                assert(new_ps[new_ps.len() - 1] == i);
            } else {
                assert(post.spec_get(k)@[0] == i);
            }
        } else {
            assert(pre.contains_key(kj));
            assert(pre.spec_get(kj)@.contains(j as usize));
            if kj == k {
                let old_ps = pre.spec_get(k)@;
                let new_ps = post.spec_get(k)@;
                assert(new_ps == old_ps.push(i));
                let b = choose|b: int| 0 <= b < old_ps.len() && old_ps[b] == j as usize;
                assert(new_ps[b] == j as usize);
            } else {
                assert(post.spec_get(kj) == pre.spec_get(kj));
            }
        }
    }
}

/// Selection sort taking the earliest minimum first: the result is a
/// permutation of the input, ordered by sequence number ascending with
/// arrival order kept among equal sequence numbers.
fn sort_by_sequence_num(input: Vec<RouteStopMapping>) -> (r: Vec<RouteStopMapping>)
    ensures
        r@.len() == input@.len(),
        r@.to_multiset() == input@.to_multiset(),
        forall|a: int, b: int|
            0 <= a < b < r@.len() ==> #[trigger] r@[a].sequence_num <= #[trigger] r@[b].sequence_num,
{
    let ghost input0 = input@;
    let mut rest = input;
    let mut out: Vec<RouteStopMapping> = Vec::new();
    proof {
        broadcast use vstd::multiset::group_multiset_axioms;

        out@.to_multiset_ensures();
        assert forall|y: RouteStopMapping| out@.to_multiset().count(y) == 0 by {
            assert(!out@.contains(y));
        }
        assert(out@.to_multiset().add(rest@.to_multiset()) =~= rest@.to_multiset());
    }
    while rest.len() > 0
        invariant
            out@.len() + rest@.len() == input0.len(),
            out@.to_multiset().add(rest@.to_multiset()) == input0.to_multiset(),
            forall|a: int, b: int|
                0 <= a < b < out@.len() ==> #[trigger] out@[a].sequence_num
                    <= #[trigger] out@[b].sequence_num,
            forall|a: int, b: int|
                0 <= a < out@.len() && 0 <= b < rest@.len() ==> #[trigger] out@[a].sequence_num
                    <= #[trigger] rest@[b].sequence_num,
        decreases rest@.len(),
    {
        let mut m: usize = 0;
        let mut j: usize = 1;
        while j < rest.len()
            invariant
                m < j <= rest@.len(),
                forall|x: int|
                    0 <= x < j ==> rest@[m as int].sequence_num <= #[trigger] rest@[x].sequence_num,
            decreases rest@.len() - j,
        {
            if rest[j].sequence_num < rest[m].sequence_num {
                m = j;
            }
            j = j + 1;
        }
        let ghost rest0 = rest@;
        let ghost out0 = out@;
        let x = rest.remove(m);
        out.push(x);
        proof {
            broadcast use vstd::multiset::group_multiset_axioms;

            rest0.to_multiset_ensures();
            rest@.to_multiset_ensures();
            out0.to_multiset_ensures();
            assert(rest@ == rest0.remove(m as int));
            assert(rest@.to_multiset() =~= rest0.to_multiset().remove(x));
            assert(out@.to_multiset() =~= out0.to_multiset().insert(x));
            assert(rest0.contains(x));
            assert(rest0.to_multiset().count(x) > 0);
            assert(out@.to_multiset().add(rest@.to_multiset()) =~= out0.to_multiset().add(
                rest0.to_multiset(),
            ));
            assert forall|b: int| 0 <= b < rest@.len() implies x.sequence_num
                <= #[trigger] rest@[b].sequence_num by {
                if b < m {
                    assert(rest@[b] == rest0[b]);
                } else {
                    assert(rest@[b] == rest0[b + 1]);
                }
            }
        }
    }
    proof {
        broadcast use vstd::multiset::group_multiset_axioms;

        rest@.to_multiset_ensures();
        assert forall|y: RouteStopMapping| rest@.to_multiset().count(y) == 0 by {
            assert(!rest@.contains(y));
        }
        assert(out@.to_multiset() =~= out@.to_multiset().add(rest@.to_multiset()));
    }
    out
}

/// In a non-strictly sorted permutation of records with pairwise-distinct
/// sequence numbers, the order is strict.
proof fn lemma_sorted_distinct_strict(r: Seq<RouteStopMapping>, src: Seq<RouteStopMapping>)
    requires
        r.to_multiset() == src.to_multiset(),
        seq_nums_distinct(src),
        forall|a: int, b: int|
            0 <= a < b < r.len() ==> #[trigger] r[a].sequence_num <= #[trigger] r[b].sequence_num,
    ensures
        forall|a: int, b: int|
            0 <= a < b < r.len() ==> #[trigger] r[a].sequence_num < #[trigger] r[b].sequence_num,
{
    src.to_multiset_ensures();
    r.to_multiset_ensures();
    assert forall|i: int, j: int| 0 <= i < j < src.len() implies src[i] != src[j] by {
        assert(src[i].sequence_num != src[j].sequence_num);
    }
    src.lemma_multiset_has_no_duplicates();
    r.lemma_multiset_has_no_duplicates_conv();
    assert forall|a: int, b: int| 0 <= a < b < r.len() implies #[trigger] r[a].sequence_num
        < #[trigger] r[b].sequence_num by {
        assert(r[a] != r[b]);
        assert(r.contains(r[a]));
        assert(r.contains(r[b]));
        assert(src.to_multiset().count(r[a]) > 0);
        assert(src.to_multiset().count(r[b]) > 0);
        assert(src.contains(r[a]));
        assert(src.contains(r[b]));
        let i = choose|i: int| 0 <= i < src.len() && src[i] == r[a];
        let j = choose|j: int| 0 <= j < src.len() && src[j] == r[b];
        assert(i != j);
        assert(src[i].sequence_num != src[j].sequence_num);
    }
}

} // verus!
