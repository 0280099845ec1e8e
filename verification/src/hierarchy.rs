//! Stop hierarchy: parent station to child platform grouping for one
//! feed. Built by grouping child ids under their parent while dropping,
//! not failing on, any edge that would give a child a second parent, bind
//! a stop to itself, or close a cycle of parent links.

use vstd::prelude::*;
use crate::strmap::{contains_string, StrMap};

verus! {

/// `c` is recorded as a child of parent `p`.
pub open spec fn is_child_of(ch: StrMap<Vec<String>>, p: Seq<char>, c: Seq<char>) -> bool {
    ch.contains_key(p) && exists|a: int|
        0 <= a < ch.spec_get(p)@.len() && (#[trigger] ch.spec_get(p)@[a])@ == c
}

/// `c` is recorded as a child of some parent.
pub open spec fn is_child(ch: StrMap<Vec<String>>, c: Seq<char>) -> bool {
    exists|p: Seq<char>| #[trigger] is_child_of(ch, p, c)
}

/// The parent of `c`; under `hier_wf` the witness is unique.
pub open spec fn parent_of_spec(ch: StrMap<Vec<String>>, c: Seq<char>) -> Seq<char>
    recommends
        is_child(ch, c),
{
    choose|p: Seq<char>| #[trigger] is_child_of(ch, p, c)
}

/// Well-formed hierarchy: distinct parent keys, each child under at most
/// one parent, and no child listed twice under its parent.
pub open spec fn hier_wf(ch: StrMap<Vec<String>>) -> bool {
    &&& ch.wf()
    &&& forall|p1: Seq<char>, p2: Seq<char>, c: Seq<char>|
        #[trigger] is_child_of(ch, p1, c) && #[trigger] is_child_of(ch, p2, c) ==> p1 == p2
    &&& forall|p: Seq<char>, a: int, b: int|
        #[trigger] ch.contains_key(p) && 0 <= a < b < ch.spec_get(p)@.len() ==> (
        #[trigger] ch.spec_get(p)@[a])@ != (#[trigger] ch.spec_get(p)@[b])@
}

/// Following parent links upward from `x` reaches `y` within `fuel`
/// steps.
pub open spec fn hier_reaches(
    ch: StrMap<Vec<String>>,
    x: Seq<char>,
    y: Seq<char>,
    fuel: nat,
) -> bool
    decreases fuel,
{
    if fuel == 0 {
        false
    } else if is_child(ch, x) {
        let p = parent_of_spec(ch, x);
        p == y || hier_reaches(ch, p, y, (fuel - 1) as nat)
    } else {
        false
    }
}

/// Adding child links never removes reachability along parent chains.
proof fn lemma_reaches_mono(
    ch1: StrMap<Vec<String>>,
    ch2: StrMap<Vec<String>>,
    x: Seq<char>,
    y: Seq<char>,
    fuel: nat,
)
    requires
        forall|c: Seq<char>|
            #[trigger] is_child(ch1, c) ==> is_child(ch2, c) && parent_of_spec(ch2, c)
                == parent_of_spec(ch1, c),
        hier_reaches(ch1, x, y, fuel),
    ensures
        hier_reaches(ch2, x, y, fuel),
    decreases fuel,
{
    if fuel > 0 && is_child(ch1, x) {
        let p = parent_of_spec(ch1, x);
        if p == y {
        } else {
            lemma_reaches_mono(ch1, ch2, p, y, (fuel - 1) as nat);
        }
    }
}

pub(crate) fn copy_strings(v: &Vec<String>) -> (r: Vec<String>)
    ensures
        r@ == v@,
{
    let mut r: Vec<String> = Vec::new();
    let mut i: usize = 0;
    while i < v.len()
        invariant
            i <= v@.len(),
            r@ == v@.take(i as int),
        decreases v@.len() - i,
    {
        r.push(v[i].clone());
        proof {
            assert(v@.take(i as int + 1) =~= v@.take(i as int).push(v@[i as int]));
        }
        i = i + 1;
    }
    proof {
        assert(v@.take(v@.len() as int) =~= v@);
    }
    r
}

/// The parent of `c`, if it is recorded as a child of any parent.
fn find_parent(ch: &StrMap<Vec<String>>, c: &String) -> (r: Option<String>)
    requires
        hier_wf(*ch),
    ensures
        match r {
            Some(p) => is_child(*ch, c@) && p@ == parent_of_spec(*ch, c@),
            None => !is_child(*ch, c@),
        },
{
    let mut i: usize = 0;
    while i < ch.pairs.len()
        invariant
            i <= ch.pairs.len(),
            hier_wf(*ch),
            forall|x: int, a: int|
                0 <= x < i && 0 <= a < ch.pairs[x].1@.len() ==> (#[trigger] ch.pairs[x].1@[a])@
                    != c@,
        decreases ch.pairs.len() - i,
    {
        if contains_string(&ch.pairs[i].1, c) {
            proof {
                let k = ch.pairs[i as int].0@;
                assert(ch.contains_key(k));
                let w = choose|w: int| 0 <= w < ch.pairs.len() && ch.pairs[w].0@ == k;
                assert(w == i as int);
                assert(ch.spec_get(k) == ch.pairs[i as int].1);
                assert(is_child_of(*ch, k, c@));
                assert(parent_of_spec(*ch, c@) == k) by {
                    let p2 = choose|p2: Seq<char>| is_child_of(*ch, p2, c@);
                    assert(is_child_of(*ch, p2, c@) && is_child_of(*ch, k, c@));
                }
            }
            return Some(ch.pairs[i].0.clone());
        }
        i = i + 1;
    }
    proof {
        if is_child(*ch, c@) {
            let p = choose|p: Seq<char>| is_child_of(*ch, p, c@);
            let w = choose|w: int| 0 <= w < ch.pairs.len() && ch.pairs[w].0@ == p;
            assert(ch.spec_get(p) == ch.pairs[w].1) by {
                let w2 = choose|w2: int| 0 <= w2 < ch.pairs.len() && ch.pairs[w2].0@ == p;
                assert(w2 == w);
            }
            let a = choose|a: int|
                0 <= a < ch.spec_get(p)@.len() && ch.spec_get(p)@[a]@ == c@;
            assert((ch.pairs[w].1@[a])@ == c@);
            assert(false);
        }
    }
    None
}

/// Whether following parent links upward from `from` reaches `target`
/// within `fuel` steps.
fn climbs_to(ch: &StrMap<Vec<String>>, from: &String, target: &String, fuel: usize) -> (r: bool)
    requires
        hier_wf(*ch),
    ensures
        r == hier_reaches(*ch, from@, target@, fuel as nat),
{
    let mut cur: String = from.clone();
    let mut f: usize = fuel;
    while f > 0
        invariant
            hier_wf(*ch),
            f <= fuel,
            hier_reaches(*ch, from@, target@, fuel as nat) == hier_reaches(
                *ch,
                cur@,
                target@,
                f as nat,
            ),
        decreases f,
    {
        match find_parent(ch, &cur) {
            Some(p) => {
                if p == *target {
                    return true;
                }
                cur = p;
                f = f - 1;
            },
            None => {
                return false;
            },
        }
    }
    false
}

impl StrMap<Vec<String>> {
    /// Appends `c` to the child list of `p`, starting a fresh list if the
    /// parent is new.
    fn push_child(&mut self, p: &String, c: &String)
        requires
            old(self).wf(),
        ensures
            final(self).wf(),
            final(self).contains_key(p@),
            old(self).contains_key(p@) ==> final(self).spec_get(p@)@.len() == old(self).spec_get(
                p@,
            )@.len() + 1,
            old(self).contains_key(p@) ==> forall|a: int|
                0 <= a < old(self).spec_get(p@)@.len() ==> (#[trigger] final(self).spec_get(
                    p@,
                )@[a])@ == (#[trigger] old(self).spec_get(p@)@[a])@,
            !old(self).contains_key(p@) ==> final(self).spec_get(p@)@.len() == 1,
            (#[trigger] final(self).spec_get(p@)@[final(self).spec_get(p@)@.len() - 1])@ == c@,
            forall|k2: Seq<char>|
                k2 != p@ ==> (final(self).contains_key(k2) <==> old(self).contains_key(k2)),
            forall|k2: Seq<char>|
                k2 != p@ && old(self).contains_key(k2) ==> final(self).spec_get(k2) == old(
                    self,
                ).spec_get(k2),
    {
        match self.find(p) {
            Some(i) => {
                proof {
                    let w = choose|j: int| 0 <= j < self.pairs.len() && self.pairs[j].0@ == p@;
                    assert(self.pairs[i as int].0@ == p@);
                    assert(w == i as int);
                }
                let mut nv = copy_strings(&self.pairs[i].1);
                nv.push(c.clone());
                self.replace_at(i, nv);
            },
            None => {
                let mut nv: Vec<String> = Vec::new();
                nv.push(c.clone());
                self.insert_if_absent(p.clone(), nv);
            },
        }
    }
}

/// Groups child stop ids under their parent stop id, one edge at a time in
/// input order. An edge is dropped, never an error, when it would bind a
/// stop to itself, give a child a second parent, or close a cycle of
/// parent links (its parent already descends from the child). The first
/// accepted edge for a child wins.
pub fn build_stop_hierarchy(edges: &Vec<(String, String)>) -> (r: StrMap<Vec<String>>)
    requires
        edges@.len() < usize::MAX,
    ensures
        hier_wf(r),
        forall|p: Seq<char>, c: Seq<char>|
            #[trigger] is_child_of(r, p, c) ==> exists|e: int|
                0 <= e < edges@.len() && (#[trigger] edges@[e]).0@ == p && edges@[e].1@ == c,
        forall|e: int|
            0 <= e < edges@.len() && (#[trigger] edges@[e]).1@ != edges@[e].0@ ==> is_child(
                r,
                edges@[e].1@,
            ) || hier_reaches(r, edges@[e].0@, edges@[e].1@, (edges@.len() + 1) as nat),
        forall|e: int|
            0 <= e < edges@.len() && is_child(r, (#[trigger] edges@[e]).1@) && parent_of_spec(
                r,
                edges@[e].1@,
            ) != edges@[e].0@ ==> edges@[e].0@ == edges@[e].1@ || hier_reaches(
                r,
                edges@[e].0@,
                edges@[e].1@,
                (edges@.len() + 1) as nat,
            ) || exists|e2: int|
                0 <= e2 < e && (#[trigger] edges@[e2]).1@ == edges@[e].1@ && edges@[e2].0@
                    == parent_of_spec(r, edges@[e].1@),
{
    let ghost n = edges@.len();
    let mut ch: StrMap<Vec<String>> = StrMap::new();
    proof {
        assert forall|c: Seq<char>| !is_child(ch, c) by {
            if is_child(ch, c) {
                let p = choose|p: Seq<char>| is_child_of(ch, p, c);
            }
        }
    }
    let fuel = edges.len() + 1;
    let mut e: usize = 0;
    while e < edges.len()
        invariant
            e <= edges@.len(),
            n == edges@.len(),
            n < usize::MAX,
            fuel == n + 1,
            hier_wf(ch),
            forall|p: Seq<char>, c: Seq<char>|
                #[trigger] is_child_of(ch, p, c) ==> exists|e2: int|
                    0 <= e2 < e && (#[trigger] edges@[e2]).0@ == p && edges@[e2].1@ == c,
            forall|e2: int|
                0 <= e2 < e && (#[trigger] edges@[e2]).1@ != edges@[e2].0@ ==> is_child(
                    ch,
                    edges@[e2].1@,
                ) || hier_reaches(ch, edges@[e2].0@, edges@[e2].1@, (n + 1) as nat),
            forall|e2: int|
                0 <= e2 < e && is_child(ch, (#[trigger] edges@[e2]).1@) && parent_of_spec(
                    ch,
                    edges@[e2].1@,
                ) != edges@[e2].0@ ==> edges@[e2].0@ == edges@[e2].1@ || hier_reaches(
                    ch,
                    edges@[e2].0@,
                    edges@[e2].1@,
                    (n + 1) as nat,
                ) || exists|e3: int|
                    0 <= e3 < e2 && (#[trigger] edges@[e3]).1@ == edges@[e2].1@ && edges@[e3].0@
                        == parent_of_spec(ch, edges@[e2].1@),
        decreases edges@.len() - e,
    {
        let parent = &edges[e].0;
        let child = &edges[e].1;
        let ghost ch0 = ch;
        let ghost p_e = edges@[e as int].0@;
        let ghost c_e = edges@[e as int].1@;
        if *parent == *child {
            proof {
                assert(p_e == c_e);
            }
        } else {
            match find_parent(&ch, child) {
                Some(_existing) => {
                    proof {
                        let pe = parent_of_spec(ch, c_e);
                        assert(is_child_of(ch, pe, c_e)) by {
                            let p2 = choose|p2: Seq<char>| #[trigger] is_child_of(ch, p2, c_e);
                        }
                        assert(exists|e3: int|
                            0 <= e3 < e && (#[trigger] edges@[e3]).0@ == pe && edges@[e3].1@
                                == c_e);
                    }
                },
                None => {
                    let hit = climbs_to(&ch, parent, child, fuel);
                    if hit {
                        proof {
                            assert(hier_reaches(ch, p_e, c_e, (n + 1) as nat));
                        }
                    } else {
                        ch.push_child(parent, child);
                        proof {
                            lemma_accept_step(ch0, ch, p_e, c_e, n as nat);
                            assert forall|e2: int|
                                0 <= e2 <= e && (#[trigger] edges@[e2]).1@ != edges@[e2].0@ implies
                                is_child(ch, edges@[e2].1@) || hier_reaches(
                                ch,
                                edges@[e2].0@,
                                edges@[e2].1@,
                                (n + 1) as nat,
                            ) by {
                                if e2 == e as int {
                                    assert(is_child(ch, c_e));
                                } else {
                                    if is_child(ch0, edges@[e2].1@) {
                                        assert(is_child(ch, edges@[e2].1@));
                                    } else {
                                        assert(hier_reaches(
                                            ch0,
                                            edges@[e2].0@,
                                            edges@[e2].1@,
                                            (n + 1) as nat,
                                        ));
                                        lemma_reaches_mono(
                                            ch0,
                                            ch,
                                            edges@[e2].0@,
                                            edges@[e2].1@,
                                            (n + 1) as nat,
                                        );
                                    }
                                }
                            }
                            assert forall|e2: int|
                                0 <= e2 <= e && is_child(ch, (#[trigger] edges@[e2]).1@)
                                    && parent_of_spec(ch, edges@[e2].1@) != edges@[e2].0@ implies
                                edges@[e2].0@ == edges@[e2].1@ || hier_reaches(
                                ch,
                                edges@[e2].0@,
                                edges@[e2].1@,
                                (n + 1) as nat,
                            ) || exists|e3: int|
                                0 <= e3 < e2 && (#[trigger] edges@[e3]).1@ == edges@[e2].1@
                                    && edges@[e3].0@ == parent_of_spec(ch, edges@[e2].1@) by {
                                if e2 == e as int {
                                    assert(parent_of_spec(ch, c_e) == p_e);
                                } else {
                                    let c2 = edges@[e2].1@;
                                    if c2 == c_e {
                                        if edges@[e2].0@ != edges@[e2].1@ {
                                            assert(!is_child(ch0, c2));
                                            assert(hier_reaches(
                                                ch0,
                                                edges@[e2].0@,
                                                c2,
                                                (n + 1) as nat,
                                            ));
                                            lemma_reaches_mono(
                                                ch0,
                                                ch,
                                                edges@[e2].0@,
                                                c2,
                                                (n + 1) as nat,
                                            );
                                        }
                                    } else {
                                        let pw = choose|pw: Seq<char>|
                                            #[trigger] is_child_of(ch, pw, c2);
                                        assert(is_child_of(ch0, pw, c2));
                                        assert(is_child(ch0, c2));
                                        assert(parent_of_spec(ch0, c2) == parent_of_spec(ch, c2));
                                        if parent_of_spec(ch0, c2) != edges@[e2].0@ {
                                            if hier_reaches(
                                                ch0,
                                                edges@[e2].0@,
                                                c2,
                                                (n + 1) as nat,
                                            ) {
                                                lemma_reaches_mono(
                                                    ch0,
                                                    ch,
                                                    edges@[e2].0@,
                                                    c2,
                                                    (n + 1) as nat,
                                                );
                                            }
                                        }
                                    }
                                }
                            }
                        }
                    }
                },
            }
        }
        e = e + 1;
    }
    ch
}

/// After a fresh child link is added, existing links are unchanged and the
/// new child's parent is the edge's parent.
proof fn lemma_accept_step(
    pre: StrMap<Vec<String>>,
    post: StrMap<Vec<String>>,
    p: Seq<char>,
    c: Seq<char>,
    n: nat,
)
    requires
        hier_wf(pre),
        !is_child(pre, c),
        post.wf(),
        post.contains_key(p),
        pre.contains_key(p) ==> post.spec_get(p)@.len() == pre.spec_get(p)@.len() + 1,
        pre.contains_key(p) ==> forall|a: int|
            0 <= a < pre.spec_get(p)@.len() ==> (#[trigger] post.spec_get(p)@[a])@ == (
            #[trigger] pre.spec_get(p)@[a])@,
        !pre.contains_key(p) ==> post.spec_get(p)@.len() == 1,
        (post.spec_get(p)@[post.spec_get(p)@.len() - 1])@ == c,
        forall|k2: Seq<char>| k2 != p ==> (post.contains_key(k2) <==> pre.contains_key(k2)),
        forall|k2: Seq<char>|
            k2 != p && pre.contains_key(k2) ==> post.spec_get(k2) == pre.spec_get(k2),
    ensures
        hier_wf(post),
        is_child_of(post, p, c),
        is_child(post, c),
        parent_of_spec(post, c) == p,
        forall|p2: Seq<char>, c2: Seq<char>|
            #[trigger] is_child_of(post, p2, c2) ==> (p2 == p && c2 == c) || is_child_of(
                pre,
                p2,
                c2,
            ),
        forall|c2: Seq<char>|
            #[trigger] is_child(pre, c2) ==> is_child(post, c2) && parent_of_spec(post, c2)
                == parent_of_spec(pre, c2),
{
    let plen = post.spec_get(p)@.len() as int;
    assert(is_child_of(post, p, c));
    assert forall|p2: Seq<char>, c2: Seq<char>| #[trigger] is_child_of(post, p2, c2) implies (p2
        == p && c2 == c) || is_child_of(pre, p2, c2) by {
        if p2 == p {
            let a = choose|a: int|
                0 <= a < post.spec_get(p2)@.len() && (#[trigger] post.spec_get(p2)@[a])@ == c2;
            if a == plen - 1 {
                assert(c2 == c);
            } else {
                assert(pre.contains_key(p));
                assert((pre.spec_get(p)@[a])@ == c2);
                assert(is_child_of(pre, p, c2));
            }
        } else {
            assert(pre.contains_key(p2));
            assert(post.spec_get(p2) == pre.spec_get(p2));
            assert(is_child_of(pre, p2, c2));
        }
    }
    assert forall|c2: Seq<char>| #[trigger] is_child(pre, c2) implies is_child(post, c2)
        && parent_of_spec(post, c2) == parent_of_spec(pre, c2) by {
        let p2 = choose|p2: Seq<char>| #[trigger] is_child_of(pre, p2, c2);
        assert(is_child_of(post, p2, c2)) by {
            if p2 == p {
                let a = choose|a: int|
                    0 <= a < pre.spec_get(p)@.len() && (#[trigger] pre.spec_get(p)@[a])@ == c2;
                assert((post.spec_get(p)@[a])@ == c2);
            } else {
                assert(post.spec_get(p2) == pre.spec_get(p2));
            }
        }
        assert(c2 != c);
        let pw = choose|pw: Seq<char>| #[trigger] is_child_of(post, pw, c2);
        assert(is_child_of(pre, pw, c2));
        assert(pw == p2);
    }
    assert forall|pa: Seq<char>, pb: Seq<char>, c2: Seq<char>|
        #[trigger] is_child_of(post, pa, c2) && #[trigger] is_child_of(post, pb, c2) implies pa
        == pb by {
        if c2 == c {
            if pa != p {
                assert(is_child_of(pre, pa, c2));
                assert(is_child(pre, c));
                assert(false);
            }
            if pb != p {
                assert(is_child_of(pre, pb, c2));
                assert(is_child(pre, c));
                assert(false);
            }
        } else {
            assert(is_child_of(pre, pa, c2));
            assert(is_child_of(pre, pb, c2));
        }
    }
    assert forall|pk: Seq<char>, a: int, b: int|
        #[trigger] post.contains_key(pk) && 0 <= a < b < post.spec_get(pk)@.len() implies (
    #[trigger] post.spec_get(pk)@[a])@ != (#[trigger] post.spec_get(pk)@[b])@ by {
        if pk == p {
            if b == plen - 1 {
                assert(pre.contains_key(p) ==> (pre.spec_get(p)@[a])@ == (post.spec_get(
                    p,
                )@[a])@);
                if pre.contains_key(p) {
                    assert(is_child_of(pre, p, (pre.spec_get(p)@[a])@));
                    if (post.spec_get(pk)@[a])@ == c {
                        assert(is_child(pre, c));
                        assert(false);
                    }
                }
            } else {
                assert(pre.contains_key(p));
                assert((pre.spec_get(p)@[a])@ != (pre.spec_get(p)@[b])@);
            }
        } else {
            assert(pre.contains_key(pk));
            assert(post.spec_get(pk) == pre.spec_get(pk));
        }
    }
    assert(parent_of_spec(post, c) == p) by {
        let pw = choose|pw: Seq<char>| #[trigger] is_child_of(post, pw, c);
        assert(is_child_of(post, pw, c) && is_child_of(post, p, c));
    }
}

} // verus!
