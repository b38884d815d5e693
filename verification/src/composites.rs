//! A triangle mesh accelerated by a bounding-volume hierarchy.
//!
//! The traversal contract is the correctness oracle of the hierarchy: the
//! nearest hit found through the tree has exactly the distance that a linear
//! scan over all triangles would report, because a subtree is discarded only
//! when the exact slab test refuses its box, and a refused box contains no
//! triangle the ray hits (`lemma_box_reject_misses`).

use vstd::prelude::*;

use crate::datastructures::{
    lemma_box_reject_misses, lemma_subtree_contained, lemma_subtree_counts,
    lemma_subtree_nonempty, node_count, node_wf, subtree_tris, BVH,
};
use crate::primitives::{tri_accepts, tri_hit, HitPoint, HitV, Ray, Triangle};

verus! {

/// Nearest hit of a linear scan over the first `n` triangles, earlier
/// triangles winning exact ties.
pub open spec fn tri_scan(tris: Seq<Triangle>, r: Ray, n: int) -> Option<HitV>
    decreases n,
{
    if n <= 0 {
        None
    } else {
        let prev = tri_scan(tris, r, n - 1);
        if tri_accepts(tris[n - 1], r) {
            let cur = tri_hit(tris[n - 1], r);
            match prev {
                None => Some(cur),
                Some(ph) => if cur.t < ph.t {
                    Some(cur)
                } else {
                    Some(ph)
                },
            }
        } else {
            prev
        }
    }
}

/// What the scan returns: a hit of some triangle, of minimal distance.
pub proof fn lemma_scan_props(tris: Seq<Triangle>, r: Ray, n: int)
    requires
        0 <= n <= tris.len(),
    ensures
        (tri_scan(tris, r, n) is Some) <==> (exists|k: int|
            0 <= k < n && tri_accepts(#[trigger] tris[k], r)),
        tri_scan(tris, r, n) matches Some(h) ==> ((exists|k: int|
            0 <= k < n && tri_accepts(#[trigger] tris[k], r) && h == tri_hit(tris[k], r)) && (
        forall|k: int|
            0 <= k < n && tri_accepts(#[trigger] tris[k], r) ==> h.t <= tri_hit(tris[k], r).t)),
    decreases n,
{
    if n > 0 {
        lemma_scan_props(tris, r, n - 1);
    }
}

/// A concatenation contains an element exactly when one part contains it.
pub proof fn lemma_concat_contains(s1: Seq<int>, s2: Seq<int>, x: int)
    ensures
        (s1 + s2).contains(x) <==> (s1.contains(x) || s2.contains(x)),
{
    if (s1 + s2).contains(x) {
        let i = choose|i: int| 0 <= i < (s1 + s2).len() && (s1 + s2)[i] == x;
        if i < s1.len() {
            assert(s1[i] == x);
        } else {
            assert(s2[i - s1.len()] == x);
        }
    }
    if s1.contains(x) {
        let i = choose|i: int| 0 <= i < s1.len() && s1[i] == x;
        assert((s1 + s2)[i] == x);
    }
    if s2.contains(x) {
        let i = choose|i: int| 0 <= i < s2.len() && s2[i] == x;
        assert((s1 + s2)[s1.len() + i] == x);
    }
}

/// Triangle indices still to be visited: the leaves below every node on the
/// stack.
pub open spec fn stack_rem(nodes: Seq<crate::datastructures::AABBNode>, stk: Seq<usize>) -> Seq<
    int,
>
    decreases stk.len(),
{
    if stk.len() == 0 {
        Seq::empty()
    } else {
        stack_rem(nodes, stk.drop_last()) + subtree_tris(nodes, stk.last() as int)
    }
}

/// Total number of nodes below the nodes on the stack: the traversal's
/// termination measure.
pub open spec fn stack_count(nodes: Seq<crate::datastructures::AABBNode>, stk: Seq<usize>) -> int
    decreases stk.len(),
{
    if stk.len() == 0 {
        0
    } else {
        stack_count(nodes, stk.drop_last()) + node_count(nodes, stk.last() as int)
    }
}

/// A well-formed subtree holds at least one node.
pub proof fn lemma_node_count_pos(
    nodes: Seq<crate::datastructures::AABBNode>,
    tris: Seq<Triangle>,
    i: int,
)
    requires
        node_wf(nodes, tris, i),
    ensures
        node_count(nodes, i) >= 1,
{
    lemma_subtree_counts(nodes, tris, i);
    lemma_subtree_nonempty(nodes, tris, i);
}

/// The termination measure of a stack of well-formed nodes is non-negative.
pub proof fn lemma_stack_count_nonneg(
    nodes: Seq<crate::datastructures::AABBNode>,
    tris: Seq<Triangle>,
    stk: Seq<usize>,
)
    requires
        forall|i: int| 0 <= i < stk.len() ==> node_wf(nodes, tris, #[trigger] stk[i] as int),
    ensures
        stack_count(nodes, stk) >= 0,
    decreases stk.len(),
{
    if stk.len() > 0 {
        lemma_stack_count_nonneg(nodes, tris, stk.drop_last());
        lemma_node_count_pos(nodes, tris, stk.last() as int);
    }
}

/// Pushing a node adds its subtree to the remaining work and its node count
/// to the termination measure.
pub proof fn lemma_stack_push(
    nodes: Seq<crate::datastructures::AABBNode>,
    stk: Seq<usize>,
    n: usize,
)
    ensures
        stack_rem(nodes, stk.push(n)) == stack_rem(nodes, stk) + subtree_tris(nodes, n as int),
        stack_count(nodes, stk.push(n)) == stack_count(nodes, stk) + node_count(nodes, n as int),
{
    assert(stk.push(n).drop_last() =~= stk);
    assert(stk.push(n).last() == n);
}

pub struct Mesh {
    pub triangles: Vec<Triangle>,
    pub bvh: BVH,
}

impl Mesh {
    /// A mesh is well formed when its hierarchy is built over exactly its
    /// triangles and all geometry is in range.
    pub open spec fn wf(&self) -> bool {
        &&& self.triangles@.len() >= 1
        &&& forall|k: int|
            0 <= k < self.triangles@.len() ==> (#[trigger] self.triangles@[k]).valid()
        &&& self.bvh.wf(self.triangles@)
    }

    pub fn new(triangles: Vec<Triangle>) -> (r: Mesh)
        requires
            triangles@.len() >= 1,
            forall|k: int| 0 <= k < triangles@.len() ==> (#[trigger] triangles@[k]).valid(),
        ensures
            r.wf(),
            r.triangles@ == triangles@,
    {
        let bvh = BVH::new(&triangles);
        Mesh { triangles, bvh }
    }

    /// Runtime check of `wf`, for callers outside verified code.
    pub fn is_valid(&self) -> (r: bool)
        ensures
            r ==> (self.triangles@.len() >= 1 && forall|k: int|
                0 <= k < self.triangles@.len() ==> (#[trigger] self.triangles@[k]).valid()),
    {
        let n = self.triangles.len();
        if n == 0 {
            return false;
        }
        let mut k: usize = 0;
        while k < n
            invariant
                k <= n,
                n == self.triangles@.len(),
                forall|j: int| 0 <= j < k ==> (#[trigger] self.triangles@[j]).valid(),
            decreases n - k,
        {
            if !self.triangles[k].is_valid() {
                return false;
            }
            k = k + 1;
        }
        true
    }

    /// Iterative nearest-hit query with an explicit stack, pruning a subtree
    /// when the slab test refuses its box. The result is a true hit of some
    /// triangle below `node`, minimal in distance among all of them; exact
    /// ties keep the hit found first in traversal order.
    fn stack_intersect(&self, node: usize, ray: &Ray) -> (r: Option<HitPoint>)
        requires
            self.wf(),
            ray.valid(),
            node_wf(self.bvh.nodes@, self.triangles@, node as int),
        ensures
            r matches Some(h) ==> (exists|k: int|
                0 <= k < self.triangles@.len() && tri_accepts(#[trigger] self.triangles@[k], *ray)
                    && h@ == tri_hit(self.triangles@[k], *ray)),
            forall|k: int|
                (0 <= k < self.triangles@.len() && tri_accepts(#[trigger] self.triangles@[k], *ray)
                    && subtree_tris(self.bvh.nodes@, node as int).contains(k)) ==> (r is Some
                    && r->Some_0@.t <= tri_hit(self.triangles@[k], *ray).t),
    {
        let ghost nodes = self.bvh.nodes@;
        let ghost tris = self.triangles@;
        let ghost whole = subtree_tris(nodes, node as int);
        let mut stack: Vec<usize> = Vec::new();
        stack.push(node);
        let mut closest: Option<HitPoint> = None;
        proof {
            lemma_stack_push(nodes, Seq::<usize>::empty(), node);
            assert(stack_rem(nodes, stack@) =~= whole);
        }
        while stack.len() > 0
            invariant
                self.wf(),
                ray.valid(),
                nodes == self.bvh.nodes@,
                tris == self.triangles@,
                whole == subtree_tris(nodes, node as int),
                forall|i: int|
                    0 <= i < stack@.len() ==> node_wf(nodes, tris, #[trigger] stack@[i] as int),
                forall|k: int|
                    (0 <= k < tris.len() && tri_accepts(#[trigger] tris[k], *ray)
                        && whole.contains(k) && !stack_rem(nodes, stack@).contains(k)) ==> (
                    closest is Some && closest->Some_0@.t <= tri_hit(tris[k], *ray).t),
                closest matches Some(h) ==> (exists|k: int|
                    0 <= k < tris.len() && tri_accepts(#[trigger] tris[k], *ray) && h@ == tri_hit(
                        tris[k],
                        *ray,
                    )),
            decreases stack_count(nodes, stack@),
        {
            let ghost stk0 = stack@;
            let ghost rem0 = stack_rem(nodes, stk0);
            let node_idx = stack.pop().unwrap();
            let ghost sub = subtree_tris(nodes, node_idx as int);
            let ghost rem1 = stack_rem(nodes, stack@);
            proof {
                assert(stk0.drop_last() =~= stack@);
                assert(rem0 == rem1 + sub);
            }
            proof {
                assert(stack_count(nodes, stk0) == stack_count(nodes, stack@) + node_count(
                    nodes,
                    node_idx as int,
                ));
                lemma_node_count_pos(nodes, tris, node_idx as int);
                lemma_stack_count_nonneg(nodes, tris, stack@);
            }
            let nd = &self.bvh.nodes[node_idx];
            if !nd.bbox.intersects(ray) {
                proof {
                    assert forall|k: int|
                        (0 <= k < tris.len() && tri_accepts(#[trigger] tris[k], *ray)
                            && whole.contains(k) && !stack_rem(nodes, stack@).contains(k)) implies (
                    closest is Some && closest->Some_0@.t <= tri_hit(tris[k], *ray).t) by {
                        lemma_concat_contains(rem1, sub, k);
                        if sub.contains(k) {
                            let j = choose|j: int| 0 <= j < sub.len() && sub[j] == k;
                            lemma_subtree_contained(nodes, tris, node_idx as int, j);
                            lemma_box_reject_misses(nd.bbox@, *ray, tris[k]);
                        }
                    }
                }
            } else {
                match (nd.object_idx, nd.left, nd.right) {
                    (Some(object_idx), _, _) => {
                        let hit = self.triangles[object_idx].intersects(ray);
                        let take = match (&hit, &closest) {
                            (Some(h), None) => true,
                            (Some(h), Some(c)) => h.t < c.t,
                            _ => false,
                        };
                        let ghost closest0 = closest;
                        if take {
                            closest = hit;
                        }
                        proof {
                            assert forall|k: int|
                                (0 <= k < tris.len() && tri_accepts(#[trigger] tris[k], *ray)
                                    && whole.contains(k) && !stack_rem(nodes, stack@).contains(k))
                                implies (closest is Some && closest->Some_0@.t <= tri_hit(
                                tris[k],
                                *ray,
                            ).t) by {
                                lemma_concat_contains(rem1, sub, k);
                            }
                        }
                    },
                    (None, Some(l), Some(rr)) => {
                        stack.push(l);
                        stack.push(rr);
                        proof {
                            let stk2 = stack@;
                            let s1 = stk0.drop_last();
                            lemma_stack_push(nodes, s1, l);
                            lemma_stack_push(nodes, s1.push(l), rr);
                            let subl = subtree_tris(nodes, l as int);
                            let subr = subtree_tris(nodes, rr as int);
                            assert(stack_rem(nodes, stk2) == rem1 + subl + subr);
                            assert(sub == subl + subr);
                            assert(node_count(nodes, node_idx as int) == 1 + node_count(
                                nodes,
                                l as int,
                            ) + node_count(nodes, rr as int));
                            assert(stack_count(nodes, stk2) == stack_count(nodes, stk0) - 1);
                            assert forall|k: int|
                                (0 <= k < tris.len() && tri_accepts(#[trigger] tris[k], *ray)
                                    && whole.contains(k) && !stack_rem(nodes, stack@).contains(k))
                                implies (closest is Some && closest->Some_0@.t <= tri_hit(
                                tris[k],
                                *ray,
                            ).t) by {
                                lemma_concat_contains(rem1 + subl, subr, k);
                                lemma_concat_contains(rem1, subl, k);
                                lemma_concat_contains(rem1, sub, k);
                                lemma_concat_contains(subl, subr, k);
                            }
                        }
                    },
                    _ => {
                        proof {
                            assert(false);
                        }
                    },
                }
            }
        }
        proof {
            assert(stack@ =~= Seq::<usize>::empty());
            assert(stack_rem(nodes, stack@) =~= Seq::<int>::empty());
            assert forall|k: int| !stack_rem(nodes, stack@).contains(k) by {}
        }
        closest
    }

    /// Nearest hit through the hierarchy. The result agrees with a linear
    /// scan over all triangles: both miss together, and when both hit, the
    /// distances are exactly equal.
    pub fn intersects(&self, ray: &Ray) -> (r: Option<HitPoint>)
        requires
            self.wf(),
            ray.valid(),
        ensures
            match (r, tri_scan(self.triangles@, *ray, self.triangles@.len() as int)) {
                (Some(h), Some(g)) => h@.t == g.t && (exists|k: int|
                    0 <= k < self.triangles@.len() && tri_accepts(
                        #[trigger] self.triangles@[k],
                        *ray,
                    ) && h@ == tri_hit(self.triangles@[k], *ray)),
                (None, None) => true,
                _ => false,
            },
    {
        let r = self.stack_intersect(self.bvh.root, ray);
        proof {
            let tris = self.triangles@;
            let n = tris.len() as int;
            lemma_scan_props(tris, *ray, n);
            assert forall|k: int|
                0 <= k < n implies subtree_tris(self.bvh.nodes@, self.bvh.root as int).contains(
                k,
            ) by {
                assert(subtree_tris(self.bvh.nodes@, self.bvh.root as int)[k] == k);
            }
        }
        r
    }
}

} // verus!
