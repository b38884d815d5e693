//! Axis-aligned bounding boxes and the bounding-volume hierarchy.
//!
//! The slab test decides intersection with exact rational comparisons: each
//! constrained axis yields an entry and an exit fraction `lo/den`, `hi/den`
//! with `den = |d| > 0`, and the test accepts when every exit is ahead of the
//! origin and no entry lies beyond any exit. An axis whose direction
//! component is zero constrains the ray only through containment of the
//! origin, the exact counterpart of the infinite slab parameters that
//! IEEE division by zero would produce.

use vstd::prelude::*;

use crate::fixed::{abs1, fx_max, fx_max_spec, fx_min, fx_min_spec, lemma_i64_product_fits, FX_MAX};
use crate::primitives::{Ray, Triangle};
use crate::vec3::{det3, v3_in_geom, Vec3, V3};

verus! {

#[derive(Clone, Copy, Debug, PartialEq, Eq, Structural)]
pub struct AlignedBox3d {
    pub min: Vec3,
    pub max: Vec3,
}

/// The mathematical view of a box.
pub ghost struct BoxV {
    pub min: V3,
    pub max: V3,
}

impl View for AlignedBox3d {
    type V = BoxV;

    open spec fn view(&self) -> BoxV {
        BoxV { min: self.min@, max: self.max@ }
    }
}

/// The empty box: extension is a pure min/max fold from the two sentinels.
pub open spec fn empty_box() -> BoxV {
    BoxV {
        min: V3 { x: FX_MAX as int, y: FX_MAX as int, z: FX_MAX as int },
        max: V3 { x: -FX_MAX as int, y: -FX_MAX as int, z: -FX_MAX as int },
    }
}

pub open spec fn box_extend(b: BoxV, p: V3) -> BoxV {
    BoxV {
        min: V3 {
            x: fx_min_spec(b.min.x, p.x),
            y: fx_min_spec(b.min.y, p.y),
            z: fx_min_spec(b.min.z, p.z),
        },
        max: V3 {
            x: fx_max_spec(b.max.x, p.x),
            y: fx_max_spec(b.max.y, p.y),
            z: fx_max_spec(b.max.z, p.z),
        },
    }
}

pub open spec fn box_extend_tri(b: BoxV, t: crate::primitives::Triangle) -> BoxV {
    box_extend(box_extend(box_extend(b, t.point1@), t.point2@), t.point3@)
}

/// The tight box of a single triangle.
pub open spec fn tri_box(t: crate::primitives::Triangle) -> BoxV {
    box_extend_tri(empty_box(), t)
}

pub open spec fn box_contains(b: BoxV, p: V3) -> bool {
    &&& b.min.x <= p.x <= b.max.x
    &&& b.min.y <= p.y <= b.max.y
    &&& b.min.z <= p.z <= b.max.z
}

pub open spec fn box_contains_tri(b: BoxV, t: crate::primitives::Triangle) -> bool {
    box_contains(b, t.point1@) && box_contains(b, t.point2@) && box_contains(b, t.point3@)
}

/// Box coordinates representable by the slab test's exact arithmetic.
pub open spec fn box_wf(b: BoxV) -> bool {
    &&& -FX_MAX <= b.min.x <= FX_MAX
    &&& -FX_MAX <= b.min.y <= FX_MAX
    &&& -FX_MAX <= b.min.z <= FX_MAX
    &&& -FX_MAX <= b.max.x <= FX_MAX
    &&& -FX_MAX <= b.max.y <= FX_MAX
    &&& -FX_MAX <= b.max.z <= FX_MAX
}

/// One axis of the slab test: box bounds, ray origin and direction.
pub ghost struct AxisV {
    pub mn: int,
    pub mx: int,
    pub o: int,
    pub d: int,
}

pub open spec fn axis_x(b: BoxV, r: Ray) -> AxisV {
    AxisV { mn: b.min.x, mx: b.max.x, o: r.origin@.x, d: r.direction@.x }
}

pub open spec fn axis_y(b: BoxV, r: Ray) -> AxisV {
    AxisV { mn: b.min.y, mx: b.max.y, o: r.origin@.y, d: r.direction@.y }
}

pub open spec fn axis_z(b: BoxV, r: Ray) -> AxisV {
    AxisV { mn: b.min.z, mx: b.max.z, o: r.origin@.z, d: r.direction@.z }
}

/// Entry numerator of a constrained axis, over denominator `abs1(d)`.
pub open spec fn axis_lo(a: AxisV) -> int {
    if a.d > 0 {
        a.mn - a.o
    } else {
        a.o - a.mx
    }
}

/// Exit numerator of a constrained axis, over denominator `abs1(d)`.
pub open spec fn axis_hi(a: AxisV) -> int {
    if a.d > 0 {
        a.mx - a.o
    } else {
        a.o - a.mn
    }
}

/// A flat axis constrains the ray only through its origin.
pub open spec fn axis_flat_ok(a: AxisV) -> bool {
    a.d == 0 ==> a.mn <= a.o <= a.mx
}

/// The exit of a constrained axis is not behind the origin.
pub open spec fn axis_exit_ok(a: AxisV) -> bool {
    a.d != 0 ==> axis_hi(a) >= 0
}

/// No entry lies beyond this exit: `lo_a / den_a <= hi_b / den_b`.
pub open spec fn axis_pair_ok(a: AxisV, b: AxisV) -> bool {
    (a.d != 0 && b.d != 0) ==> axis_lo(a) * abs1(b.d) <= axis_hi(b) * abs1(a.d)
}

/// The exact slab test.
pub open spec fn slab_hit(b: BoxV, r: Ray) -> bool {
    let ax = axis_x(b, r);
    let ay = axis_y(b, r);
    let az = axis_z(b, r);
    &&& axis_flat_ok(ax) && axis_flat_ok(ay) && axis_flat_ok(az)
    &&& axis_exit_ok(ax) && axis_exit_ok(ay) && axis_exit_ok(az)
    &&& axis_pair_ok(ax, ax) && axis_pair_ok(ax, ay) && axis_pair_ok(ax, az)
    &&& axis_pair_ok(ay, ax) && axis_pair_ok(ay, ay) && axis_pair_ok(ay, az)
    &&& axis_pair_ok(az, ax) && axis_pair_ok(az, ay) && axis_pair_ok(az, az)
}

/// Entry, exit and denominator of one constrained axis.
fn axis_params(mn: i64, mx: i64, o: i64, d: i64) -> (r: Option<(i64, i64, i64)>)
    requires
        -FX_MAX <= mn <= FX_MAX,
        -FX_MAX <= mx <= FX_MAX,
        -(crate::fixed::GEOM_MAX as int) <= o <= crate::fixed::GEOM_MAX as int,
        -(crate::fixed::GEOM_MAX as int) <= d <= crate::fixed::GEOM_MAX as int,
    ensures
        (r is Some) == (d != 0),
        r matches Some(p) ==> ({
            let a = AxisV { mn: mn as int, mx: mx as int, o: o as int, d: d as int };
            p.0 == axis_lo(a) && p.1 == axis_hi(a) && p.2 == abs1(d as int)
        }),
{
    if d == 0 {
        None
    } else if d > 0 {
        Some((mn - o, mx - o, d))
    } else {
        Some((o - mx, o - mn, -d))
    }
}

/// `lo_a / den_a <= hi_b / den_b`, by exact cross-multiplication; a flat
/// axis imposes no constraint.
fn pair_leq(a: &Option<(i64, i64, i64)>, b: &Option<(i64, i64, i64)>) -> (r: bool)
    ensures
        r == match (*a, *b) {
            (Some(pa), Some(pb)) => pa.0 as int * pb.2 as int <= pb.1 as int * pa.2 as int,
            _ => true,
        },
{
    match (a, b) {
        (Some(pa), Some(pb)) => {
            proof {
                lemma_i64_product_fits(pa.0 as int, pb.2 as int);
                lemma_i64_product_fits(pb.1 as int, pa.2 as int);
            }
            (pa.0 as i128) * (pb.2 as i128) <= (pb.1 as i128) * (pa.2 as i128)
        },
        _ => true,
    }
}

impl AlignedBox3d {
    /// The empty box, from which `extend` folds min and max.
    pub fn default() -> (r: AlignedBox3d)
        ensures
            r@ == empty_box(),
    {
        AlignedBox3d {
            min: Vec3 { x: FX_MAX, y: FX_MAX, z: FX_MAX },
            max: Vec3 { x: -FX_MAX, y: -FX_MAX, z: -FX_MAX },
        }
    }

    pub fn new(min: Vec3, max: Vec3) -> (r: AlignedBox3d)
        ensures
            r.min == min,
            r.max == max,
    {
        AlignedBox3d { min, max }
    }

    /// Grow the box to include a point.
    pub fn extend(&mut self, point: Vec3)
        ensures
            final(self)@ == box_extend(old(self)@, point@),
    {
        self.min = Vec3 {
            x: fx_min(self.min.x, point.x),
            y: fx_min(self.min.y, point.y),
            z: fx_min(self.min.z, point.z),
        };
        self.max = Vec3 {
            x: fx_max(self.max.x, point.x),
            y: fx_max(self.max.y, point.y),
            z: fx_max(self.max.z, point.z),
        };
    }

    /// Grow the box to include all three vertices.
    pub fn extend_triangle(&mut self, triangle: &crate::primitives::Triangle)
        ensures
            final(self)@ == box_extend_tri(old(self)@, *triangle),
    {
        self.extend(triangle.point1);
        self.extend(triangle.point2);
        self.extend(triangle.point3);
    }

    /// Inclusive point containment.
    pub fn contains(&self, point: Vec3) -> (r: bool)
        ensures
            r == box_contains(self@, point@),
    {
        self.min.x <= point.x && point.x <= self.max.x && self.min.y <= point.y && point.y
            <= self.max.y && self.min.z <= point.z && point.z <= self.max.z
    }

    /// The exact slab test against a ray.
    pub fn intersects(&self, ray: &Ray) -> (r: bool)
        requires
            box_wf(self@),
            ray.valid(),
        ensures
            r == slab_hit(self@, *ray),
    {
        if ray.direction.x == 0 && !(self.min.x <= ray.origin.x && ray.origin.x <= self.max.x) {
            return false;
        }
        if ray.direction.y == 0 && !(self.min.y <= ray.origin.y && ray.origin.y <= self.max.y) {
            return false;
        }
        if ray.direction.z == 0 && !(self.min.z <= ray.origin.z && ray.origin.z <= self.max.z) {
            return false;
        }
        let px = axis_params(self.min.x, self.max.x, ray.origin.x, ray.direction.x);
        let py = axis_params(self.min.y, self.max.y, ray.origin.y, ray.direction.y);
        let pz = axis_params(self.min.z, self.max.z, ray.origin.z, ray.direction.z);
        if let Some(p) = px {
            if p.1 < 0 {
                return false;
            }
        }
        if let Some(p) = py {
            if p.1 < 0 {
                return false;
            }
        }
        if let Some(p) = pz {
            if p.1 < 0 {
                return false;
            }
        }
        pair_leq(&px, &px) && pair_leq(&px, &py) && pair_leq(&px, &pz) && pair_leq(&py, &px)
            && pair_leq(&py, &py) && pair_leq(&py, &pz) && pair_leq(&pz, &px) && pair_leq(
            &pz,
            &py,
        ) && pair_leq(&pz, &pz)
    }
}

/// Extending a box keeps every point it already contains.
pub proof fn lemma_extend_keeps(b: BoxV, p: V3, q: V3)
    requires
        box_contains(b, q),
    ensures
        box_contains(box_extend(b, p), q),
{
}

/// Extending a box by a point makes it contain that point.
pub proof fn lemma_extend_adds(b: BoxV, p: V3)
    ensures
        box_contains(box_extend(b, p), p),
{
}

/// Extending a box by a triangle keeps every triangle it already contains.
pub proof fn lemma_extend_tri_keeps_tri(b: BoxV, t2: crate::primitives::Triangle, t: crate::primitives::Triangle)
    requires
        box_contains_tri(b, t),
    ensures
        box_contains_tri(box_extend_tri(b, t2), t),
{
    lemma_extend_keeps(b, t2.point1@, t.point1@);
    lemma_extend_keeps(box_extend(b, t2.point1@), t2.point2@, t.point1@);
    lemma_extend_keeps(box_extend(box_extend(b, t2.point1@), t2.point2@), t2.point3@, t.point1@);
    lemma_extend_keeps(b, t2.point1@, t.point2@);
    lemma_extend_keeps(box_extend(b, t2.point1@), t2.point2@, t.point2@);
    lemma_extend_keeps(box_extend(box_extend(b, t2.point1@), t2.point2@), t2.point3@, t.point2@);
    lemma_extend_keeps(b, t2.point1@, t.point3@);
    lemma_extend_keeps(box_extend(b, t2.point1@), t2.point2@, t.point3@);
    lemma_extend_keeps(box_extend(box_extend(b, t2.point1@), t2.point2@), t2.point3@, t.point3@);
}

/// Extending a box by a triangle makes it contain that triangle.
pub proof fn lemma_extend_tri_adds(b: BoxV, t: crate::primitives::Triangle)
    ensures
        box_contains_tri(box_extend_tri(b, t), t),
{
    let b1 = box_extend(b, t.point1@);
    let b2 = box_extend(b1, t.point2@);
    lemma_extend_adds(b, t.point1@);
    lemma_extend_keeps(b1, t.point2@, t.point1@);
    lemma_extend_keeps(b2, t.point3@, t.point1@);
    lemma_extend_adds(b1, t.point2@);
    lemma_extend_keeps(b2, t.point3@, t.point2@);
    lemma_extend_adds(b2, t.point3@);
}

/// A triangle's own box contains it.
pub proof fn lemma_tri_box_contains(t: crate::primitives::Triangle)
    ensures
        box_contains_tri(tri_box(t), t),
{
    lemma_extend_tri_adds(empty_box(), t);
}

/// Extending a well-formed box by an in-range triangle keeps it well formed.
pub proof fn lemma_extend_tri_wf(b: BoxV, t: crate::primitives::Triangle)
    requires
        box_wf(b),
        t.valid(),
    ensures
        box_wf(box_extend_tri(b, t)),
{
}

/// One node of the hierarchy's arena: a leaf owns one triangle index, an
/// internal node owns two child indices.
pub struct AABBNode {
    pub bbox: AlignedBox3d,
    pub left: Option<usize>,
    pub right: Option<usize>,
    pub object_idx: Option<usize>,
}

impl AABBNode {
    pub fn new(
        bbox: AlignedBox3d,
        left: Option<usize>,
        right: Option<usize>,
        object_idx: Option<usize>,
    ) -> (r: AABBNode)
        ensures
            r.bbox == bbox,
            r.left == left,
            r.right == right,
            r.object_idx == object_idx,
    {
        AABBNode { bbox, left, right, object_idx }
    }
}

/// Triangle indices of the leaves below node `i`, in tree order.
pub open spec fn subtree_tris(nodes: Seq<AABBNode>, i: int) -> Seq<int>
    decreases i,
{
    if 0 <= i < nodes.len() {
        match nodes[i].object_idx {
            Some(k) => seq![k as int],
            None => match (nodes[i].left, nodes[i].right) {
                (Some(l), Some(r)) => {
                    if l < i && r < i {
                        subtree_tris(nodes, l as int) + subtree_tris(nodes, r as int)
                    } else {
                        Seq::empty()
                    }
                },
                _ => Seq::empty(),
            },
        }
    } else {
        Seq::empty()
    }
}

/// Number of leaves below node `i`.
pub open spec fn leaf_count(nodes: Seq<AABBNode>, i: int) -> int
    decreases i,
{
    if 0 <= i < nodes.len() {
        match nodes[i].object_idx {
            Some(k) => 1,
            None => match (nodes[i].left, nodes[i].right) {
                (Some(l), Some(r)) => {
                    if l < i && r < i {
                        leaf_count(nodes, l as int) + leaf_count(nodes, r as int)
                    } else {
                        0
                    }
                },
                _ => 0,
            },
        }
    } else {
        0
    }
}

/// Number of internal nodes below node `i`.
pub open spec fn internal_count(nodes: Seq<AABBNode>, i: int) -> int
    decreases i,
{
    if 0 <= i < nodes.len() {
        match nodes[i].object_idx {
            Some(k) => 0,
            None => match (nodes[i].left, nodes[i].right) {
                (Some(l), Some(r)) => {
                    if l < i && r < i {
                        1 + internal_count(nodes, l as int) + internal_count(nodes, r as int)
                    } else {
                        0
                    }
                },
                _ => 0,
            },
        }
    } else {
        0
    }
}

/// Total number of nodes below (and including) node `i`.
pub open spec fn node_count(nodes: Seq<AABBNode>, i: int) -> int {
    leaf_count(nodes, i) + internal_count(nodes, i)
}

/// A well-formed subtree rooted at `i`: a leaf holds exactly one triangle
/// index and that triangle's tight box; an internal node holds exactly two
/// earlier children and a box containing every triangle below it.
pub open spec fn node_wf(nodes: Seq<AABBNode>, tris: Seq<crate::primitives::Triangle>, i: int) -> bool
    decreases i,
{
    &&& 0 <= i < nodes.len()
    &&& box_wf(nodes[i].bbox@)
    &&& match nodes[i].object_idx {
        Some(k) => {
            &&& nodes[i].left is None
            &&& nodes[i].right is None
            &&& (k as int) < tris.len()
            &&& nodes[i].bbox@ == tri_box(tris[k as int])
        },
        None => match (nodes[i].left, nodes[i].right) {
            (Some(l), Some(r)) => {
                &&& (l as int) < i
                &&& (r as int) < i
                &&& node_wf(nodes, tris, l as int)
                &&& node_wf(nodes, tris, r as int)
                &&& (forall|j: int|
                    0 <= j < subtree_tris(nodes, i).len() ==> {
                        let k = #[trigger] subtree_tris(nodes, i)[j];
                        0 <= k < tris.len() && box_contains_tri(nodes[i].bbox@, tris[k])
                    })
            },
            _ => false,
        },
    }
}

/// Well-formedness and leaf sequences depend only on the arena prefix up to
/// the root, so appending nodes preserves them.
pub proof fn lemma_node_frame(
    nodes1: Seq<AABBNode>,
    nodes2: Seq<AABBNode>,
    tris: Seq<crate::primitives::Triangle>,
    i: int,
)
    requires
        node_wf(nodes1, tris, i),
        nodes1.len() <= nodes2.len(),
        forall|k: int| 0 <= k < nodes1.len() ==> nodes2[k] == nodes1[k],
    ensures
        node_wf(nodes2, tris, i),
        subtree_tris(nodes2, i) == subtree_tris(nodes1, i),
    decreases i,
{
    assert(nodes2[i] == nodes1[i]);
    match nodes1[i].object_idx {
        Some(k) => {
            assert(subtree_tris(nodes2, i) == subtree_tris(nodes1, i));
        },
        None => match (nodes1[i].left, nodes1[i].right) {
            (Some(l), Some(r)) => {
                lemma_node_frame(nodes1, nodes2, tris, l as int);
                lemma_node_frame(nodes1, nodes2, tris, r as int);
                assert(subtree_tris(nodes2, i) == subtree_tris(nodes1, i));
            },
            _ => {},
        },
    }
}

/// A well-formed subtree has at least one leaf.
pub proof fn lemma_subtree_nonempty(nodes: Seq<AABBNode>, tris: Seq<crate::primitives::Triangle>, i: int)
    requires
        node_wf(nodes, tris, i),
    ensures
        subtree_tris(nodes, i).len() >= 1,
    decreases i,
{
    match nodes[i].object_idx {
        Some(k) => {},
        None => match (nodes[i].left, nodes[i].right) {
            (Some(l), Some(r)) => {
                lemma_subtree_nonempty(nodes, tris, l as int);
            },
            _ => {},
        },
    }
}

/// A well-formed subtree over `n` leaves has exactly `n - 1` internal nodes.
pub proof fn lemma_subtree_counts(nodes: Seq<AABBNode>, tris: Seq<crate::primitives::Triangle>, i: int)
    requires
        node_wf(nodes, tris, i),
    ensures
        leaf_count(nodes, i) == subtree_tris(nodes, i).len(),
        internal_count(nodes, i) == leaf_count(nodes, i) - 1,
    decreases i,
{
    match nodes[i].object_idx {
        Some(k) => {},
        None => match (nodes[i].left, nodes[i].right) {
            (Some(l), Some(r)) => {
                lemma_subtree_counts(nodes, tris, l as int);
                lemma_subtree_counts(nodes, tris, r as int);
            },
            _ => {},
        },
    }
}

/// Every triangle below a well-formed node lies inside that node's box.
pub proof fn lemma_subtree_contained(
    nodes: Seq<AABBNode>,
    tris: Seq<crate::primitives::Triangle>,
    i: int,
    j: int,
)
    requires
        node_wf(nodes, tris, i),
        0 <= j < subtree_tris(nodes, i).len(),
    ensures
        0 <= subtree_tris(nodes, i)[j] < tris.len(),
        box_contains_tri(nodes[i].bbox@, tris[subtree_tris(nodes, i)[j]]),
{
    match nodes[i].object_idx {
        Some(k) => {
            lemma_tri_box_contains(tris[k as int]);
        },
        None => {},
    }
}

/// A bounding-volume hierarchy: an arena of nodes and the index of the root.
pub struct BVH {
    pub nodes: Vec<AABBNode>,
    pub root: usize,
}

impl BVH {
    /// Built once over the given triangles: a well-formed tree whose leaves
    /// enumerate exactly the triangle indices `0 .. n`.
    pub open spec fn wf(&self, tris: Seq<crate::primitives::Triangle>) -> bool {
        &&& (self.root as int) < self.nodes@.len()
        &&& node_wf(self.nodes@, tris, self.root as int)
        &&& subtree_tris(self.nodes@, self.root as int) == Seq::new(tris.len(), |i: int| i)
    }

    pub fn new(triangles: &Vec<Triangle>) -> (r: BVH)
        requires
            triangles@.len() >= 1,
            forall|k: int| 0 <= k < triangles@.len() ==> (#[trigger] triangles@[k]).valid(),
        ensures
            r.wf(triangles@),
            r.nodes@.len() == 2 * triangles@.len() - 1,
    {
        let n = triangles.len();
        let mut triangle_indices: Vec<usize> = Vec::new();
        let mut k: usize = 0;
        while k < n
            invariant
                k <= n,
                n == triangles@.len(),
                triangle_indices@.len() == k,
                forall|j: int| 0 <= j < k ==> triangle_indices@[j] == j,
            decreases n - k,
        {
            triangle_indices.push(k);
            k = k + 1;
        }
        let mut nodes: Vec<AABBNode> = Vec::new();
        let root = Self::create_node(triangles, triangle_indices, &mut nodes);
        proof {
            assert(subtree_tris(nodes@, root as int) =~= Seq::new(triangles@.len(), |i: int| i));
        }
        BVH { nodes, root }
    }

    /// Recursive builder: one leaf per index, otherwise split the index list
    /// in half in its current order and build both subtrees.
    fn create_node(
        triangles: &Vec<Triangle>,
        triangle_indices: Vec<usize>,
        nodes: &mut Vec<AABBNode>,
    ) -> (root: usize)
        requires
            triangle_indices@.len() >= 1,
            forall|k: int|
                0 <= k < triangle_indices@.len() ==> (#[trigger] triangle_indices@[k] as int)
                    < triangles@.len(),
            forall|k: int| 0 <= k < triangles@.len() ==> (#[trigger] triangles@[k]).valid(),
        ensures
            final(nodes)@.len() == old(nodes)@.len() + 2 * triangle_indices@.len() - 1,
            forall|k: int| 0 <= k < old(nodes)@.len() ==> final(nodes)@[k] == old(nodes)@[k],
            root as int == final(nodes)@.len() - 1,
            node_wf(final(nodes)@, triangles@, root as int),
            subtree_tris(final(nodes)@, root as int) == triangle_indices@.map_values(
                |u: usize| u as int,
            ),
        decreases triangle_indices@.len(),
    {
        let n = triangle_indices.len();
        if n == 1 {
            let idx = triangle_indices[0];
            let mut bbox = AlignedBox3d::default();
            bbox.extend_triangle(&triangles[idx]);
            proof {
                lemma_extend_tri_wf(empty_box(), triangles@[idx as int]);
            }
            nodes.push(AABBNode::new(bbox, None, None, Some(idx)));
            let root = nodes.len() - 1;
            proof {
                assert(subtree_tris(nodes@, root as int) =~= triangle_indices@.map_values(
                    |u: usize| u as int,
                ));
            }
            return root;
        }
        let mut bbox = AlignedBox3d::default();
        let mut k: usize = 0;
        while k < n
            invariant
                k <= n,
                n == triangle_indices@.len(),
                forall|j: int|
                    0 <= j < triangle_indices@.len() ==> (#[trigger] triangle_indices@[j] as int)
                        < triangles@.len(),
                forall|j: int| 0 <= j < triangles@.len() ==> (#[trigger] triangles@[j]).valid(),
                box_wf(bbox@),
                forall|j: int|
                    0 <= j < k ==> box_contains_tri(
                        bbox@,
                        #[trigger] triangles@[triangle_indices@[j] as int],
                    ),
            decreases n - k,
        {
            let ghost prev = bbox@;
            let t = &triangles[triangle_indices[k]];
            bbox.extend_triangle(t);
            proof {
                lemma_extend_tri_wf(prev, *t);
                lemma_extend_tri_adds(prev, *t);
                assert forall|j: int| 0 <= j < k + 1 implies box_contains_tri(
                    bbox@,
                    #[trigger] triangles@[triangle_indices@[j] as int],
                ) by {
                    if j < k {
                        lemma_extend_tri_keeps_tri(prev, *t, triangles@[triangle_indices@[j] as int]);
                    }
                }
            }
            k = k + 1;
        }
        let mid = n / 2;
        let mut left_idx: Vec<usize> = Vec::new();
        let mut i: usize = 0;
        while i < mid
            invariant
                i <= mid,
                mid < n,
                n == triangle_indices@.len(),
                left_idx@ == triangle_indices@.subrange(0, i as int),
            decreases mid - i,
        {
            left_idx.push(triangle_indices[i]);
            proof {
                assert(left_idx@ =~= triangle_indices@.subrange(0, i + 1));
            }
            i = i + 1;
        }
        let mut right_idx: Vec<usize> = Vec::new();
        let mut i: usize = mid;
        while i < n
            invariant
                mid <= i <= n,
                n == triangle_indices@.len(),
                right_idx@ == triangle_indices@.subrange(mid as int, i as int),
            decreases n - i,
        {
            right_idx.push(triangle_indices[i]);
            proof {
                assert(right_idx@ =~= triangle_indices@.subrange(mid as int, i + 1));
            }
            i = i + 1;
        }
        let ghost full_map = triangle_indices@.map_values(|u: usize| u as int);
        let ghost left_map = left_idx@.map_values(|u: usize| u as int);
        let ghost right_map = right_idx@.map_values(|u: usize| u as int);
        let left_root = Self::create_node(triangles, left_idx, nodes);
        let ghost nodes1 = nodes@;
        let right_root = Self::create_node(triangles, right_idx, nodes);
        proof {
            lemma_node_frame(nodes1, nodes@, triangles@, left_root as int);
        }
        let ghost nodes2 = nodes@;
        nodes.push(AABBNode::new(bbox, Some(left_root), Some(right_root), None));
        let root = nodes.len() - 1;
        proof {
            lemma_node_frame(nodes2, nodes@, triangles@, left_root as int);
            lemma_node_frame(nodes2, nodes@, triangles@, right_root as int);
            assert(subtree_tris(nodes@, root as int) == left_map + right_map);
            assert(left_map + right_map =~= full_map);
            assert forall|j: int| 0 <= j < subtree_tris(nodes@, root as int).len() implies {
                let kk = #[trigger] subtree_tris(nodes@, root as int)[j];
                0 <= kk < triangles@.len() && box_contains_tri(nodes@[root as int].bbox@, triangles@[kk])
            } by {
                assert(subtree_tris(nodes@, root as int)[j] == full_map[j]);
                assert(full_map[j] == triangle_indices@[j] as int);
                assert(box_contains_tri(bbox@, triangles@[triangle_indices@[j] as int]));
            }
            assert(node_wf(nodes@, triangles@, root as int));
        }
        root
    }
}

/// A well-formed hierarchy over `n` triangles has exactly `n` leaves and
/// `n - 1` internal nodes, and its root box contains every input vertex.
pub proof fn theorem_bvh_shape(b: &BVH, tris: Seq<crate::primitives::Triangle>)
    requires
        b.wf(tris),
    ensures
        leaf_count(b.nodes@, b.root as int) == tris.len(),
        internal_count(b.nodes@, b.root as int) == tris.len() - 1,
        forall|k: int|
            0 <= k < tris.len() ==> box_contains_tri(
                b.nodes@[b.root as int].bbox@,
                #[trigger] tris[k],
            ),
{
    lemma_subtree_counts(b.nodes@, tris, b.root as int);
    assert forall|k: int| 0 <= k < tris.len() implies box_contains_tri(
        b.nodes@[b.root as int].bbox@,
        #[trigger] tris[k],
    ) by {
        assert(subtree_tris(b.nodes@, b.root as int)[k] == k);
        lemma_subtree_contained(b.nodes@, tris, b.root as int, k);
    }
}

/// A hierarchy built over a single triangle is one leaf whose box is that
/// triangle's own tight box.
pub proof fn theorem_bvh_single(b: &BVH, tris: Seq<crate::primitives::Triangle>)
    requires
        b.wf(tris),
        tris.len() == 1,
    ensures
        b.nodes@[b.root as int].object_idx == Some(0usize),
        b.nodes@[b.root as int].left is None,
        b.nodes@[b.root as int].right is None,
        b.nodes@[b.root as int].bbox@ == tri_box(tris[0]),
{
    let nodes = b.nodes@;
    let i = b.root as int;
    match nodes[i].object_idx {
        Some(k) => {
            assert(subtree_tris(nodes, i) == seq![k as int]);
            assert(subtree_tris(nodes, i)[0] == 0);
        },
        None => {
            match (nodes[i].left, nodes[i].right) {
                (Some(l), Some(r)) => {
                    lemma_subtree_nonempty(nodes, tris, l as int);
                    lemma_subtree_nonempty(nodes, tris, r as int);
                    assert(subtree_tris(nodes, i).len() >= 2);
                },
                _ => {},
            }
        },
    }
}

} // verus!

verus! {
/// Scalar triple products are invariant under cyclic rotation:
/// `p . (q x r) == r . (p x q)`, written out over the components.
proof fn lemma_triple_cyclic(
    px: int, py: int, pz: int,
    qx: int, qy: int, qz: int,
    rx: int, ry: int, rz: int,
)
    ensures
        px * (qy * rz - qz * ry) + py * (qz * rx - qx * rz) + pz * (qx * ry - qy * rx) == rx * (py
            * qz - pz * qy) + ry * (pz * qx - px * qz) + rz * (px * qy - py * qx),
{
    broadcast use vstd::arithmetic::mul::group_mul_properties;
}

/// With `U = c2 x d`, `V = d x c1`, `W = c1 x c2`: the x-components
/// combined over the x-selector give the determinant.
proof fn lemma_dual_basis_xx(
    c1x: int, c1y: int, c1z: int,
    c2x: int, c2y: int, c2z: int,
    dx: int, dy: int, dz: int,
)
    ensures
        (c2y * dz - c2z * dy) * c1x + (dy * c1z - dz * c1y) * c2x + (c1y * c2z - c1z * c2y) * dx
            == c1x * (c2y * dz - c2z * dy) + c1y * (c2z * dx - c2x * dz) + c1z * (c2x * dy - c2y
            * dx),
{
    broadcast use vstd::arithmetic::mul::group_mul_properties;
}

/// The y-components combined over the x-selector cancel.
proof fn lemma_dual_basis_yx(
    c1x: int, c1y: int, c1z: int,
    c2x: int, c2y: int, c2z: int,
    dx: int, dy: int, dz: int,
)
    ensures
        (c2z * dx - c2x * dz) * c1x + (dz * c1x - dx * c1z) * c2x + (c1z * c2x - c1x * c2z) * dx
            == 0,
{
    broadcast use vstd::arithmetic::mul::group_mul_properties;
}

/// The z-components combined over the x-selector cancel.
proof fn lemma_dual_basis_zx(
    c1x: int, c1y: int, c1z: int,
    c2x: int, c2y: int, c2z: int,
    dx: int, dy: int, dz: int,
)
    ensures
        (c2x * dy - c2y * dx) * c1x + (dx * c1y - dy * c1x) * c2x + (c1x * c2y - c1y * c2x) * dx
            == 0,
{
    broadcast use vstd::arithmetic::mul::group_mul_properties;
}

/// Distribute three dot products over a common selector triple.
proof fn lemma_dot_assemble(
    bx: int, by: int, bz: int,
    ux: int, uy: int, uz: int,
    vx: int, vy: int, vz: int,
    wx: int, wy: int, wz: int,
    c1a: int, c2a: int, da: int,
    r1: int, r2: int, r3: int,
)
    requires
        ux * c1a + vx * c2a + wx * da == r1,
        uy * c1a + vy * c2a + wy * da == r2,
        uz * c1a + vz * c2a + wz * da == r3,
    ensures
        (bx * ux + by * uy + bz * uz) * c1a + (bx * vx + by * vy + bz * vz) * c2a + (bx * wx + by
            * wy + bz * wz) * da == bx * r1 + by * r2 + bz * r3,
{
    broadcast use vstd::arithmetic::mul::group_mul_properties;
}


/// Cramer's rule as a polynomial identity: the three column determinants
/// reassemble the right-hand side, componentwise.
pub proof fn lemma_cramer(c1: V3, c2: V3, d: V3, b: V3)
    ensures
        det3(c1, c2, d) * b.x == det3(b, c2, d) * c1.x + det3(c1, b, d) * c2.x + det3(c1, c2, b)
            * d.x,
        det3(c1, c2, d) * b.y == det3(b, c2, d) * c1.y + det3(c1, b, d) * c2.y + det3(c1, c2, b)
            * d.y,
        det3(c1, c2, d) * b.z == det3(b, c2, d) * c1.z + det3(c1, b, d) * c2.z + det3(c1, c2, b)
            * d.z,
{
    let u = crate::vec3::v3_cross_exact(c2, d);
    let v = crate::vec3::v3_cross_exact(d, c1);
    let w = crate::vec3::v3_cross_exact(c1, c2);
    let det = det3(c1, c2, d);
    lemma_triple_cyclic(c1.x, c1.y, c1.z, b.x, b.y, b.z, d.x, d.y, d.z);
    lemma_triple_cyclic(d.x, d.y, d.z, c1.x, c1.y, c1.z, b.x, b.y, b.z);
    assert(det3(c1, b, d) == crate::vec3::v3_dot_exact(b, v));
    lemma_triple_cyclic(c1.x, c1.y, c1.z, c2.x, c2.y, c2.z, b.x, b.y, b.z);
    assert(det3(c1, c2, b) == crate::vec3::v3_dot_exact(b, w));
    assert(det3(b, c2, d) == crate::vec3::v3_dot_exact(b, u));

    lemma_dual_basis_xx(c1.x, c1.y, c1.z, c2.x, c2.y, c2.z, d.x, d.y, d.z);
    lemma_dual_basis_yx(c1.x, c1.y, c1.z, c2.x, c2.y, c2.z, d.x, d.y, d.z);
    lemma_dual_basis_zx(c1.x, c1.y, c1.z, c2.x, c2.y, c2.z, d.x, d.y, d.z);
    assert(u.x * c1.x + v.x * c2.x + w.x * d.x == det);
    assert(u.y * c1.x + v.y * c2.x + w.y * d.x == 0);
    assert(u.z * c1.x + v.z * c2.x + w.z * d.x == 0);
    lemma_dot_assemble(
        b.x, b.y, b.z, u.x, u.y, u.z, v.x, v.y, v.z, w.x, w.y, w.z, c1.x, c2.x, d.x, det, 0, 0);
    vstd::arithmetic::mul::lemma_mul_is_commutative(det, b.x);

    lemma_dual_basis_xx(c1.y, c1.z, c1.x, c2.y, c2.z, c2.x, d.y, d.z, d.x);
    lemma_dual_basis_yx(c1.y, c1.z, c1.x, c2.y, c2.z, c2.x, d.y, d.z, d.x);
    lemma_dual_basis_zx(c1.y, c1.z, c1.x, c2.y, c2.z, c2.x, d.y, d.z, d.x);
    assert(u.x * c1.y + v.x * c2.y + w.x * d.y == 0);
    assert(u.y * c1.y + v.y * c2.y + w.y * d.y == det);
    assert(u.z * c1.y + v.z * c2.y + w.z * d.y == 0);
    lemma_dot_assemble(
        b.x, b.y, b.z, u.x, u.y, u.z, v.x, v.y, v.z, w.x, w.y, w.z, c1.y, c2.y, d.y, 0, det, 0);
    vstd::arithmetic::mul::lemma_mul_is_commutative(det, b.y);

    lemma_dual_basis_xx(c1.z, c1.x, c1.y, c2.z, c2.x, c2.y, d.z, d.x, d.y);
    lemma_dual_basis_yx(c1.z, c1.x, c1.y, c2.z, c2.x, c2.y, d.z, d.x, d.y);
    lemma_dual_basis_zx(c1.z, c1.x, c1.y, c2.z, c2.x, c2.y, d.z, d.x, d.y);
    assert(u.x * c1.z + v.x * c2.z + w.x * d.z == 0);
    assert(u.y * c1.z + v.y * c2.z + w.y * d.z == 0);
    assert(u.z * c1.z + v.z * c2.z + w.z * d.z == det);
    lemma_dot_assemble(
        b.x, b.y, b.z, u.x, u.y, u.z, v.x, v.y, v.z, w.x, w.y, w.z, c1.z, c2.z, d.z, 0, 0, det);
    vstd::arithmetic::mul::lemma_mul_is_commutative(det, b.z);
}

/// One axis of a ray point known between the scaled box bounds: the slab
/// entry and exit fractions bracket the parameter.
proof fn lemma_axis_scaled(mn: int, mx: int, o: int, d: int, t: int, dd: int)
    requires
        dd > 0,
        t >= 0,
        mn * dd <= o * dd + t * d,
        o * dd + t * d <= mx * dd,
    ensures
        d == 0 ==> mn <= o && o <= mx,
        d > 0 ==> (mn - o) * dd <= t * d && t * d <= (mx - o) * dd && mx - o >= 0,
        d < 0 ==> (o - mx) * dd <= t * (-d) && t * (-d) <= (o - mn) * dd && o - mn >= 0,
{
    if d == 0 {
        vstd::arithmetic::mul::lemma_mul_basics(t);
        vstd::arithmetic::mul::lemma_mul_inequality_converse(mn, o, dd);
        vstd::arithmetic::mul::lemma_mul_inequality_converse(o, mx, dd);
    } else if d > 0 {
        vstd::arithmetic::mul::lemma_mul_is_distributive_sub_other_way(dd, mn, o);
        vstd::arithmetic::mul::lemma_mul_is_distributive_sub_other_way(dd, mx, o);
        vstd::arithmetic::mul::lemma_mul_nonnegative(t, d);
        vstd::arithmetic::mul::lemma_mul_basics(dd);
        vstd::arithmetic::mul::lemma_mul_inequality_converse(0, mx - o, dd);
    } else {
        vstd::arithmetic::mul::lemma_mul_unary_negation(t, d);
        vstd::arithmetic::mul::lemma_mul_is_distributive_sub_other_way(dd, o, mx);
        vstd::arithmetic::mul::lemma_mul_is_distributive_sub_other_way(dd, o, mn);
        vstd::arithmetic::mul::lemma_mul_nonnegative(t, -d);
        vstd::arithmetic::mul::lemma_mul_basics(dd);
        vstd::arithmetic::mul::lemma_mul_inequality_converse(0, o - mn, dd);
    }
}

/// Cross-multiplied comparison of two slab fractions bracketing the same
/// parameter: the entry of one axis cannot pass the exit of another.
proof fn lemma_pair_cross(lo_a: int, den_a: int, hi_b: int, den_b: int, t: int, dd: int)
    requires
        dd > 0,
        den_a > 0,
        den_b > 0,
        lo_a * dd <= t * den_a,
        t * den_b <= hi_b * dd,
    ensures
        lo_a * den_b <= hi_b * den_a,
{
    vstd::arithmetic::mul::lemma_mul_inequality(lo_a * dd, t * den_a, den_b);
    vstd::arithmetic::mul::lemma_mul_inequality(t * den_b, hi_b * dd, den_a);
    vstd::arithmetic::mul::lemma_mul_is_associative(lo_a, dd, den_b);
    vstd::arithmetic::mul::lemma_mul_is_commutative(dd, den_b);
    vstd::arithmetic::mul::lemma_mul_is_associative(lo_a, den_b, dd);
    vstd::arithmetic::mul::lemma_mul_is_associative(t, den_a, den_b);
    vstd::arithmetic::mul::lemma_mul_is_commutative(den_a, den_b);
    vstd::arithmetic::mul::lemma_mul_is_associative(t, den_b, den_a);
    vstd::arithmetic::mul::lemma_mul_is_associative(hi_b, dd, den_a);
    vstd::arithmetic::mul::lemma_mul_is_commutative(dd, den_a);
    vstd::arithmetic::mul::lemma_mul_is_associative(hi_b, den_a, dd);
    vstd::arithmetic::mul::lemma_mul_inequality_converse(lo_a * den_b, hi_b * den_a, dd);
}

/// A convex combination of three bounded coordinates stays between the
/// scaled bounds.
proof fn lemma_convex_axis(
    p1: int, p2: int, p3: int, o: int, d: int, mn: int, mx: int,
    dd: int, u: int, v: int, t: int,
)
    requires
        mn <= p1 <= mx,
        mn <= p2 <= mx,
        mn <= p3 <= mx,
        0 <= u,
        0 <= v,
        u + v < dd,
        dd * (p1 - o) == u * (p1 - p2) + v * (p1 - p3) + t * d,
    ensures
        mn * dd <= o * dd + t * d,
        o * dd + t * d <= mx * dd,
{
    let w1 = dd - u - v;
    vstd::arithmetic::mul::lemma_mul_is_distributive_sub(dd, p1, o);
    vstd::arithmetic::mul::lemma_mul_is_distributive_sub(u, p1, p2);
    vstd::arithmetic::mul::lemma_mul_is_distributive_sub(v, p1, p3);
    vstd::arithmetic::mul::lemma_mul_is_commutative(dd, o);
    vstd::arithmetic::mul::lemma_mul_is_distributive_sub_other_way(p1, dd - u, v);
    vstd::arithmetic::mul::lemma_mul_is_distributive_sub_other_way(p1, dd, u);
    assert(o * dd + t * d == w1 * p1 + u * p2 + v * p3);
    vstd::arithmetic::mul::lemma_mul_is_commutative(w1, p1);
    vstd::arithmetic::mul::lemma_mul_is_commutative(u, p2);
    vstd::arithmetic::mul::lemma_mul_is_commutative(v, p3);
    vstd::arithmetic::mul::lemma_mul_inequality(mn, p1, w1);
    vstd::arithmetic::mul::lemma_mul_inequality(mn, p2, u);
    vstd::arithmetic::mul::lemma_mul_inequality(mn, p3, v);
    vstd::arithmetic::mul::lemma_mul_inequality(p1, mx, w1);
    vstd::arithmetic::mul::lemma_mul_inequality(p2, mx, u);
    vstd::arithmetic::mul::lemma_mul_inequality(p3, mx, v);
    vstd::arithmetic::mul::lemma_mul_is_distributive_add(mn, w1 + u, v);
    vstd::arithmetic::mul::lemma_mul_is_distributive_add(mn, w1, u);
    vstd::arithmetic::mul::lemma_mul_is_distributive_add(mx, w1 + u, v);
    vstd::arithmetic::mul::lemma_mul_is_distributive_add(mx, w1, u);
    vstd::arithmetic::mul::lemma_mul_is_commutative(mn, dd);
    vstd::arithmetic::mul::lemma_mul_is_commutative(mx, dd);
    assert(mn * (w1 + u + v) == mn * w1 + mn * u + mn * v);
    assert(mx * (w1 + u + v) == mx * w1 + mx * u + mx * v);
}

/// A ray parameter `t / dd >= 0` whose point stays between the scaled box
/// bounds on every axis passes the slab test.
pub proof fn lemma_slab_of_scaled(b: BoxV, r: Ray, t: int, dd: int)
    requires
        dd > 0,
        t >= 0,
        b.min.x * dd <= r.origin@.x * dd + t * r.direction@.x,
        r.origin@.x * dd + t * r.direction@.x <= b.max.x * dd,
        b.min.y * dd <= r.origin@.y * dd + t * r.direction@.y,
        r.origin@.y * dd + t * r.direction@.y <= b.max.y * dd,
        b.min.z * dd <= r.origin@.z * dd + t * r.direction@.z,
        r.origin@.z * dd + t * r.direction@.z <= b.max.z * dd,
    ensures
        slab_hit(b, r),
{
    let ax = axis_x(b, r);
    let ay = axis_y(b, r);
    let az = axis_z(b, r);
    lemma_axis_scaled(ax.mn, ax.mx, ax.o, ax.d, t, dd);
    lemma_axis_scaled(ay.mn, ay.mx, ay.o, ay.d, t, dd);
    lemma_axis_scaled(az.mn, az.mx, az.o, az.d, t, dd);
    assert(axis_pair_ok(ax, ax)) by {
        if ax.d != 0 {
            lemma_pair_cross(axis_lo(ax), abs1(ax.d), axis_hi(ax), abs1(ax.d), t, dd);
        }
    }
    assert(axis_pair_ok(ax, ay)) by {
        if ax.d != 0 && ay.d != 0 {
            lemma_pair_cross(axis_lo(ax), abs1(ax.d), axis_hi(ay), abs1(ay.d), t, dd);
        }
    }
    assert(axis_pair_ok(ax, az)) by {
        if ax.d != 0 && az.d != 0 {
            lemma_pair_cross(axis_lo(ax), abs1(ax.d), axis_hi(az), abs1(az.d), t, dd);
        }
    }
    assert(axis_pair_ok(ay, ax)) by {
        if ay.d != 0 && ax.d != 0 {
            lemma_pair_cross(axis_lo(ay), abs1(ay.d), axis_hi(ax), abs1(ax.d), t, dd);
        }
    }
    assert(axis_pair_ok(ay, ay)) by {
        if ay.d != 0 {
            lemma_pair_cross(axis_lo(ay), abs1(ay.d), axis_hi(ay), abs1(ay.d), t, dd);
        }
    }
    assert(axis_pair_ok(ay, az)) by {
        if ay.d != 0 && az.d != 0 {
            lemma_pair_cross(axis_lo(ay), abs1(ay.d), axis_hi(az), abs1(az.d), t, dd);
        }
    }
    assert(axis_pair_ok(az, ax)) by {
        if az.d != 0 && ax.d != 0 {
            lemma_pair_cross(axis_lo(az), abs1(az.d), axis_hi(ax), abs1(ax.d), t, dd);
        }
    }
    assert(axis_pair_ok(az, ay)) by {
        if az.d != 0 && ay.d != 0 {
            lemma_pair_cross(axis_lo(az), abs1(az.d), axis_hi(ay), abs1(ay.d), t, dd);
        }
    }
    assert(axis_pair_ok(az, az)) by {
        if az.d != 0 {
            lemma_pair_cross(axis_lo(az), abs1(az.d), axis_hi(az), abs1(az.d), t, dd);
        }
    }
}

/// The slab test agrees with point containment: a ray that passes through a
/// contained point at a non-negative rational parameter `tn / td` reports an
/// intersection.
pub proof fn theorem_slab_contains_point(b: BoxV, r: Ray, p: V3, tn: int, td: int)
    requires
        box_contains(b, p),
        td > 0,
        tn >= 0,
        p.x * td == r.origin@.x * td + tn * r.direction@.x,
        p.y * td == r.origin@.y * td + tn * r.direction@.y,
        p.z * td == r.origin@.z * td + tn * r.direction@.z,
    ensures
        slab_hit(b, r),
{
    vstd::arithmetic::mul::lemma_mul_inequality(b.min.x, p.x, td);
    vstd::arithmetic::mul::lemma_mul_inequality(p.x, b.max.x, td);
    vstd::arithmetic::mul::lemma_mul_inequality(b.min.y, p.y, td);
    vstd::arithmetic::mul::lemma_mul_inequality(p.y, b.max.y, td);
    vstd::arithmetic::mul::lemma_mul_inequality(b.min.z, p.z, td);
    vstd::arithmetic::mul::lemma_mul_inequality(p.z, b.max.z, td);
    lemma_slab_of_scaled(b, r, tn, td);
}

/// A box that the slab test rejects contains no triangle the ray hits: the
/// justification for pruning a subtree.
pub proof fn lemma_box_reject_misses(b: BoxV, r: Ray, t: Triangle)
    requires
        box_contains_tri(b, t),
        !slab_hit(b, r),
    ensures
        !crate::primitives::tri_accepts(t, *&r),
{
    if crate::primitives::tri_accepts(t, r) {
        let p1 = t.point1@;
        let p2 = t.point2@;
        let p3 = t.point3@;
        let o = r.origin@;
        let d = r.direction@;
        let c1 = crate::vec3::v3_sub_exact(p1, p2);
        let c2 = crate::vec3::v3_sub_exact(p1, p3);
        let bb = crate::vec3::v3_sub_exact(p1, o);
        let det = crate::primitives::tri_det(t, r);
        let detu = crate::primitives::tri_det_u(t, r);
        let detv = crate::primitives::tri_det_v(t, r);
        let dett = crate::primitives::tri_det_t(t, r);
        lemma_cramer(c1, c2, d, bb);
        let sc = crate::fixed::FX_SCALE as int;
        if det > 0 {
            if dett <= 0 {
                vstd::arithmetic::mul::lemma_mul_inequality(dett, 0, sc);
                vstd::arithmetic::mul::lemma_mul_basics(sc);
                assert(false);
            }
            lemma_convex_axis(
                p1.x, p2.x, p3.x, o.x, d.x, b.min.x, b.max.x, det, detu, detv, dett);
            lemma_convex_axis(
                p1.y, p2.y, p3.y, o.y, d.y, b.min.y, b.max.y, det, detu, detv, dett);
            lemma_convex_axis(
                p1.z, p2.z, p3.z, o.z, d.z, b.min.z, b.max.z, det, detu, detv, dett);
            lemma_slab_of_scaled(b, r, dett, det);
        } else {
            if dett >= 0 {
                vstd::arithmetic::mul::lemma_mul_inequality(0, dett, sc);
                vstd::arithmetic::mul::lemma_mul_basics(sc);
                assert(false);
            }
            vstd::arithmetic::mul::lemma_mul_unary_negation(det, bb.x);
            vstd::arithmetic::mul::lemma_mul_unary_negation(detu, c1.x);
            vstd::arithmetic::mul::lemma_mul_unary_negation(detv, c2.x);
            vstd::arithmetic::mul::lemma_mul_unary_negation(dett, d.x);
            vstd::arithmetic::mul::lemma_mul_unary_negation(det, bb.y);
            vstd::arithmetic::mul::lemma_mul_unary_negation(detu, c1.y);
            vstd::arithmetic::mul::lemma_mul_unary_negation(detv, c2.y);
            vstd::arithmetic::mul::lemma_mul_unary_negation(dett, d.y);
            vstd::arithmetic::mul::lemma_mul_unary_negation(det, bb.z);
            vstd::arithmetic::mul::lemma_mul_unary_negation(detu, c1.z);
            vstd::arithmetic::mul::lemma_mul_unary_negation(detv, c2.z);
            vstd::arithmetic::mul::lemma_mul_unary_negation(dett, d.z);
            lemma_convex_axis(
                p1.x, p2.x, p3.x, o.x, d.x, b.min.x, b.max.x, -det, -detu, -detv, -dett);
            lemma_convex_axis(
                p1.y, p2.y, p3.y, o.y, d.y, b.min.y, b.max.y, -det, -detu, -detv, -dett);
            lemma_convex_axis(
                p1.z, p2.z, p3.z, o.z, d.z, b.min.z, b.max.z, -det, -detu, -detv, -dett);
            lemma_slab_of_scaled(b, r, -dett, -det);
        }
    }
}

} // verus!

