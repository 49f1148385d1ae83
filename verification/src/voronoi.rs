//! Voronoi cells from the dual faces of a triangulation: the polygon of each
//! site with its rays to infinity cut to a fixed length, and one pass of
//! Lloyd relaxation.

use vstd::prelude::*;
use crate::fixed::{
    div_floor, isqrt, lemma_prod_bound, lemma_sqrt_floor_exists, sqrt_floor, LIMIT,
};
use crate::geometry::{dot, Boundary, Vec2};

verus! {

/// The side or corner of the boundary that a clipped vertex lies on.
#[derive(Debug, Ord, PartialOrd, Eq, PartialEq, Copy, Clone)]
pub enum OuterType {
    Left,
    Top,
    Right,
    Bottom,
    TopLeftCorner,
    TopRightCorner,
    BottomRightCorner,
    BottomLeftCorner,
}

/// A vertex of a cell's polygon.
#[derive(Debug, Clone, Copy)]
pub enum VoronoiVertex {
    Inner(Vec2),
    Outer(OuterType, Vec2),
}

impl VoronoiVertex {
    /// Where the vertex lies.
    pub open spec fn point(self) -> Vec2 {
        match self {
            VoronoiVertex::Inner(p) => p,
            VoronoiVertex::Outer(_, p) => p,
        }
    }

    /// Where the vertex lies.
    pub fn position(&self) -> (result: Vec2)
        ensures
            result == self.point(),
    {
        match self {
            VoronoiVertex::Inner(p) => *p,
            VoronoiVertex::Outer(_, p) => *p,
        }
    }
}

/// A site with the closed polygon around it. Consecutive vertices are joined
/// by an edge, and the last vertex is joined to the first.
#[derive(Debug)]
pub struct VoronoiRegion {
    pub site: Vec2,
    pub vertices: Vec<VoronoiVertex>,
}

impl VoronoiRegion {
    pub fn new(site: Vec2, vertices: Vec<VoronoiVertex>) -> (result: Self)
        ensures
            result.site == site,
            result.vertices == vertices,
    {
        Self { site, vertices }
    }

    pub fn site(&self) -> (result: Vec2)
        ensures
            result == self.site,
    {
        self.site
    }

    pub fn vertices(&self) -> (result: &Vec<VoronoiVertex>)
        ensures
            result == &self.vertices,
    {
        &self.vertices
    }
}

/// A finite edge between two polygon vertices.
#[derive(Debug, Clone, Copy)]
pub struct VoronoiEdge {
    pub from: Vec2,
    pub to: Vec2,
}

/// One end of a dual edge: the circumcenter of a triangle, or, where the
/// triangulation has no triangle on that side, the direction of a ray to infinity.
#[derive(Debug, Clone, Copy)]
pub enum DualVertex {
    Inner(Vec2),
    Outer(Vec2),
}

impl DualVertex {
    /// The circumcenter, or the direction, is within the coordinate limit.
    pub open spec fn bounded(self) -> bool {
        match self {
            DualVertex::Inner(p) => p.bounded(),
            DualVertex::Outer(d) => d.bounded(),
        }
    }

    /// Tells whether the circumcenter, or the direction, is within the
    /// coordinate limit.
    pub fn is_bounded(&self) -> (result: bool)
        ensures
            result == self.bounded(),
    {
        match self {
            DualVertex::Inner(p) => p.is_bounded(),
            DualVertex::Outer(d) => d.is_bounded(),
        }
    }
}

/// An edge of the dual face of a site.
#[derive(Debug, Clone, Copy)]
pub struct DualEdge {
    pub from: DualVertex,
    pub to: DualVertex,
}

/// A site and the edges of its dual face, in one rotational order.
#[derive(Debug)]
pub struct SiteFace {
    pub site: Vec2,
    pub edges: Vec<DualEdge>,
}

impl SiteFace {
    /// Every coordinate of the face is within the coordinate limit.
    pub open spec fn wf(self) -> bool {
        &&& self.site.bounded()
        &&& forall|j: int|
            0 <= j < self.edges@.len() ==> (#[trigger] self.edges@[j]).from.bounded()
                && self.edges@[j].to.bounded()
    }
}

/// Every face of the list is well formed.
pub open spec fn faces_wf(faces: Seq<SiteFace>) -> bool {
    forall|i: int| 0 <= i < faces.len() ==> (#[trigger] faces[i]).wf()
}

/// Tells whether the face is well formed.
pub fn check_face(face: &SiteFace) -> (result: bool)
    ensures
        result == face.wf(),
{
    if !face.site.is_bounded() {
        return false;
    }
    let mut j: usize = 0;
    while j < face.edges.len()
        invariant
            0 <= j <= face.edges@.len(),
            forall|k: int|
                0 <= k < j ==> (#[trigger] face.edges@[k]).from.bounded()
                    && face.edges@[k].to.bounded(),
        decreases face.edges@.len() - j,
    {
        if !(face.edges[j].from.is_bounded() && face.edges[j].to.is_bounded()) {
            return false;
        }
        j = j + 1;
    }
    true
}

/// Tells whether every face of the list is well formed.
pub fn check_faces(faces: &Vec<SiteFace>) -> (result: bool)
    ensures
        result == faces_wf(faces@),
{
    let mut i: usize = 0;
    while i < faces.len()
        invariant
            0 <= i <= faces@.len(),
            forall|k: int| 0 <= k < i ==> (#[trigger] faces@[k]).wf(),
        decreases faces@.len() - i,
    {
        if !check_face(&faces[i]) {
            return false;
        }
        i = i + 1;
    }
    true
}

/// The longest ray that a polygon may hold: ten world units.
pub const RAY_LIMIT: i64 = 10_000_000;

/// The squared length above which an edge keeps its site from being relaxed:
/// four square units.
pub const SKIP_LENGTH_SQ: i128 = 4_000_000_000_000;

/// The squared length of `v`.
pub open spec fn norm_squared(v: Vec2) -> int {
    dot(v.x as int, v.y as int, v.x as int, v.y as int)
}

/// `dir`, shortened to the length `RAY_LIMIT` if it is longer (each
/// component is rounded down).
pub open spec fn clamped_ray(dir: Vec2) -> Vec2 {
    let n2 = norm_squared(dir);
    if n2 > RAY_LIMIT * RAY_LIMIT {
        let len = sqrt_floor(n2);
        Vec2 { x: ((dir.x * RAY_LIMIT) / len) as i64, y: ((dir.y * RAY_LIMIT) / len) as i64 }
    } else {
        dir
    }
}

/// The end of the clamped ray that leaves `from` along `dir`.
pub open spec fn ray_end(from: Vec2, dir: Vec2) -> Vec2 {
    let c = clamped_ray(dir);
    Vec2 { x: (from.x + c.x) as i64, y: (from.y + c.y) as i64 }
}

/// The two polygon points that a dual edge contributes, in traversal order.
///
/// An edge between two circumcenters gives `to`, then `from`. An edge with one
/// circumcenter and one ray gives the end of the clamped ray, then the
/// circumcenter. An edge with two rays, or with a ray of length zero, gives nothing.
pub open spec fn edge_points(e: DualEdge) -> Seq<Vec2> {
    match (e.from, e.to) {
        (DualVertex::Inner(from), DualVertex::Inner(to)) => seq![to, from],
        (DualVertex::Inner(from), DualVertex::Outer(dir)) => if dir.x == 0 && dir.y == 0 {
            Seq::<Vec2>::empty()
        } else {
            seq![ray_end(from, dir), from]
        },
        (DualVertex::Outer(dir), DualVertex::Inner(from)) => if dir.x == 0 && dir.y == 0 {
            Seq::<Vec2>::empty()
        } else {
            seq![ray_end(from, dir), from]
        },
        (DualVertex::Outer(_), DualVertex::Outer(_)) => Seq::<Vec2>::empty(),
    }
}

/// The polygon points of a dual face: those of its edges, one edge after the other.
pub open spec fn face_points(edges: Seq<DualEdge>) -> Seq<Vec2>
    decreases edges.len(),
{
    if edges.len() == 0 {
        Seq::<Vec2>::empty()
    } else {
        face_points(edges.drop_last()) + edge_points(edges.last())
    }
}

/// The polygon of a dual face as vertices.
pub open spec fn face_vertices(edges: Seq<DualEdge>) -> Seq<VoronoiVertex> {
    face_points(edges).map(|i: int, p: Vec2| VoronoiVertex::Inner(p))
}

/// `p` is at most one clamped ray outside the coordinate limit.
pub open spec fn near(p: Vec2) -> bool {
    -LIMIT - RAY_LIMIT <= p.x <= LIMIT + RAY_LIMIT && -LIMIT - RAY_LIMIT <= p.y <= LIMIT
        + RAY_LIMIT
}

/// The squared length of what a dual edge spans: the distance of its two
/// circumcenters, or the length of its ray. An edge with two rays counts as zero.
pub open spec fn edge_length_sq(e: DualEdge) -> int {
    match (e.from, e.to) {
        (DualVertex::Inner(from), DualVertex::Inner(to)) => dot(
            from.x - to.x,
            from.y - to.y,
            from.x - to.x,
            from.y - to.y,
        ),
        (DualVertex::Inner(_), DualVertex::Outer(dir)) => norm_squared(dir),
        (DualVertex::Outer(dir), DualVertex::Inner(_)) => norm_squared(dir),
        (DualVertex::Outer(_), DualVertex::Outer(_)) => 0,
    }
}

/// Some edge of the face is longer than the skip threshold.
pub open spec fn has_long_edge(edges: Seq<DualEdge>) -> bool {
    exists|j: int| 0 <= j < edges.len() && edge_length_sq(#[trigger] edges[j]) > SKIP_LENGTH_SQ
}

/// The sum of the `x` coordinates of `points`.
pub open spec fn sum_x(points: Seq<Vec2>) -> int
    decreases points.len(),
{
    if points.len() == 0 {
        0
    } else {
        sum_x(points.drop_last()) + points.last().x
    }
}

/// The sum of the `y` coordinates of `points`.
pub open spec fn sum_y(points: Seq<Vec2>) -> int
    decreases points.len(),
{
    if points.len() == 0 {
        0
    } else {
        sum_y(points.drop_last()) + points.last().y
    }
}

/// Where one pass of Lloyd relaxation puts a site: at the mean of its polygon
/// points (rounded down), unless the face has a long edge or no point at all,
/// in which case the site stays. For a well-formed face the mean lies within
/// `LIMIT + RAY_LIMIT` of zero, so it is a coordinate: see [`relax_site`].
pub open spec fn relaxed_site(face: SiteFace) -> Vec2 {
    let points = face_points(face.edges@);
    if has_long_edge(face.edges@) || points.len() == 0 {
        face.site
    } else {
        Vec2 {
            x: (sum_x(points) / (points.len() as int)) as i64,
            y: (sum_y(points) / (points.len() as int)) as i64,
        }
    }
}

/// A clamped ray is never longer than `RAY_LIMIT` along either axis.
pub proof fn lemma_clamped_ray_bounded(dir: Vec2)
    requires
        dir.bounded(),
    ensures
        -RAY_LIMIT <= clamped_ray(dir).x <= RAY_LIMIT,
        -RAY_LIMIT <= clamped_ray(dir).y <= RAY_LIMIT,
        norm_squared(dir) > RAY_LIMIT * RAY_LIMIT ==> sqrt_floor(norm_squared(dir)) >= RAY_LIMIT,
{
    let n2 = norm_squared(dir);
    let dx = dir.x as int;
    let dy = dir.y as int;
    let t = RAY_LIMIT as int;
    assert(dx * dx >= 0 && dy * dy >= 0) by (nonlinear_arith);
    if n2 > RAY_LIMIT * RAY_LIMIT {
        lemma_prod_bound(dx, dx, LIMIT as int, LIMIT as int);
        lemma_prod_bound(dy, dy, LIMIT as int, LIMIT as int);
        lemma_sqrt_floor_exists(n2);
        let len = sqrt_floor(n2);
        assert(len >= t) by (nonlinear_arith)
            requires n2 > t * t, n2 < (len + 1) * (len + 1), len >= 0, t >= 0;
        assert(-len <= dx <= len) by (nonlinear_arith)
            requires dx * dx <= n2, n2 < (len + 1) * (len + 1), len >= 0;
        assert(-len <= dy <= len) by (nonlinear_arith)
            requires dy * dy <= n2, n2 < (len + 1) * (len + 1), len >= 0;
        lemma_scaled_quotient(dx, t, len);
        lemma_scaled_quotient(dy, t, len);
    } else {
        assert(-t <= dx <= t) by (nonlinear_arith)
            requires dx * dx <= t * t, t >= 0;
        assert(-t <= dy <= t) by (nonlinear_arith)
            requires dy * dy <= t * t, t >= 0;
    }
}

/// `d * t / len` stays within `t` when `d` stays within `len`.
proof fn lemma_scaled_quotient(d: int, t: int, len: int)
    requires
        -len <= d <= len,
        len > 0,
        t >= 0,
    ensures
        -t <= (d * t) / len <= t,
{
    assert(-(len * t) <= d * t <= len * t) by (nonlinear_arith)
        requires -len <= d <= len, t >= 0;
    assert(-t <= (d * t) / len <= t) by (nonlinear_arith)
        requires -(len * t) <= d * t <= len * t, len > 0;
}

/// The squared length of `(x, y)`.
fn norm_squared_exec(x: i128, y: i128) -> (result: i128)
    requires
        -2 * LIMIT <= x <= 2 * LIMIT,
        -2 * LIMIT <= y <= 2 * LIMIT,
    ensures
        result == dot(x as int, y as int, x as int, y as int),
        0 <= result <= 8 * LIMIT * LIMIT,
{
    proof {
        assert(LIMIT == 1_099_511_627_776);
        lemma_prod_bound(x as int, x as int, 2_199_023_255_552, 2_199_023_255_552);
        lemma_prod_bound(y as int, y as int, 2_199_023_255_552, 2_199_023_255_552);
        assert(x * x >= 0 && y * y >= 0) by (nonlinear_arith);
    }
    x * x + y * y
}

/// Shortens `dir` to the length `RAY_LIMIT` if it is longer.
pub fn clamp_ray(dir: Vec2) -> (result: Vec2)
    requires
        dir.bounded(),
    ensures
        result == clamped_ray(dir),
        -RAY_LIMIT <= result.x <= RAY_LIMIT,
        -RAY_LIMIT <= result.y <= RAY_LIMIT,
{
    proof {
        lemma_clamped_ray_bounded(dir);
        assert(RAY_LIMIT * RAY_LIMIT == 100_000_000_000_000) by (nonlinear_arith)
            requires RAY_LIMIT == 10_000_000;
    }
    let n2: i128 = norm_squared_exec(dir.x as i128, dir.y as i128);
    if n2 > (RAY_LIMIT as i128) * (RAY_LIMIT as i128) {
        let len: i128 = isqrt(n2 as u128) as i128;
        proof {
            lemma_prod_bound(dir.x as int, RAY_LIMIT as int, LIMIT as int, RAY_LIMIT as int);
            lemma_prod_bound(dir.y as int, RAY_LIMIT as int, LIMIT as int, RAY_LIMIT as int);
        }
        let x: i128 = div_floor(dir.x as i128 * RAY_LIMIT as i128, len);
        let y: i128 = div_floor(dir.y as i128 * RAY_LIMIT as i128, len);
        Vec2 { x: x as i64, y: y as i64 }
    } else {
        dir
    }
}

/// The two polygon points of one dual edge, or none: see [`edge_points`].
pub fn edge_vertices(e: &DualEdge) -> (result: Option<(Vec2, Vec2)>)
    requires
        e.from.bounded(),
        e.to.bounded(),
    ensures
        match result {
            Some((first, second)) => edge_points(*e) == seq![first, second] && near(first)
                && near(second),
            None => edge_points(*e) == Seq::<Vec2>::empty(),
        },
{
    match (e.from, e.to) {
        (DualVertex::Inner(from), DualVertex::Inner(to)) => Some((to, from)),
        (DualVertex::Inner(from), DualVertex::Outer(dir)) => ray_vertices(from, dir),
        (DualVertex::Outer(dir), DualVertex::Inner(from)) => ray_vertices(from, dir),
        (DualVertex::Outer(_), DualVertex::Outer(_)) => None,
    }
}

fn ray_vertices(from: Vec2, dir: Vec2) -> (result: Option<(Vec2, Vec2)>)
    requires
        from.bounded(),
        dir.bounded(),
    ensures
        dir.x == 0 && dir.y == 0 ==> result is None,
        !(dir.x == 0 && dir.y == 0) ==> result == Some((ray_end(from, dir), from)),
        near(ray_end(from, dir)),
{
    proof {
        lemma_clamped_ray_bounded(dir);
    }
    if dir.x == 0 && dir.y == 0 {
        None
    } else {
        let c = clamp_ray(dir);
        Some((Vec2 { x: from.x + c.x, y: from.y + c.y }, from))
    }
}

/// The closed polygon around one site: see [`face_vertices`].
pub fn extract_region(face: &SiteFace) -> (result: VoronoiRegion)
    requires
        face.wf(),
    ensures
        result.site == face.site,
        result.vertices@ == face_vertices(face.edges@),
{
    let mut vertices: Vec<VoronoiVertex> = Vec::new();
    let ghost mut points: Seq<Vec2> = Seq::empty();
    let mut j: usize = 0;
    while j < face.edges.len()
        invariant
            face.wf(),
            0 <= j <= face.edges@.len(),
            points == face_points(face.edges@.take(j as int)),
            vertices@ == points.map(|i: int, p: Vec2| VoronoiVertex::Inner(p)),
        decreases face.edges@.len() - j,
    {
        proof {
            assert(face.edges@.take(j + 1).drop_last() == face.edges@.take(j as int));
        }
        match edge_vertices(&face.edges[j]) {
            Some((first, second)) => {
                vertices.push(VoronoiVertex::Inner(first));
                vertices.push(VoronoiVertex::Inner(second));
                proof {
                    points = points + seq![first, second];
                    assert(vertices@ == points.map(|i: int, p: Vec2| VoronoiVertex::Inner(p)));
                }
            },
            None => {
                proof {
                    assert(points + Seq::<Vec2>::empty() == points);
                }
            },
        }
        j = j + 1;
    }
    proof {
        assert(face.edges@.take(j as int) == face.edges@);
    }
    VoronoiRegion { site: face.site, vertices }
}

/// One region per site, in the order of the sites.
pub fn extract_voronoi_regions(faces: &Vec<SiteFace>) -> (result: Vec<VoronoiRegion>)
    requires
        faces_wf(faces@),
    ensures
        result@.len() == faces@.len(),
        forall|i: int|
            0 <= i < faces@.len() ==> (#[trigger] result@[i]).site == faces@[i].site
                && result@[i].vertices@ == face_vertices(faces@[i].edges@),
{
    let mut regions: Vec<VoronoiRegion> = Vec::new();
    let mut i: usize = 0;
    while i < faces.len()
        invariant
            faces_wf(faces@),
            0 <= i <= faces@.len(),
            regions@.len() == i,
            forall|k: int|
                0 <= k < i ==> (#[trigger] regions@[k]).site == faces@[k].site
                    && regions@[k].vertices@ == face_vertices(faces@[k].edges@),
        decreases faces@.len() - i,
    {
        let region = extract_region(&faces[i]);
        regions.push(region);
        i = i + 1;
    }
    regions
}

/// The squared length of what a dual edge spans: see [`edge_length_sq`].
fn edge_length_squared(e: &DualEdge) -> (result: i128)
    requires
        e.from.bounded(),
        e.to.bounded(),
    ensures
        result == edge_length_sq(*e),
{
    match (e.from, e.to) {
        (DualVertex::Inner(from), DualVertex::Inner(to)) => norm_squared_exec(
            from.x as i128 - to.x as i128,
            from.y as i128 - to.y as i128,
        ),
        (DualVertex::Inner(_), DualVertex::Outer(dir)) => norm_squared_exec(
            dir.x as i128,
            dir.y as i128,
        ),
        (DualVertex::Outer(dir), DualVertex::Inner(_)) => norm_squared_exec(
            dir.x as i128,
            dir.y as i128,
        ),
        (DualVertex::Outer(_), DualVertex::Outer(_)) => 0,
    }
}

/// Appending two points adds their coordinates to the sums.
proof fn lemma_sum_push2(points: Seq<Vec2>, a: Vec2, b: Vec2)
    ensures
        sum_x(points + seq![a, b]) == sum_x(points) + a.x + b.x,
        sum_y(points + seq![a, b]) == sum_y(points) + a.y + b.y,
{
    let one = points + seq![a];
    let two = points + seq![a, b];
    assert(two.drop_last() =~= one);
    assert(one.drop_last() =~= points);
    assert(sum_x(two) == sum_x(one) + b.x);
    assert(sum_x(one) == sum_x(points) + a.x);
    assert(sum_y(two) == sum_y(one) + b.y);
    assert(sum_y(one) == sum_y(points) + a.y);
}

/// A mean lies within the bound of what is averaged.
proof fn lemma_mean_bound(sum: int, count: int, bound: int)
    requires
        count > 0,
        -(count * bound) <= sum <= count * bound,
    ensures
        -bound <= sum / count <= bound,
{
    assert(-bound <= sum / count <= bound) by (nonlinear_arith)
        requires count > 0, -(count * bound) <= sum <= count * bound;
}

/// Where one pass of Lloyd relaxation puts the site of `face`: see [`relaxed_site`].
pub fn relax_site(face: &SiteFace) -> (result: Vec2)
    requires
        face.wf(),
    ensures
        result == relaxed_site(*face),
        near(result),
        !has_long_edge(face.edges@) && face_points(face.edges@).len() > 0 ==> {
            let points = face_points(face.edges@);
            &&& result.x == sum_x(points) / (points.len() as int)
            &&& result.y == sum_y(points) / (points.len() as int)
        },
{
    let mut skip = false;
    let mut sx: i128 = 0;
    let mut sy: i128 = 0;
    let mut count: i128 = 0;
    let ghost mut points: Seq<Vec2> = Seq::empty();
    let mut j: usize = 0;
    while j < face.edges.len()
        invariant
            face.wf(),
            0 <= j <= face.edges@.len(),
            points == face_points(face.edges@.take(j as int)),
            skip == has_long_edge(face.edges@.take(j as int)),
            count == points.len(),
            0 <= count <= 2 * j,
            sx == sum_x(points),
            sy == sum_y(points),
            -(count * 1_099_521_627_776) <= sx <= count * 1_099_521_627_776,
            -(count * 1_099_521_627_776) <= sy <= count * 1_099_521_627_776,
        decreases face.edges@.len() - j,
    {
        assert(LIMIT + RAY_LIMIT == 1_099_521_627_776);
        let ghost before = face.edges@.take(j as int);
        let ghost after = face.edges@.take(j + 1);
        proof {
            assert(after.drop_last() == before);
            assert(after.last() == face.edges@[j as int]);
        }
        let long = edge_length_squared(&face.edges[j]) > SKIP_LENGTH_SQ;
        proof {
            if has_long_edge(after) {
                let k = choose|k: int|
                    0 <= k < after.len() && edge_length_sq(#[trigger] after[k]) > SKIP_LENGTH_SQ;
                if k < j {
                    assert(before[k] == after[k]);
                }
            }
            if has_long_edge(before) {
                let k = choose|k: int|
                    0 <= k < before.len() && edge_length_sq(#[trigger] before[k]) > SKIP_LENGTH_SQ;
                assert(before[k] == after[k]);
            }
            if long {
                assert(edge_length_sq(after[j as int]) > SKIP_LENGTH_SQ);
            }
        }
        if long {
            skip = true;
        }
        match edge_vertices(&face.edges[j]) {
            Some((first, second)) => {
                proof {
                    lemma_sum_push2(points, first, second);
                    points = points + seq![first, second];
                }
                sx = sx + first.x as i128 + second.x as i128;
                sy = sy + first.y as i128 + second.y as i128;
                count = count + 2;
            },
            None => {
                proof {
                    assert(points + Seq::<Vec2>::empty() == points);
                }
            },
        }
        j = j + 1;
    }
    proof {
        assert(face.edges@.take(j as int) == face.edges@);
    }
    if skip || count == 0 {
        face.site
    } else {
        proof {
            lemma_mean_bound(sx as int, count as int, 1_099_521_627_776);
            lemma_mean_bound(sy as int, count as int, 1_099_521_627_776);
        }
        Vec2 { x: div_floor(sx, count) as i64, y: div_floor(sy, count) as i64 }
    }
}

/// One pass of Lloyd relaxation: the new position of every site, in the
/// order of the sites.
pub fn relax_sites(faces: &Vec<SiteFace>) -> (result: Vec<Vec2>)
    requires
        faces_wf(faces@),
    ensures
        result@.len() == faces@.len(),
        forall|i: int| 0 <= i < faces@.len() ==> #[trigger] result@[i] == relaxed_site(faces@[i]),
        forall|i: int| 0 <= i < faces@.len() ==> near(#[trigger] result@[i]),
{
    let mut sites: Vec<Vec2> = Vec::new();
    let mut i: usize = 0;
    while i < faces.len()
        invariant
            faces_wf(faces@),
            0 <= i <= faces@.len(),
            sites@.len() == i,
            forall|k: int| 0 <= k < i ==> #[trigger] sites@[k] == relaxed_site(faces@[k]),
            forall|k: int| 0 <= k < i ==> near(#[trigger] sites@[k]),
        decreases faces@.len() - i,
    {
        let site = relax_site(&faces[i]);
        sites.push(site);
        i = i + 1;
    }
    sites
}

/// The end of the clamped ray of a dual edge that has one circumcenter and
/// one ray of non-zero length.
pub open spec fn edge_ray_end(e: DualEdge) -> Option<Vec2> {
    match (e.from, e.to) {
        (DualVertex::Inner(from), DualVertex::Outer(dir)) => if dir.x == 0 && dir.y == 0 {
            None
        } else {
            Some(ray_end(from, dir))
        },
        (DualVertex::Outer(dir), DualVertex::Inner(from)) => if dir.x == 0 && dir.y == 0 {
            None
        } else {
            Some(ray_end(from, dir))
        },
        _ => None,
    }
}

/// The ends of the clamped rays of a dual face, in traversal order.
pub open spec fn ray_ends(edges: Seq<DualEdge>) -> Seq<Vec2>
    decreases edges.len(),
{
    if edges.len() == 0 {
        Seq::<Vec2>::empty()
    } else {
        match edge_ray_end(edges.last()) {
            Some(p) => ray_ends(edges.drop_last()).push(p),
            None => ray_ends(edges.drop_last()),
        }
    }
}

/// What closes an open cell: the first and the last ray end, where the face
/// has at least two rays.
pub open spec fn closing_points(edges: Seq<DualEdge>) -> Seq<Vec2> {
    let ends = ray_ends(edges);
    if ends.len() >= 2 {
        seq![ends[0], ends.last()]
    } else {
        Seq::<Vec2>::empty()
    }
}

/// The polygon of a dual face, closed across its two outermost rays.
pub open spec fn closed_face_vertices(edges: Seq<DualEdge>) -> Seq<VoronoiVertex> {
    (face_points(edges) + closing_points(edges)).map(|i: int, p: Vec2| VoronoiVertex::Inner(p))
}

/// `site` lies in the rectangle, its border included.
pub open spec fn in_rectangle(boundary: Boundary, site: Vec2) -> bool {
    boundary.origin.x <= site.x <= boundary.origin.x + boundary.width && boundary.origin.y
        - boundary.height <= site.y <= boundary.origin.y
}

/// The faces whose site lies in the rectangle, in their order.
pub open spec fn faces_in_rectangle(boundary: Boundary, faces: Seq<SiteFace>) -> Seq<SiteFace>
    decreases faces.len(),
{
    if faces.len() == 0 {
        Seq::<SiteFace>::empty()
    } else if in_rectangle(boundary, faces.last().site) {
        faces_in_rectangle(boundary, faces.drop_last()).push(faces.last())
    } else {
        faces_in_rectangle(boundary, faces.drop_last())
    }
}

/// Tells whether `site` lies in the rectangle, its border included.
pub fn site_in_rectangle(boundary: &Boundary, site: Vec2) -> (result: bool)
    requires
        boundary.wf(),
    ensures
        result == in_rectangle(*boundary, site),
{
    let lower = boundary.bottom_left();
    let upper = boundary.top_right();
    lower.x <= site.x && site.x <= upper.x && lower.y <= site.y && site.y <= upper.y
}

/// Tells whether the edge has one circumcenter and one ray of non-zero length.
fn has_ray(e: &DualEdge) -> (result: bool)
    ensures
        result == edge_ray_end(*e) is Some,
        result ==> edge_points(*e).len() == 2 && edge_points(*e)[0] == edge_ray_end(*e).unwrap(),
{
    match (e.from, e.to) {
        (DualVertex::Inner(_), DualVertex::Outer(dir)) => !(dir.x == 0 && dir.y == 0),
        (DualVertex::Outer(dir), DualVertex::Inner(_)) => !(dir.x == 0 && dir.y == 0),
        _ => false,
    }
}

/// The polygon around one site, closed across its two outermost rays: see
/// [`closed_face_vertices`].
pub fn extract_closed_region(face: &SiteFace) -> (result: VoronoiRegion)
    requires
        face.wf(),
    ensures
        result.site == face.site,
        result.vertices@ == closed_face_vertices(face.edges@),
{
    let mut vertices: Vec<VoronoiVertex> = Vec::new();
    let mut out1: Option<Vec2> = None;
    let mut out2: Option<Vec2> = None;
    let ghost mut points: Seq<Vec2> = Seq::empty();
    let mut j: usize = 0;
    while j < face.edges.len()
        invariant
            face.wf(),
            0 <= j <= face.edges@.len(),
            points == face_points(face.edges@.take(j as int)),
            vertices@ == points.map(|i: int, p: Vec2| VoronoiVertex::Inner(p)),
            out1 == (if ray_ends(face.edges@.take(j as int)).len() >= 1 {
                Some(ray_ends(face.edges@.take(j as int))[0])
            } else {
                None
            }),
            out2 == (if ray_ends(face.edges@.take(j as int)).len() >= 2 {
                Some(ray_ends(face.edges@.take(j as int)).last())
            } else {
                None
            }),
        decreases face.edges@.len() - j,
    {
        proof {
            assert(face.edges@.take(j + 1).drop_last() == face.edges@.take(j as int));
        }
        let ray = has_ray(&face.edges[j]);
        match edge_vertices(&face.edges[j]) {
            Some((first, second)) => {
                vertices.push(VoronoiVertex::Inner(first));
                vertices.push(VoronoiVertex::Inner(second));
                proof {
                    points = points + seq![first, second];
                    assert(vertices@ == points.map(|i: int, p: Vec2| VoronoiVertex::Inner(p)));
                }
                if ray {
                    if out1.is_none() {
                        out1 = Some(first);
                    } else {
                        out2 = Some(first);
                    }
                }
            },
            None => {
                proof {
                    assert(points + Seq::<Vec2>::empty() == points);
                }
            },
        }
        j = j + 1;
    }
    proof {
        assert(face.edges@.take(j as int) == face.edges@);
    }
    match (out1, out2) {
        (Some(first), Some(last)) => {
            vertices.push(VoronoiVertex::Inner(first));
            vertices.push(VoronoiVertex::Inner(last));
            proof {
                assert(vertices@ == (points + seq![first, last]).map(
                    |i: int, p: Vec2| VoronoiVertex::Inner(p),
                ));
            }
        },
        _ => {
            proof {
                assert(points + Seq::<Vec2>::empty() == points);
            }
        },
    }
    VoronoiRegion { site: face.site, vertices }
}

/// The closed regions of the sites that lie in the rectangle, in the order
/// of the sites.
pub fn basic_voronoi_example(boundary: &Boundary, faces: &Vec<SiteFace>) -> (result: Vec<
    VoronoiRegion,
>)
    requires
        boundary.wf(),
        faces_wf(faces@),
    ensures
        result@.len() == faces_in_rectangle(*boundary, faces@).len(),
        forall|i: int|
            0 <= i < result@.len() ==> (#[trigger] result@[i]).site == faces_in_rectangle(
                *boundary,
                faces@,
            )[i].site && result@[i].vertices@ == closed_face_vertices(
                faces_in_rectangle(*boundary, faces@)[i].edges@,
            ),
{
    let mut regions: Vec<VoronoiRegion> = Vec::new();
    let mut i: usize = 0;
    while i < faces.len()
        invariant
            boundary.wf(),
            faces_wf(faces@),
            0 <= i <= faces@.len(),
            regions@.len() == faces_in_rectangle(*boundary, faces@.take(i as int)).len(),
            forall|k: int|
                0 <= k < regions@.len() ==> (#[trigger] regions@[k]).site == faces_in_rectangle(
                    *boundary,
                    faces@.take(i as int),
                )[k].site && regions@[k].vertices@ == closed_face_vertices(
                    faces_in_rectangle(*boundary, faces@.take(i as int))[k].edges@,
                ),
        decreases faces@.len() - i,
    {
        proof {
            assert(faces@.take(i + 1).drop_last() == faces@.take(i as int));
        }
        if site_in_rectangle(boundary, faces[i].site) {
            let region = extract_closed_region(&faces[i]);
            regions.push(region);
        }
        i = i + 1;
    }
    proof {
        assert(faces@.take(i as int) == faces@);
    }
    regions
}

/// A polygon holds two points for each edge that contributes, so an even
/// number and at most two per edge; its vertices are those points, all of
/// them inner vertices.
pub proof fn lemma_polygon_shape(edges: Seq<DualEdge>)
    ensures
        face_points(edges).len() % 2 == 0,
        face_points(edges).len() <= 2 * edges.len(),
        face_vertices(edges).len() == face_points(edges).len(),
        forall|k: int|
            0 <= k < face_vertices(edges).len() ==> #[trigger] face_vertices(edges)[k]
                == VoronoiVertex::Inner(face_points(edges)[k]),
    decreases edges.len(),
{
    if edges.len() > 0 {
        lemma_polygon_shape(edges.drop_last());
    }
}

/// Every circumcenter of the face lies in the box from `lo` to `hi`.
pub open spec fn centers_in_box(edges: Seq<DualEdge>, lo: Vec2, hi: Vec2) -> bool {
    forall|j: int|
        0 <= j < edges.len() ==> vertex_in_box((#[trigger] edges[j]).from, lo, hi)
            && vertex_in_box(edges[j].to, lo, hi)
}

/// The end of a dual edge is a ray, or a circumcenter in the box.
pub open spec fn vertex_in_box(v: DualVertex, lo: Vec2, hi: Vec2) -> bool {
    match v {
        DualVertex::Inner(p) => lo.x <= p.x <= hi.x && lo.y <= p.y <= hi.y,
        DualVertex::Outer(_) => true,
    }
}

/// Where every circumcenter of a face lies in a box, every point of its
/// polygon lies in that box grown by `RAY_LIMIT` on each side: no ray
/// reaches further, however long its direction vector is.
pub proof fn lemma_polygon_in_grown_box(edges: Seq<DualEdge>, lo: Vec2, hi: Vec2)
    requires
        forall|j: int|
            0 <= j < edges.len() ==> (#[trigger] edges[j]).from.bounded() && edges[j].to.bounded(),
        centers_in_box(edges, lo, hi),
    ensures
        forall|k: int|
            0 <= k < face_points(edges).len() ==> lo.x - RAY_LIMIT <= (#[trigger] face_points(
                edges,
            )[k]).x <= hi.x + RAY_LIMIT && lo.y - RAY_LIMIT <= face_points(edges)[k].y <= hi.y
                + RAY_LIMIT,
    decreases edges.len(),
{
    if edges.len() > 0 {
        let front = edges.drop_last();
        let e = edges.last();
        assert forall|j: int| 0 <= j < front.len() implies (#[trigger] front[j]).from.bounded()
            && front[j].to.bounded() && vertex_in_box(front[j].from, lo, hi) && vertex_in_box(
            front[j].to,
            lo,
            hi,
        ) by {
            assert(front[j] == edges[j]);
        }
        lemma_polygon_in_grown_box(front, lo, hi);
        assert(e == edges[edges.len() - 1]);
        match (e.from, e.to) {
            (DualVertex::Inner(from), DualVertex::Outer(dir)) => {
                lemma_clamped_ray_bounded(dir);
            },
            (DualVertex::Outer(dir), DualVertex::Inner(from)) => {
                lemma_clamped_ray_bounded(dir);
            },
            _ => {},
        }
        let head = face_points(front);
        let tail = edge_points(e);
        assert(face_points(edges) == head + tail);
        assert forall|k: int| 0 <= k < face_points(edges).len() implies lo.x - RAY_LIMIT <= (
        #[trigger] face_points(edges)[k]).x <= hi.x + RAY_LIMIT && lo.y - RAY_LIMIT <= face_points(
            edges,
        )[k].y <= hi.y + RAY_LIMIT by {
            if k < head.len() {
                assert(face_points(edges)[k] == head[k]);
            } else {
                assert(face_points(edges)[k] == tail[k - head.len()]);
            }
        }
    }
}

/// The sums of coordinates that all lie from `lo` to `hi` lie from
/// `n * lo` to `n * hi`, where `n` counts the points.
proof fn lemma_sum_bounds(points: Seq<Vec2>, lo: Vec2, hi: Vec2)
    requires
        forall|k: int|
            0 <= k < points.len() ==> lo.x <= (#[trigger] points[k]).x <= hi.x && lo.y
                <= points[k].y <= hi.y,
    ensures
        points.len() * lo.x <= sum_x(points) <= points.len() * hi.x,
        points.len() * lo.y <= sum_y(points) <= points.len() * hi.y,
    decreases points.len(),
{
    let n = points.len() as int;
    if n == 0 {
        assert(0 * lo.x == 0 && 0 * hi.x == 0 && 0 * lo.y == 0 && 0 * hi.y == 0);
    } else {
        let front = points.drop_last();
        assert forall|k: int| 0 <= k < front.len() implies lo.x <= (#[trigger] front[k]).x <= hi.x
            && lo.y <= front[k].y <= hi.y by {
            assert(front[k] == points[k]);
        }
        lemma_sum_bounds(front, lo, hi);
        assert(points.last() == points[n - 1]);
        assert(n * lo.x == (n - 1) * lo.x + lo.x && n * hi.x == (n - 1) * hi.x + hi.x && n * lo.y
            == (n - 1) * lo.y + lo.y && n * hi.y == (n - 1) * hi.y + hi.y) by (nonlinear_arith);
    }
}

/// A mean lies between the bounds of what is averaged.
proof fn lemma_mean_between(sum: int, count: int, lo: int, hi: int)
    requires
        count > 0,
        count * lo <= sum <= count * hi,
    ensures
        lo <= sum / count <= hi,
{
    assert(lo <= sum / count <= hi) by (nonlinear_arith)
        requires count > 0, count * lo <= sum <= count * hi;
}

/// Relaxation keeps a site near its cell: where the site and every
/// circumcenter of its face lie in a box, the relaxed site lies in that box
/// grown by `RAY_LIMIT` on each side.
pub proof fn lemma_relaxed_site_in_grown_box(face: SiteFace, lo: Vec2, hi: Vec2)
    requires
        face.wf(),
        lo.bounded(),
        hi.bounded(),
        centers_in_box(face.edges@, lo, hi),
        lo.x <= face.site.x <= hi.x,
        lo.y <= face.site.y <= hi.y,
    ensures
        lo.x - RAY_LIMIT <= relaxed_site(face).x <= hi.x + RAY_LIMIT,
        lo.y - RAY_LIMIT <= relaxed_site(face).y <= hi.y + RAY_LIMIT,
{
    let points = face_points(face.edges@);
    lemma_polygon_in_grown_box(face.edges@, lo, hi);
    if !(has_long_edge(face.edges@) || points.len() == 0) {
        let low = Vec2 { x: (lo.x - RAY_LIMIT) as i64, y: (lo.y - RAY_LIMIT) as i64 };
        let high = Vec2 { x: (hi.x + RAY_LIMIT) as i64, y: (hi.y + RAY_LIMIT) as i64 };
        lemma_sum_bounds(points, low, high);
        lemma_mean_between(sum_x(points), points.len() as int, low.x as int, high.x as int);
        lemma_mean_between(sum_y(points), points.len() as int, low.y as int, high.y as int);
    }
}

} // verus!
