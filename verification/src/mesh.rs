//! Flat lists of coloured points for drawing a map: filled cells, outlines
//! and site markers.

use vstd::prelude::*;
use vstd::arithmetic::div_mod::lemma_fundamental_div_mod_converse;
use crate::color::{level, PresetColors, RGB};
use crate::fixed::ONE;
use crate::geometry::{Boundary, Vec2};
use crate::map::{MapRegion, WorldMap};
use crate::voronoi::VoronoiVertex;

verus! {

/// A coloured point of space, as the drawing stage takes it.
#[derive(Clone, Copy, Debug, PartialEq, Eq, Structural)]
pub struct VertexColor {
    pub x: i64,
    pub y: i64,
    pub z: i64,
    pub color: RGB,
}

impl VertexColor {
    pub fn new(x: i64, y: i64, z: i64, color: RGB) -> (result: Self)
        ensures
            result == (VertexColor { x, y, z, color }),
    {
        Self { x, y, z, color }
    }
}

/// The point `p` at height `z` in the colour `color`.
pub open spec fn colored(p: Vec2, z: int, color: RGB) -> VertexColor {
    VertexColor { x: p.x, y: p.y, z: z as i64, color }
}

/// The levels of a preset colour, without its alpha channel.
pub open spec fn preset(color: PresetColors) -> RGB {
    RGB {
        r: level(color.channels().0) as i64,
        g: level(color.channels().1) as i64,
        b: level(color.channels().2) as i64,
    }
}

/// The triangle that joins the site of a cell to its `i`-th vertex and to
/// the next one, `(i + 1) mod n` where `n` counts the vertices: the last
/// vertex is joined back to the first.
pub open spec fn fan_triangle(region: MapRegion, i: int) -> Seq<VertexColor> {
    let v = region.vertices@;
    let next = (i + 1) % (v.len() as int);
    seq![
        colored(region.site, 0, region.color),
        colored(v[i].point(), 0, region.color),
        colored(v[next].point(), 0, region.color),
    ]
}

/// The triangles of the first `n` vertices of a cell, one after the other.
pub open spec fn region_fan(region: MapRegion, n: int) -> Seq<VertexColor>
    decreases n,
{
    if n <= 0 {
        Seq::<VertexColor>::empty()
    } else {
        region_fan(region, n - 1) + fan_triangle(region, n - 1)
    }
}

/// The triangles of all cells, cell after cell.
pub open spec fn mesh_of(regions: Seq<MapRegion>) -> Seq<VertexColor>
    decreases regions.len(),
{
    if regions.len() == 0 {
        Seq::<VertexColor>::empty()
    } else {
        mesh_of(regions.drop_last()) + region_fan(
            regions.last(),
            regions.last().vertices@.len() as int,
        )
    }
}

/// A fan holds three points for each vertex.
pub proof fn lemma_fan_length(region: MapRegion, n: int)
    requires
        0 <= n,
    ensures
        region_fan(region, n).len() == 3 * n,
    decreases n,
{
    if n > 0 {
        lemma_fan_length(region, n - 1);
    }
}

/// The cells of a map as triangles for filling: see [`mesh_of`]. A cell
/// without vertices gives no triangle.
pub fn extract_region_mesh(map: &WorldMap) -> (result: Vec<VertexColor>)
    ensures
        result@ == mesh_of(map.regions@),
{
    let mut mesh: Vec<VertexColor> = Vec::new();
    let mut k: usize = 0;
    while k < map.regions.len()
        invariant
            0 <= k <= map.regions@.len(),
            mesh@ == mesh_of(map.regions@.take(k as int)),
        decreases map.regions@.len() - k,
    {
        let region = &map.regions[k];
        let n: usize = region.vertices.len();
        let ghost before = mesh@;
        let mut i: usize = 0;
        while i < n
            invariant
                n == region.vertices@.len(),
                0 <= i <= n,
                mesh@ == before + region_fan(*region, i as int),
            decreases n - i,
        {
            let next: usize = if i + 1 == n { 0 } else { i + 1 };
            proof {
                if i + 1 == n {
                    lemma_fundamental_div_mod_converse(i + 1, n as int, 1, 0);
                } else {
                    lemma_fundamental_div_mod_converse(i + 1, n as int, 0, i + 1);
                }
            }
            let v1 = region.vertices[i].position();
            let v2 = region.vertices[next].position();
            mesh.push(VertexColor::new(region.site.x, region.site.y, 0, region.color));
            mesh.push(VertexColor::new(v1.x, v1.y, 0, region.color));
            mesh.push(VertexColor::new(v2.x, v2.y, 0, region.color));
            proof {
                assert(mesh@ == before + (region_fan(*region, i as int) + fan_triangle(
                    *region,
                    i as int,
                )));
            }
            i = i + 1;
        }
        proof {
            assert(map.regions@.take(k + 1).drop_last() == map.regions@.take(k as int));
            assert(map.regions@.take(k + 1).last() == *region);
        }
        k = k + 1;
    }
    proof {
        assert(map.regions@.take(k as int) == map.regions@);
    }
    mesh
}

/// The outline of the boundary as four line pieces: top, right, bottom and
/// left, each from its start to its end, at height one and in teal.
pub open spec fn boundary_wires(boundary: Boundary) -> Seq<VertexColor> {
    let teal = preset(PresetColors::TEAL);
    let tl = boundary.origin;
    let tr = Vec2 { x: (boundary.origin.x + boundary.width) as i64, y: boundary.origin.y };
    let br = Vec2 {
        x: (boundary.origin.x + boundary.width) as i64,
        y: (boundary.origin.y - boundary.height) as i64,
    };
    let bl = Vec2 { x: boundary.origin.x, y: (boundary.origin.y - boundary.height) as i64 };
    seq![
        colored(tl, ONE as int, teal),
        colored(tr, ONE as int, teal),
        colored(tr, ONE as int, teal),
        colored(br, ONE as int, teal),
        colored(br, ONE as int, teal),
        colored(bl, ONE as int, teal),
        colored(bl, ONE as int, teal),
        colored(tl, ONE as int, teal),
    ]
}

/// The vertices of a polygon at height one and in black.
pub open spec fn polygon_wires(vertices: Seq<VoronoiVertex>) -> Seq<VertexColor> {
    vertices.map(
        |i: int, v: VoronoiVertex| colored(v.point(), ONE as int, preset(PresetColors::BLACK)),
    )
}

/// The vertices of all cells, cell after cell.
pub open spec fn region_wires(regions: Seq<MapRegion>) -> Seq<VertexColor>
    decreases regions.len(),
{
    if regions.len() == 0 {
        Seq::<VertexColor>::empty()
    } else {
        region_wires(regions.drop_last()) + polygon_wires(regions.last().vertices@)
    }
}

/// The sites of all cells at height one and in red.
pub open spec fn site_marks(regions: Seq<MapRegion>) -> Seq<VertexColor> {
    regions.map(|i: int, r: MapRegion| colored(r.site, ONE as int, preset(PresetColors::RED)))
}

/// The points to draw the sites with, and those to draw the outlines with:
/// the boundary first, then the polygon of each cell.
pub fn setup_wires_and_sites_vertexes(map: &WorldMap) -> (result: (
    Vec<VertexColor>,
    Vec<VertexColor>,
))
    requires
        map.boundary.wf(),
    ensures
        result.0@ == site_marks(map.regions@),
        result.1@ == boundary_wires(map.boundary) + region_wires(map.regions@),
{
    let mut voronoi_wires: Vec<VertexColor> = Vec::new();
    let mut voronoi_sites: Vec<VertexColor> = Vec::new();
    let boundary = map.get_boundary();
    let teal = PresetColors::TEAL.to_rgb();
    let red = PresetColors::RED.to_rgb();
    let black = PresetColors::BLACK.to_rgb();
    let tl = boundary.top_left();
    let tr = boundary.top_right();
    let br = boundary.bottom_right();
    let bl = boundary.bottom_left();
    voronoi_wires.push(VertexColor::new(tl.x, tl.y, ONE, teal));
    voronoi_wires.push(VertexColor::new(tr.x, tr.y, ONE, teal));
    voronoi_wires.push(VertexColor::new(tr.x, tr.y, ONE, teal));
    voronoi_wires.push(VertexColor::new(br.x, br.y, ONE, teal));
    voronoi_wires.push(VertexColor::new(br.x, br.y, ONE, teal));
    voronoi_wires.push(VertexColor::new(bl.x, bl.y, ONE, teal));
    voronoi_wires.push(VertexColor::new(bl.x, bl.y, ONE, teal));
    voronoi_wires.push(VertexColor::new(tl.x, tl.y, ONE, teal));
    assert(voronoi_wires@ == boundary_wires(map.boundary));
    let mut k: usize = 0;
    while k < map.regions.len()
        invariant
            0 <= k <= map.regions@.len(),
            black == preset(PresetColors::BLACK),
            red == preset(PresetColors::RED),
            voronoi_sites@ == site_marks(map.regions@.take(k as int)),
            voronoi_wires@ == boundary_wires(map.boundary) + region_wires(
                map.regions@.take(k as int),
            ),
        decreases map.regions@.len() - k,
    {
        let region = &map.regions[k];
        voronoi_sites.push(VertexColor::new(region.site.x, region.site.y, ONE, red));
        let ghost before = voronoi_wires@;
        let mut i: usize = 0;
        while i < region.vertices.len()
            invariant
                0 <= i <= region.vertices@.len(),
                black == preset(PresetColors::BLACK),
                voronoi_wires@ == before + polygon_wires(region.vertices@.take(i as int)),
            decreases region.vertices@.len() - i,
        {
            let pt = region.vertices[i].position();
            voronoi_wires.push(VertexColor::new(pt.x, pt.y, ONE, black));
            proof {
                assert(polygon_wires(region.vertices@.take(i + 1)) == polygon_wires(
                    region.vertices@.take(i as int),
                ).push(colored(pt, ONE as int, black)));
            }
            i = i + 1;
        }
        proof {
            assert(region.vertices@.take(i as int) == region.vertices@);
            assert(map.regions@.take(k + 1).drop_last() == map.regions@.take(k as int));
            assert(map.regions@.take(k + 1).last() == *region);
            assert(site_marks(map.regions@.take(k + 1)) == site_marks(
                map.regions@.take(k as int),
            ).push(colored(region.site, ONE as int, red)));
        }
        k = k + 1;
    }
    proof {
        assert(map.regions@.take(k as int) == map.regions@);
    }
    (voronoi_sites, voronoi_wires)
}

} // verus!
