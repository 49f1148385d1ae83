use map_generator::color::{PresetColors, RGB};
use map_generator::fixed::ONE;
use map_generator::geometry::{Boundary, Vec2};
use map_generator::map::{MapRegion, WorldMap};
use map_generator::mesh::{extract_region_mesh, setup_wires_and_sites_vertexes, VertexColor};
use map_generator::voronoi::{OuterType, VoronoiVertex};

fn p(x: i64, y: i64) -> Vec2 {
    Vec2::new(x * ONE, y * ONE)
}

fn sample_map() -> WorldMap {
    let blue = RGB::new(0, 0, 255);
    let green = RGB::new(0, 255, 0);
    WorldMap {
        boundary: Boundary::from_top_left(p(-10, 10), 20 * ONE, 30 * ONE),
        regions: vec![
            MapRegion {
                site: p(1, 1),
                vertices: vec![
                    VoronoiVertex::Inner(p(0, 0)),
                    VoronoiVertex::Inner(p(2, 0)),
                    VoronoiVertex::Outer(OuterType::Top, p(2, 2)),
                    VoronoiVertex::Inner(p(0, 2)),
                ],
                color: blue,
            },
            MapRegion { site: p(5, 5), vertices: vec![], color: green },
            MapRegion {
                site: p(7, 7),
                vertices: vec![VoronoiVertex::Inner(p(6, 6)), VoronoiVertex::Inner(p(8, 8))],
                color: green,
            },
        ],
    }
}

fn at(point: Vec2, z: i64, color: RGB) -> VertexColor {
    VertexColor::new(point.x, point.y, z, color)
}

#[test]
fn each_vertex_gives_a_triangle_with_the_site() {
    let map = sample_map();
    let blue = RGB::new(0, 0, 255);
    let green = RGB::new(0, 255, 0);
    let mesh = extract_region_mesh(&map);
    assert_eq!(
        mesh,
        vec![
            at(p(1, 1), 0, blue),
            at(p(0, 0), 0, blue),
            at(p(2, 0), 0, blue),
            at(p(1, 1), 0, blue),
            at(p(2, 0), 0, blue),
            at(p(2, 2), 0, blue),
            at(p(1, 1), 0, blue),
            at(p(2, 2), 0, blue),
            at(p(0, 2), 0, blue),
            at(p(1, 1), 0, blue),
            at(p(0, 2), 0, blue),
            at(p(0, 0), 0, blue),
            at(p(7, 7), 0, green),
            at(p(6, 6), 0, green),
            at(p(8, 8), 0, green),
            at(p(7, 7), 0, green),
            at(p(8, 8), 0, green),
            at(p(6, 6), 0, green),
        ]
    );
}

#[test]
fn a_mesh_holds_three_points_for_each_vertex() {
    let map = sample_map();
    let vertices: usize = map.get_regions().iter().map(|r| r.vertices.len()).sum();
    assert_eq!(extract_region_mesh(&map).len(), 3 * vertices);
    let empty = WorldMap { boundary: Boundary::from_top_left(p(0, 0), 0, 0), regions: vec![] };
    assert!(extract_region_mesh(&empty).is_empty());
}

#[test]
fn wires_start_with_the_outline_of_the_boundary() {
    let map = sample_map();
    let teal = PresetColors::TEAL.to_rgb();
    let black = PresetColors::BLACK.to_rgb();
    let red = PresetColors::RED.to_rgb();
    let (sites, wires) = setup_wires_and_sites_vertexes(&map);
    assert_eq!(
        sites,
        vec![at(p(1, 1), ONE, red), at(p(5, 5), ONE, red), at(p(7, 7), ONE, red)]
    );
    assert_eq!(
        wires,
        vec![
            at(p(-10, 10), ONE, teal),
            at(p(10, 10), ONE, teal),
            at(p(10, 10), ONE, teal),
            at(p(10, -20), ONE, teal),
            at(p(10, -20), ONE, teal),
            at(p(-10, -20), ONE, teal),
            at(p(-10, -20), ONE, teal),
            at(p(-10, 10), ONE, teal),
            at(p(0, 0), ONE, black),
            at(p(2, 0), ONE, black),
            at(p(2, 2), ONE, black),
            at(p(0, 2), ONE, black),
            at(p(6, 6), ONE, black),
            at(p(8, 8), ONE, black),
        ]
    );
}

#[test]
fn the_sides_of_a_boundary_go_round_it() {
    let boundary = Boundary::from_top_left(p(-10, 10), 20 * ONE, 30 * ONE);
    let sides = boundary.edges();
    assert_eq!(sides[0].startp(), p(-10, 10));
    assert_eq!(sides[0].endp(), p(10, 10));
    assert_eq!(sides[1].startp(), p(10, 10));
    assert_eq!(sides[1].endp(), p(10, -20));
    assert_eq!(sides[2].startp(), p(10, -20));
    assert_eq!(sides[2].endp(), p(-10, -20));
    assert_eq!(sides[3].startp(), p(-10, -20));
    assert_eq!(sides[3].endp(), p(-10, 10));
}

#[test]
fn a_cell_with_a_single_vertex_gives_one_flat_triangle() {
    let mut map = sample_map();
    map.regions[1].vertices.push(VoronoiVertex::Inner(p(4, 4)));
    let green = RGB::new(0, 255, 0);
    let mesh = extract_region_mesh(&map);
    assert_eq!(mesh.len(), 3 * (4 + 1 + 2));
    assert_eq!(
        mesh[12..15].to_vec(),
        vec![at(p(5, 5), 0, green), at(p(4, 4), 0, green), at(p(4, 4), 0, green)]
    );
}

#[test]
fn the_last_vertex_of_a_cell_is_joined_to_the_first() {
    let map = sample_map();
    let mesh = extract_region_mesh(&map);
    let first_cell = &map.get_regions()[0];
    let n = first_cell.vertices.len();
    for i in 0..n {
        let next = first_cell.vertices[(i + 1) % n].position();
        assert_eq!((mesh[3 * i + 2].x, mesh[3 * i + 2].y), (next.x, next.y));
    }
    assert_eq!((mesh[3 * n - 1].x, mesh[3 * n - 1].y), (0, 0));
}

#[test]
fn a_rectangle_within_the_limit_is_well_formed() {
    let map = sample_map();
    assert!(map.get_boundary().is_wf());
    assert!(!Boundary::from_top_left(p(0, 0), -1, 0).is_wf());
    assert!(p(1_099_511, 0).is_bounded());
    assert!(!p(1_099_512, 0).is_bounded());
}
