use map_generator::fixed::{LIMIT, ONE};
use map_generator::geometry::{Boundary, Vec2};
use map_generator::voronoi::{
    basic_voronoi_example, check_face, check_faces, clamp_ray, edge_vertices,
    extract_closed_region, extract_region, extract_voronoi_regions, relax_site, relax_sites,
    site_in_rectangle, DualEdge, DualVertex, OuterType, SiteFace, VoronoiEdge, VoronoiRegion,
    VoronoiVertex, RAY_LIMIT,
};

fn fx(v: f64) -> i64 {
    (v * 1_000_000.0).round() as i64
}

fn vec2(x: f64, y: f64) -> Vec2 {
    Vec2::new(fx(x), fx(y))
}

fn inner(x: f64, y: f64) -> DualVertex {
    DualVertex::Inner(vec2(x, y))
}

fn outer(x: f64, y: f64) -> DualVertex {
    DualVertex::Outer(vec2(x, y))
}

fn edge(from: DualVertex, to: DualVertex) -> DualEdge {
    DualEdge { from, to }
}

fn points(region: &VoronoiRegion) -> Vec<Vec2> {
    region.vertices().iter().map(|v| v.position()).collect()
}

#[test]
fn an_edge_between_two_circumcenters_gives_to_then_from() {
    let e = edge(inner(1., 2.), inner(3., 4.));
    assert_eq!(edge_vertices(&e), Some((vec2(3., 4.), vec2(1., 2.))));
}

#[test]
fn a_short_ray_is_used_as_it_is() {
    let e = edge(inner(1., 2.), outer(3., -4.));
    assert_eq!(edge_vertices(&e), Some((vec2(4., -2.), vec2(1., 2.))));
    let reversed = edge(outer(3., -4.), inner(1., 2.));
    assert_eq!(edge_vertices(&reversed), Some((vec2(4., -2.), vec2(1., 2.))));
}

#[test]
fn a_long_ray_is_cut_to_ten_units() {
    assert_eq!(clamp_ray(vec2(30., 40.)), vec2(6., 8.));
    assert_eq!(clamp_ray(vec2(-300., 0.)), vec2(-10., 0.));
    assert_eq!(clamp_ray(vec2(6., 8.)), vec2(6., 8.));
    assert_eq!(clamp_ray(vec2(0., 10.000001)), vec2(0., 10.));
    let e = edge(inner(1., 1.), outer(0., 1000.));
    assert_eq!(edge_vertices(&e), Some((vec2(1., 11.), vec2(1., 1.))));
}

#[test]
fn a_clamped_ray_never_exceeds_the_limit() {
    for dir in [vec2(1000000., 1000000.), vec2(-1099511., 3.), vec2(7., -900000.), vec2(10., 10.)] {
        let c = clamp_ray(dir);
        assert!(c.x.abs() <= RAY_LIMIT && c.y.abs() <= RAY_LIMIT);
        assert!((c.x as i128).pow(2) + (c.y as i128).pow(2) <= (RAY_LIMIT as i128 + 2).pow(2));
    }
}

#[test]
fn an_edge_with_two_rays_or_a_ray_without_length_gives_nothing() {
    assert_eq!(edge_vertices(&edge(outer(1., 0.), outer(0., 1.))), None);
    assert_eq!(edge_vertices(&edge(inner(1., 1.), outer(0., 0.))), None);
    assert_eq!(edge_vertices(&edge(outer(0., 0.), inner(1., 1.))), None);
}

#[test]
fn a_region_lists_its_edges_in_traversal_order() {
    let face = SiteFace {
        site: vec2(0.5, 0.5),
        edges: vec![
            edge(inner(0., 0.), inner(1., 0.)),
            edge(inner(1., 0.), outer(0., 40.)),
            edge(outer(1., 1.), outer(2., 2.)),
            edge(outer(-3., 0.), inner(0., 0.)),
        ],
    };
    let region = extract_region(&face);
    assert_eq!(region.site(), vec2(0.5, 0.5));
    assert_eq!(
        points(&region),
        vec![vec2(1., 0.), vec2(0., 0.), vec2(1., 10.), vec2(1., 0.), vec2(-3., 0.), vec2(0., 0.)]
    );
    assert!(region.vertices().iter().all(|v| matches!(v, VoronoiVertex::Inner(_))));
    assert_eq!(region.vertices().len() % 2, 0);
}

#[test]
fn a_face_without_edges_gives_an_empty_region() {
    let face = SiteFace { site: vec2(3., 3.), edges: vec![] };
    let region = extract_region(&face);
    assert!(region.vertices().is_empty());
    assert_eq!(relax_site(&face), vec2(3., 3.));
    assert!(extract_closed_region(&face).vertices().is_empty());
}

#[test]
fn regions_come_one_per_site_in_order() {
    let faces = vec![
        SiteFace { site: vec2(1., 1.), edges: vec![edge(inner(0., 0.), inner(2., 0.))] },
        SiteFace { site: vec2(5., 5.), edges: vec![] },
        SiteFace { site: vec2(-1., 4.), edges: vec![edge(inner(0., 1.), outer(0., 1.))] },
    ];
    let regions = extract_voronoi_regions(&faces);
    assert_eq!(regions.len(), 3);
    assert_eq!(regions[0].site(), vec2(1., 1.));
    assert_eq!(points(&regions[0]), vec![vec2(2., 0.), vec2(0., 0.)]);
    assert_eq!(regions[1].site(), vec2(5., 5.));
    assert!(regions[1].vertices().is_empty());
    assert_eq!(regions[2].site(), vec2(-1., 4.));
    assert_eq!(points(&regions[2]), vec![vec2(0., 2.), vec2(0., 1.)]);
}

#[test]
fn relaxation_moves_a_site_to_the_mean_of_its_polygon() {
    let face = SiteFace {
        site: vec2(0.3, 0.2),
        edges: vec![
            edge(inner(0., 0.), inner(1., 0.)),
            edge(inner(1., 0.), inner(1., 1.)),
            edge(inner(1., 1.), inner(0., 1.)),
            edge(inner(0., 1.), inner(0., 0.)),
        ],
    };
    assert_eq!(relax_site(&face), vec2(0.5, 0.5));
}

#[test]
fn relaxation_rounds_the_mean_down() {
    let face = SiteFace {
        site: vec2(0., 0.),
        edges: vec![edge(inner(0., 0.), inner(0.000001, -0.000001))],
    };
    assert_eq!(relax_site(&face), Vec2::new(0, -1));
}

#[test]
fn relaxation_leaves_a_site_with_a_long_edge() {
    let long_inner = SiteFace {
        site: vec2(0.3, 0.2),
        edges: vec![edge(inner(0., 0.), inner(2.000001, 0.)), edge(inner(1., 0.), inner(1., 1.))],
    };
    assert_eq!(relax_site(&long_inner), vec2(0.3, 0.2));
    let just_short = SiteFace {
        site: vec2(0.3, 0.2),
        edges: vec![edge(inner(0., 0.), inner(2., 0.))],
    };
    assert_eq!(relax_site(&just_short), vec2(1., 0.));
    let long_ray = SiteFace {
        site: vec2(0.3, 0.2),
        edges: vec![edge(inner(0., 0.), outer(0., -2.5)), edge(inner(1., 0.), inner(1., 1.))],
    };
    assert_eq!(relax_site(&long_ray), vec2(0.3, 0.2));
    let short_ray = SiteFace {
        site: vec2(0.3, 0.2),
        edges: vec![edge(inner(0., 0.), outer(0., -2.))],
    };
    assert_eq!(relax_site(&short_ray), vec2(0., -1.));
}

#[test]
fn relaxed_sites_come_in_the_order_of_the_faces() {
    let faces = vec![
        SiteFace { site: vec2(9., 9.), edges: vec![edge(inner(0., 0.), inner(1., 1.))] },
        SiteFace { site: vec2(7., 7.), edges: vec![edge(outer(0., 1.), outer(1., 0.))] },
    ];
    assert_eq!(relax_sites(&faces), vec![vec2(0.5, 0.5), vec2(7., 7.)]);
}

#[test]
fn an_open_cell_is_closed_across_its_first_and_last_ray() {
    let face = SiteFace {
        site: vec2(0., 0.),
        edges: vec![
            edge(outer(-1., 0.), inner(0., 1.)),
            edge(inner(0., 1.), inner(1., 1.)),
            edge(inner(1., 1.), outer(0., -2.)),
            edge(inner(1., 0.), outer(50., 0.)),
        ],
    };
    let region = extract_closed_region(&face);
    assert_eq!(
        points(&region),
        vec![
            vec2(-1., 1.),
            vec2(0., 1.),
            vec2(1., 1.),
            vec2(0., 1.),
            vec2(1., -1.),
            vec2(1., 1.),
            vec2(11., 0.),
            vec2(1., 0.),
            vec2(-1., 1.),
            vec2(11., 0.),
        ]
    );
}

#[test]
fn a_cell_with_one_ray_is_not_closed() {
    let face = SiteFace {
        site: vec2(0., 0.),
        edges: vec![edge(outer(-1., 0.), inner(0., 1.)), edge(inner(0., 1.), inner(1., 1.))],
    };
    let region = extract_closed_region(&face);
    assert_eq!(points(&region), vec![vec2(-1., 1.), vec2(0., 1.), vec2(1., 1.), vec2(0., 1.)]);
}

#[test]
fn only_sites_in_the_rectangle_get_a_closed_region() {
    let boundary = Boundary::from_top_left(vec2(-10., 10.), 20 * ONE, 20 * ONE);
    assert!(site_in_rectangle(&boundary, vec2(-10., 10.)));
    assert!(site_in_rectangle(&boundary, vec2(10., -10.)));
    assert!(!site_in_rectangle(&boundary, vec2(10.000001, 0.)));
    assert!(!site_in_rectangle(&boundary, vec2(0., -10.000001)));
    let faces = vec![
        SiteFace { site: vec2(11., 0.), edges: vec![edge(inner(0., 0.), inner(1., 1.))] },
        SiteFace { site: vec2(1., 0.), edges: vec![edge(inner(0., 0.), inner(1., 1.))] },
        SiteFace { site: vec2(0., -12.), edges: vec![] },
        SiteFace { site: vec2(-10., -10.), edges: vec![] },
    ];
    let regions = basic_voronoi_example(&boundary, &faces);
    assert_eq!(regions.len(), 2);
    assert_eq!(regions[0].site(), vec2(1., 0.));
    assert_eq!(points(&regions[0]), vec![vec2(1., 1.), vec2(0., 0.)]);
    assert_eq!(regions[1].site(), vec2(-10., -10.));
}

#[test]
fn vertices_report_their_position() {
    let inner = VoronoiVertex::Inner(vec2(1., 2.));
    let outer = VoronoiVertex::Outer(OuterType::TopLeftCorner, vec2(-3., 4.));
    assert_eq!(inner.position(), vec2(1., 2.));
    assert_eq!(outer.position(), vec2(-3., 4.));
    assert!(OuterType::Left < OuterType::BottomLeftCorner);
    let region = VoronoiRegion::new(vec2(0., 0.), vec![inner, outer]);
    assert_eq!(region.vertices().len(), 2);
    let e = VoronoiEdge { from: vec2(0., 0.), to: vec2(1., 0.) };
    assert_eq!(e.to, vec2(1., 0.));
}

#[test]
fn a_face_beyond_the_coordinate_limit_is_not_well_formed() {
    let good = SiteFace {
        site: Vec2::new(LIMIT, -LIMIT),
        edges: vec![DualEdge {
            from: DualVertex::Inner(Vec2::new(-LIMIT, LIMIT)),
            to: DualVertex::Outer(Vec2::new(LIMIT, LIMIT)),
        }],
    };
    assert!(check_face(&good));
    let far_site = SiteFace { site: Vec2::new(LIMIT + 1, 0), edges: vec![] };
    assert!(!check_face(&far_site));
    let far_center = SiteFace {
        site: Vec2::new(0, 0),
        edges: vec![
            edge(inner(0., 0.), inner(1., 1.)),
            DualEdge {
                from: DualVertex::Inner(Vec2::new(0, 0)),
                to: DualVertex::Inner(Vec2::new(0, -LIMIT - 1)),
            },
        ],
    };
    assert!(!check_face(&far_center));
    let far_ray = SiteFace {
        site: Vec2::new(0, 0),
        edges: vec![DualEdge {
            from: DualVertex::Outer(Vec2::new(LIMIT + 1, 0)),
            to: DualVertex::Inner(Vec2::new(0, 0)),
        }],
    };
    assert!(!check_face(&far_ray));
    assert!(check_faces(&vec![]));
    assert!(!check_faces(&vec![good, far_ray]));
}
