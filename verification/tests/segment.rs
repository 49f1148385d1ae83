use map_generator::fixed::float_eq;
use map_generator::geometry::{vector_projection, Boundary, Segment, Vec2};

fn fx(v: f64) -> i64 {
    (v * 1_000_000.0).round() as i64
}

fn vec2(x: f64, y: f64) -> Vec2 {
    Vec2::new(fx(x), fx(y))
}

fn minus(a: Vec2, b: Vec2) -> Vec2 {
    Vec2::new(a.x - b.x, a.y - b.y)
}

#[test]
fn test_intersect_horizontal_vertical() {
    let a = vec2(-6., 4.);
    let b = vec2(2., 4.);
    let c = vec2(-2., 2.);
    let d = vec2(-2., 6.);
    let i = vec2(-2., 4.);
    let ab = Segment::new(a, b);
    let cd = minus(d, c);
    if let Some(res) = ab.intercept_by_ray(cd, c) {
        assert_eq!(res.x, i.x);
        assert_eq!(res.y, i.y);
    } else {
        panic!("fail");
    }
}

#[test]
fn test_intersect_horizontal() {
    let a = vec2(-6., 4.);
    let b = vec2(2., 4.);
    let c = vec2(-4., 2.);
    let d = vec2(2., 8.);
    let i = vec2(-2., 4.);
    let ab = Segment::new(a, b);
    let cd = minus(d, c);
    if let Some(res) = ab.intercept_by_ray(cd, c) {
        assert_eq!(res.x, i.x);
        assert_eq!(res.y, i.y);
    } else {
        panic!("fail");
    }
}

#[test]
fn test_intersect_vertical() {
    let a = vec2(-6., 2.);
    let b = vec2(2., 6.);
    let c = vec2(-4., 2.);
    let d = vec2(2., 8.);
    let i = vec2(-2., 4.);
    let ab = Segment::new(a, b);
    let cd = minus(d, c);
    if let Some(res) = ab.intercept_by_ray(cd, c) {
        assert_eq!(res.x, i.x);
        assert_eq!(res.y, i.y);
    } else {
        panic!("fail");
    }
}

#[test]
fn test_intersect() {
    let a = vec2(6., 6.);
    let b = vec2(14., 8.);
    let c = vec2(8., 14.);
    let d = vec2(12., 0.);
    let i = vec2(10., 7.);
    let ab = Segment::new(a, b);
    let cd = minus(d, c);
    if let Some(res) = ab.intercept_by_ray(cd, c) {
        assert_eq!(res.x, i.x);
        assert_eq!(res.y, i.y);
    } else {
        panic!("fail");
    }
}

#[test]
fn test_no_intercept_inverse_direction() {
    let a = vec2(0., 0.);
    let b = vec2(2., 2.);
    let c = vec2(2., 1.);
    let d = vec2(3., 1.);
    let ab = Segment::new(a, b);
    let cd = minus(d, c);
    assert!(ab.intercept_by_ray(cd, c).is_none());
}

#[test]
fn test_no_intercept() {
    let a = vec2(5., -5.);
    let b = vec2(10., 0.);
    let c = vec2(10., -5.);
    let d = vec2(15., -3.);
    let ab = Segment::new(a, b);
    let cd = minus(d, c);
    assert!(ab.intercept_by_ray(cd, c).is_none());
}

#[test]
fn test_parallel() {
    let a = vec2(-5., -5.);
    let b = vec2(0., 0.);
    let c = vec2(0., -5.);
    let d = vec2(5., 0.);
    let ab = Segment::new(a, b);
    let cd = minus(d, c);
    assert!(ab.intercept_by_ray(cd, c).is_none());
}

#[test]
fn test_parallel_vertical() {
    let a = vec2(0., 0.);
    let b = vec2(0., 1.);
    let c = vec2(1., 0.);
    let d = vec2(1., 1.);
    let ab = Segment::new(a, b);
    let cd = minus(d, c);
    assert!(ab.intercept_by_ray(cd, c).is_none());
}

#[test]
fn test_parallel_horizontal() {
    let a = vec2(0., 0.);
    let b = vec2(1., 0.);
    let c = vec2(0., 1.);
    let d = vec2(1., 1.);
    let ab = Segment::new(a, b);
    let cd = minus(d, c);
    assert!(ab.intercept_by_ray(cd, c).is_none());
}

#[test]
fn test_point_on() {
    let a = vec2(-6.5, 2.);
    let b = vec2(-5.5, 3.);
    let p = vec2(-6., 2.5);
    let ab = Segment::new(a, b);
    assert!(ab.is_point_on(p));
}

#[test]
fn test_point_on_vertical() {
    let a = vec2(-5., 2.);
    let b = vec2(-5., 3.);
    let p = vec2(-5., 2.5);
    let ab = Segment::new(a, b);
    assert!(ab.is_point_on(p));
}

#[test]
fn test_point_on_horizontal() {
    let a = vec2(-6.5, 1.5);
    let b = vec2(-5.5, 1.5);
    let p = vec2(-6., 1.5);
    let ab = Segment::new(a, b);
    assert!(ab.is_point_on(p));
}

#[test]
fn test_not_point_on() {
    let a = vec2(-6.5, 2.);
    let b = vec2(-5.5, 3.);
    let p = vec2(-5.6, 2.2);
    let ab = Segment::new(a, b);
    assert!(!ab.is_point_on(p));
}

#[test]
fn test_not_point_on_vertical() {
    let a = vec2(-5., 2.);
    let b = vec2(-5., 3.);
    let p = vec2(-5.6, 2.2);
    let ab = Segment::new(a, b);
    assert!(!ab.is_point_on(p));
}

#[test]
fn test_not_point_on_horizontal() {
    let a = vec2(-6.5, 1.5);
    let b = vec2(-5.5, 1.5);
    let p = vec2(-5.6, 2.2);
    let ab = Segment::new(a, b);
    assert!(!ab.is_point_on(p));
}

#[test]
fn test_not_point_on_but_on_line() {
    let a = vec2(-7., 1.);
    let b = vec2(-6., 1.);
    let p = vec2(-7.5, 1.);
    let ab = Segment::new(a, b);
    assert!(!ab.is_point_on(p));
}

#[test]
fn test_intercept_voronoi_4p() {
    let boundary = Boundary::from_top_left(vec2(-10.0, 10.0), fx(20.), fx(20.));
    let top = Segment::new(boundary.top_right(), boundary.top_left());
    let right = Segment::new(boundary.bottom_right(), boundary.top_right());
    let bot = Segment::new(boundary.bottom_left(), boundary.bottom_right());
    let left = Segment::new(boundary.top_left(), boundary.bottom_left());
    let in_vertex1 = vec2(0.0, 2.0);
    let in_vertex2 = vec2(2., 6.0);
    let bound_top_intersect = vec2(2., 10.);
    let bound_left_intersect = vec2(-10., -1.3333333);
    let bound_bot_intersect = vec2(4., -10.);
    let bound_right_intersect = vec2(10., -2.);
    let vert1_dir_left = vec2(-6., -2.);
    let vert1_dir_bot = vec2(2., -6.);
    let vert2_dir_top = vec2(0., 12.);
    let vert2_dir_right = vec2(4., -4.);
    {
        assert!(top.intercept_by_ray(vert1_dir_left, in_vertex1).is_none());
        assert!(right.intercept_by_ray(vert1_dir_left, in_vertex1).is_none());
        assert!(bot.intercept_by_ray(vert1_dir_left, in_vertex1).is_none());
        if let Some(point) = left.intercept_by_ray(vert1_dir_left, in_vertex1) {
            assert_eq!(point.x, bound_left_intersect.x);
            assert!(float_eq(point.y, bound_left_intersect.y, 1));
        } else {
            panic!("fail");
        }

        assert!(top.intercept_by_ray(vert1_dir_bot, in_vertex1).is_none());
        assert!(right.intercept_by_ray(vert1_dir_bot, in_vertex1).is_none());
        assert!(left.intercept_by_ray(vert1_dir_bot, in_vertex1).is_none());
        if let Some(point) = bot.intercept_by_ray(vert1_dir_bot, in_vertex1) {
            assert_eq!(point.x, bound_bot_intersect.x);
            assert_eq!(point.y, bound_bot_intersect.y);
        } else {
            panic!("fail");
        }
    }
    {
        assert!(right.intercept_by_ray(vert2_dir_top, in_vertex2).is_none());
        assert!(bot.intercept_by_ray(vert2_dir_top, in_vertex2).is_none());
        assert!(left.intercept_by_ray(vert2_dir_top, in_vertex2).is_none());
        if let Some(point) = top.intercept_by_ray(vert2_dir_top, in_vertex2) {
            assert_eq!(point.x, bound_top_intersect.x);
            assert_eq!(point.y, bound_top_intersect.y);
        } else {
            panic!("fail");
        }

        assert!(top.intercept_by_ray(vert2_dir_right, in_vertex2).is_none());
        assert!(bot.intercept_by_ray(vert2_dir_right, in_vertex2).is_none());
        assert!(left.intercept_by_ray(vert2_dir_right, in_vertex2).is_none());
        if let Some(point) = right.intercept_by_ray(vert2_dir_right, in_vertex2) {
            assert_eq!(point.x, bound_right_intersect.x);
            assert_eq!(point.y, bound_right_intersect.y);
        } else {
            panic!("fail");
        }
    }
}

#[test]
fn intercept_is_a_pure_function_of_its_inputs() {
    let ab = Segment::new(vec2(6., 6.), vec2(14., 8.));
    let dir = vec2(4., -14.);
    let from = vec2(8., 14.);
    let first = ab.intercept_by_ray(dir, from);
    let second = ab.intercept_by_ray(dir, from);
    assert_eq!(first, second);
    assert_eq!(first, Some(vec2(10., 7.)));
}

#[test]
fn intercept_rejects_a_hit_beyond_the_end_of_the_segment() {
    let ab = Segment::new(vec2(0., 0.), vec2(4., 0.));
    assert_eq!(ab.intercept_by_ray(vec2(0., -1.), vec2(4., 3.)), Some(vec2(4., 0.)));
    assert_eq!(ab.intercept_by_ray(vec2(0., -1.), vec2(0., 3.)), Some(vec2(0., 0.)));
    assert!(ab.intercept_by_ray(vec2(0., -1.), vec2(4.000002, 3.)).is_none());
    assert!(ab.intercept_by_ray(vec2(0., -1.), vec2(-0.000002, 3.)).is_none());
}

#[test]
fn intercept_rejects_a_segment_without_length() {
    let point = Segment::new(vec2(1., 1.), vec2(1., 1.));
    assert!(point.intercept_by_ray(vec2(1., 0.), vec2(0., 1.)).is_none());
}

#[test]
fn intercept_rounds_the_hit_down() {
    let ab = Segment::new(vec2(0., 0.), vec2(0., 3.));
    let hit = ab.intercept_by_ray(vec2(-3., 1.), vec2(1., 0.));
    assert_eq!(hit, Some(Vec2::new(0, 333_333)));
}

#[test]
fn both_ends_of_a_segment_are_on_it() {
    let ab = Segment::new(vec2(-7., 1.), vec2(-6., 1.));
    assert!(ab.is_point_on(vec2(-7., 1.)));
    assert!(ab.is_point_on(vec2(-6., 1.)));
    assert!(!ab.is_point_on(vec2(-5.999999, 1.)));
    assert!(!ab.is_point_on(vec2(-7.000001, 1.)));
    let seg = Segment::new(vec2(0., 0.), vec2(2., 0.));
    assert!(seg.is_point_on(vec2(0., 0.)));
    assert!(seg.is_point_on(vec2(2., 0.)));
    assert!(seg.is_point_on(vec2(1., 0.)));
    let point = Segment::new(vec2(3., 3.), vec2(3., 3.));
    assert!(point.is_point_on(vec2(3., 3.)));
    assert!(!point.is_point_on(vec2(3., 3.000001)));
}

#[test]
fn closer_to_start_and_closer_to_end_are_opposites() {
    let seg = Segment::new(vec2(0., 0.), vec2(2., 0.));
    assert!(seg.point_closer_to_start(vec2(0.5, 0.)));
    assert!(!seg.point_closer_to_end(vec2(0.5, 0.)));
    assert!(!seg.point_closer_to_start(vec2(1.5, 0.)));
    assert!(seg.point_closer_to_end(vec2(1.5, 0.)));
    assert!(seg.point_closer_to_start(vec2(0., 0.)));
    assert!(!seg.point_closer_to_start(vec2(2., 0.)));
    let ab = Segment::new(vec2(0., 0.), vec2(10., 0.));
    assert!(ab.point_closer_to_start(vec2(7., 0.)));
    assert!(!ab.point_closer_to_start(vec2(8., 0.)));
    assert!(ab.point_closer_to_start(vec2(-7., 0.)));
    assert!(ab.point_closer_to_start(vec2(0., 7.)));
    for pt in [vec2(3., 4.), vec2(-1., 9.), vec2(10., 0.), vec2(5., 5.)] {
        assert_eq!(ab.point_closer_to_end(pt), !ab.point_closer_to_start(pt));
    }
    assert_eq!(ab.startp(), vec2(0., 0.));
    assert_eq!(ab.endp(), vec2(10., 0.));
}

#[test]
fn a_point_at_exactly_half_the_squared_length_counts_as_closer_to_start() {
    let seg = Segment::new(vec2(0., 0.), vec2(2., 0.));
    assert!(seg.point_closer_to_start(vec2(1., 1.)));
    assert!(!seg.point_closer_to_end(vec2(1., 1.)));
    assert!(!seg.point_closer_to_start(vec2(1., 1.000001)));
    let point = Segment::new(vec2(1., 1.), vec2(1., 1.));
    assert!(point.point_closer_to_start(vec2(1., 1.)));
    assert!(!point.point_closer_to_start(vec2(1., 1.000001)));
}

#[test]
fn boundary_corners_follow_from_origin_and_extent() {
    let boundary = Boundary::from_top_left(vec2(-32., 32.), fx(64.), fx(48.));
    assert_eq!(boundary.top_left(), vec2(-32., 32.));
    assert_eq!(boundary.top_right(), vec2(32., 32.));
    assert_eq!(boundary.bottom_left(), vec2(-32., -16.));
    assert_eq!(boundary.bottom_right(), vec2(32., -16.));
}

#[test]
fn projection_on_an_axis_keeps_one_coordinate() {
    let (p, k) = vector_projection(vec2(3., 4.), vec2(2., 0.)).unwrap();
    assert_eq!(p, vec2(3., 0.));
    assert_eq!(k, fx(1.5));
    assert!(vector_projection(vec2(3., 4.), vec2(0., 0.)).is_none());
    let (q, j) = vector_projection(vec2(-1., 0.), vec2(3., 0.)).unwrap();
    assert_eq!(j, -333_334);
    assert_eq!(q, Vec2::new(-1_000_002, 0));
}

#[test]
fn float_eq_includes_the_tolerance() {
    assert!(float_eq(10, 12, 2));
    assert!(float_eq(12, 10, 2));
    assert!(!float_eq(10, 13, 2));
    assert!(float_eq(i64::MIN, i64::MIN, 0));
    assert!(!float_eq(i64::MIN, i64::MAX, i64::MAX));
}

#[test]
fn a_point_beside_the_start_must_point_along_the_segment() {
    let ab = Segment::new(vec2(-7., 1.), vec2(-6., 1.));
    assert!(ab.is_point_on(Vec2::new(-7_000_000 + 1, 1_000_000)));
    assert!(!ab.is_point_on(Vec2::new(-7_000_000 + 1, 1_000_000 + 1)));
    assert!(!ab.is_point_on(Vec2::new(-7_000_000 + 100, 1_000_000 + 1)));
    assert!(!ab.is_point_on(Vec2::new(-7_000_000 + 706, 1_000_000 + 1)));
    assert!(ab.is_point_on(Vec2::new(-7_000_000 + 708, 1_000_000 + 1)));
    assert!(ab.is_point_on(Vec2::new(-7_000_000 + 500_000, 1_000_000 + 1)));
    assert!(!ab.is_point_on(Vec2::new(-7_000_000 + 500_000, 1_000_000 + 2)));
    assert!(!ab.is_point_on(Vec2::new(-7_000_000 - 1, 1_000_000)));
}
