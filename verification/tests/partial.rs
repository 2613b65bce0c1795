use fj_kernel::builder::edge::HalfEdgeBuilder;
use fj_kernel::geometry::curve::{Circle, Curve, Line};
use fj_kernel::math::{Point1, Point2, Point3, SurfacePosition, Vector2};
use fj_kernel::objects::cycle::Cycle;
use fj_kernel::objects::edge::{GlobalEdge, HalfEdge};
use fj_kernel::objects::face::{Color, Face};
use fj_kernel::objects::shell::Shell;
use fj_kernel::objects::store::Objects;
use fj_kernel::objects::surface::Surface;
use fj_kernel::objects::vertex::Vertex;
use fj_kernel::operations::build::surface::BuildSurface;
use fj_kernel::partial::objects::cycle::PartialCycle;
use fj_kernel::partial::objects::edge::{MissingPart, PartialHalfEdge};
use fj_kernel::partial::objects::shell::PartialShell;
use fj_kernel::partial::objects::face::PartialFace;
use fj_kernel::partial::traits::PartialObject;
use fj_kernel::partial::{FullToPartialCache, MaybeCurve, Partial};
use fj_kernel::viewer::DrawConfig;

fn line(origin: [i32; 2], direction: [i32; 2]) -> Line {
    Line {
        origin: Point2::new(origin[0], origin[1]),
        direction: Vector2::new(direction[0], direction[1]),
    }
}

#[test]
fn half_edge_round_trip() {
    let mut objects = Objects::new();
    let vertex = objects.insert_vertex(Vertex::new());
    let global_form = objects.insert_global_edge(GlobalEdge::new());
    let full = HalfEdge::new(
        Curve::Line(line([1, 2], [3, 4])),
        [Point1::new(-1), Point1::new(5)],
        vertex,
        global_form,
    );

    let mut cache = FullToPartialCache::default();
    let partial = PartialHalfEdge::from_full(&full, &mut cache);

    assert_eq!(partial.curve, Some(MaybeCurve::Defined(full.curve())));
    assert_eq!(partial.boundary, [Some(Point1::new(-1)), Some(Point1::new(5))]);
    assert_eq!(partial.start_vertex, Partial::Existing(vertex));
    assert_eq!(partial.global_form, global_form);
    assert_eq!(partial.missing(), None);
    assert!(cache.has_vertex(&vertex));

    let built = partial.build(&mut objects);
    assert_eq!(built, full);
    assert!(!objects.has_vertex(&fj_kernel::storage::Handle::clone(&{
        let mut other = Objects::new();
        other.insert_vertex(Vertex::new());
        other.insert_vertex(Vertex::new())
    })));
}

#[test]
fn new_partial_half_edge_has_a_global_edge_and_nothing_else() {
    let mut objects = Objects::new();
    let partial = PartialHalfEdge::new(&mut objects);
    assert_eq!(partial.curve, None);
    assert_eq!(partial.boundary, [None, None]);
    assert_eq!(partial.start_vertex, Partial::Fresh);
    assert!(objects.has_global_edge(&partial.global_form));
    assert_eq!(partial.global_form.id(), 0);
    assert_eq!(partial.missing(), Some(MissingPart::Curve));
    assert_eq!(partial.start_position(), None);

    let next = PartialHalfEdge::new(&mut objects);
    assert_eq!(next.global_form.id(), 1);
}

#[test]
fn missing_parts_are_named() {
    let mut objects = Objects::new();
    let mut partial = PartialHalfEdge::new(&mut objects);
    assert_eq!(partial.missing(), Some(MissingPart::Curve));

    partial.curve = Some(MaybeCurve::UndefinedLine);
    assert_eq!(partial.missing(), Some(MissingPart::CurvePlacement));
    partial.curve = Some(MaybeCurve::UndefinedCircle { radius: 3 });
    assert_eq!(partial.missing(), Some(MissingPart::CurvePlacement));

    partial.curve = Some(MaybeCurve::Defined(Curve::Line(line([0, 0], [1, 0]))));
    assert_eq!(partial.missing(), Some(MissingPart::BoundaryStart));
    partial.boundary[1] = Some(Point1::new(2));
    assert_eq!(partial.missing(), Some(MissingPart::BoundaryStart));
    assert_eq!(partial.start_position(), None);
    partial.boundary = [Some(Point1::new(1)), None];
    assert_eq!(partial.missing(), Some(MissingPart::BoundaryEnd));
    assert_eq!(partial.start_position(), Some(SurfacePosition { u: 1, v: 0 }));
    partial.boundary[1] = Some(Point1::new(2));
    assert_eq!(partial.missing(), None);

    let global_form = partial.global_form;
    let built = partial.build(&mut objects);
    assert_eq!(built.boundary(), [Point1::new(1), Point1::new(2)]);
    assert_eq!(*built.global_form(), global_form);
    assert_eq!(built.start_vertex().id(), 0);
    assert!(objects.has_vertex(built.start_vertex()));
}

#[test]
fn partial_start_position_needs_a_placed_curve() {
    let mut objects = Objects::new();
    let mut partial = PartialHalfEdge::new(&mut objects);
    partial.boundary = [Some(Point1::new(3)), Some(Point1::new(4))];
    assert_eq!(partial.start_position(), None);
    partial.curve = Some(MaybeCurve::UndefinedLine);
    assert_eq!(partial.start_position(), None);
    partial.curve = Some(MaybeCurve::Defined(Curve::Line(line([1, 2], [3, 4]))));
    assert_eq!(partial.start_position(), Some(SurfacePosition { u: 10, v: 14 }));
}

#[test]
fn face_round_trip() {
    let mut objects = Objects::new();
    let surface = <Surface as BuildSurface>::plane_from_points([
        Point3::new(0, 0, 0),
        Point3::new(1, 0, 0),
        Point3::new(0, 1, 0),
    ])
    .unwrap();
    let surface = objects.insert_surface(surface);
    let exterior = objects.insert_cycle(Cycle::new(Vec::new()));
    let hole = objects.insert_cycle(Cycle::new(Vec::new()));
    let color = Color { r: 9, g: 8, b: 7, a: 6 };
    let full = Face::new(surface, exterior, vec![hole, exterior], color);

    let mut cache = FullToPartialCache::new();
    let partial = PartialFace::from_full(&full, &mut cache);
    assert_eq!(partial.surface, Some(surface));
    assert_eq!(partial.exterior, Partial::Existing(exterior));
    assert_eq!(partial.interiors, vec![Partial::Existing(hole), Partial::Existing(exterior)]);
    assert_eq!(partial.color, Some(color));
    assert!(cache.has_cycle(&exterior) && cache.has_cycle(&hole));

    let built = partial.build(&mut objects);
    assert_eq!(built, full);
    let unseen = objects.insert_cycle(Cycle::new(Vec::new()));
    assert_eq!(unseen.id(), 2);
    assert!(!cache.has_cycle(&unseen));
}

#[test]
fn cycle_and_shell_round_trip() {
    let mut objects = Objects::new();
    let mut cache = FullToPartialCache::new();

    let side = HalfEdgeBuilder::line_segment([Point2::new(0, 0), Point2::new(1, 0)], None)
        .unwrap()
        .build(&mut objects);
    let side = objects.insert_half_edge(side);
    let cycle = Cycle::new(vec![side, side]);
    let mut partial = PartialCycle::from_full(&cycle, &mut cache);
    assert_eq!(partial.half_edges, vec![side, side]);
    assert_eq!(PartialCycle::from_full(&cycle, &mut cache).build(&mut objects), cycle);
    partial.half_edges.pop();
    assert_eq!(partial.build(&mut objects), Cycle::new(vec![side]));
    assert_eq!(PartialCycle::new(&mut objects).build(&mut objects), Cycle::new(Vec::new()));

    let surface = <Surface as BuildSurface>::plane_from_points([
        Point3::new(0, 0, 0),
        Point3::new(1, 0, 0),
        Point3::new(0, 1, 0),
    ])
    .unwrap();
    let surface = objects.insert_surface(surface);
    let exterior = objects.insert_cycle(cycle);
    let [first, second] = [0, 1].map(|_| {
        objects.insert_face(Face::new(surface, exterior, Vec::new(), Color::default()))
    });
    let shell = Shell::new(vec![second, first]);
    let mut partial = PartialShell::from_full(&shell, &mut cache);
    assert_eq!(partial.faces, vec![first, second]);
    assert_eq!(PartialShell::from_full(&shell, &mut cache).build(&mut objects), shell);
    partial.faces.push(first);
    partial.faces.remove(1);
    assert_eq!(partial.build(&mut objects).faces(), &vec![first]);
    assert_eq!(PartialShell::new(&mut objects).build(&mut objects).faces().len(), 0);
    assert!(!cache.has_cycle(&exterior) && !cache.has_vertex(&objects.insert_vertex(Vertex::new())));
}

#[test]
fn fresh_cycles_are_inserted_when_a_face_is_built() {
    let mut objects = Objects::new();
    let surface = <Surface as BuildSurface>::plane_from_points([
        Point3::new(0, 0, 0),
        Point3::new(1, 0, 0),
        Point3::new(0, 1, 0),
    ])
    .unwrap();
    let surface = objects.insert_surface(surface);
    let existing = objects.insert_cycle(Cycle::new(Vec::new()));

    let mut partial = PartialFace::new(&mut objects);
    assert_eq!(partial.surface, None);
    assert_eq!(partial.exterior, Partial::Fresh);
    assert_eq!(partial.interiors, Vec::new());
    assert_eq!(partial.color, None);
    partial.surface = Some(surface);
    partial.interiors = vec![Partial::Fresh, Partial::Existing(existing), Partial::Fresh];

    let built = partial.build(&mut objects);
    assert_eq!(built.exterior().id(), 1);
    assert_eq!(built.interiors().iter().map(|c| c.id()).collect::<Vec<_>>(), vec![2, 0, 3]);
    assert_eq!(built.color(), Color { r: 255, g: 0, b: 0, a: 255 });
    assert_eq!(built.color(), Color::default());
    assert!(objects.has_cycle(&built.interiors()[2]));
    assert_eq!(objects.cycle(built.exterior()).half_edges().len(), 0);
}

#[test]
fn line_segment_between_points() {
    let points = [Point2::new(1, 1), Point2::new(3, 5)];
    let mut objects = Objects::new();

    let unit = HalfEdgeBuilder::line_segment(points, None).unwrap().build(&mut objects);
    assert_eq!(unit.curve(), Curve::Line(line([1, 1], [2, 4])));
    assert_eq!(unit.boundary(), [Point1::new(0), Point1::new(1)]);
    assert_eq!(unit.start_position(), SurfacePosition { u: 1, v: 1 });

    let stretched =
        HalfEdgeBuilder::line_segment(points, Some([Point1::new(5), Point1::new(3)]))
            .unwrap()
            .build(&mut objects);
    assert_eq!(stretched.curve(), Curve::Line(line([6, 11], [-1, -2])));
    assert_eq!(stretched.boundary(), [Point1::new(5), Point1::new(3)]);
    assert_eq!(stretched.start_position(), SurfacePosition { u: 1, v: 1 });
    assert_eq!(
        stretched.curve().point_from_path_coords(Point1::new(3)),
        SurfacePosition { u: 3, v: 5 }
    );
}

#[test]
fn line_segment_that_the_lattice_does_not_hold() {
    let points = [Point2::new(1, 1), Point2::new(3, 5)];
    // the step is not a whole number of times the step of the parameter
    let boundary = |start: i32, end: i32| Some([Point1::new(start), Point1::new(end)]);
    assert!(HalfEdgeBuilder::line_segment(points, boundary(0, 4)).is_none());
    // both parameters are the same
    assert!(HalfEdgeBuilder::line_segment(points, boundary(2, 2)).is_none());
    // the direction is longer than a lattice vector can be
    let far = [Point2::new(i32::MIN, 0), Point2::new(i32::MAX, 0)];
    assert!(HalfEdgeBuilder::line_segment(far, None).is_none());
    assert!(HalfEdgeBuilder::line_segment(far, boundary(0, 3)).is_some());
    // the origin is further out than a lattice point can be
    let out = [Point2::new(i32::MAX - 1, 0), Point2::new(i32::MAX, 0)];
    assert!(HalfEdgeBuilder::line_segment(out, boundary(-2, -1)).is_none());
    assert!(HalfEdgeBuilder::line_segment(out, boundary(2, 3)).is_some());
}

#[test]
fn builder_uses_what_it_is_given() {
    let mut objects = Objects::new();
    let vertex = objects.insert_vertex(Vertex::new());
    let global_form = objects.insert_global_edge(GlobalEdge::new());
    let curve = Curve::Line(line([0, 0], [1, 0]));
    let boundary = [Point1::new(0), Point1::new(1)];

    let given = HalfEdgeBuilder::new(curve, boundary)
        .with_start_vertex(vertex)
        .with_global_form(global_form)
        .build(&mut objects);
    assert_eq!(given, HalfEdge::new(curve, boundary, vertex, global_form));

    let made = HalfEdgeBuilder::new(curve, boundary).build(&mut objects);
    assert_eq!(made.start_vertex().id(), 1);
    assert_eq!(made.global_form().id(), 1);
    assert!(objects.has_vertex(made.start_vertex()));
    assert!(objects.has_global_edge(made.global_form()));

    let half =
        HalfEdgeBuilder::new(curve, boundary).with_global_form(global_form).build(&mut objects);
    assert_eq!(half.start_vertex().id(), 2);
    assert_eq!(*half.global_form(), global_form);
}

#[test]
fn curves_map_parameters_to_positions() {
    let on_line = line([1, 2], [3, 4]);
    assert_eq!(on_line.point_from_line_coords(Point1::new(5)), SurfacePosition { u: 16, v: 22 });
    assert_eq!(on_line.point_from_line_coords(Point1::new(-2)), SurfacePosition { u: -5, v: -6 });
    assert_eq!(
        line([i32::MIN, i32::MAX], [i32::MIN, i32::MAX])
            .point_from_line_coords(Point1::new(i32::MIN)),
        SurfacePosition {
            u: i32::MIN as i64 + (i32::MIN as i64) * (i32::MIN as i64),
            v: i32::MAX as i64 + (i32::MAX as i64) * (i32::MIN as i64),
        }
    );

    let circle =
        Circle { center: Point2::new(10, 20), a: Vector2::new(3, 1), b: Vector2::new(-1, 3) };
    let at = |t: i32| {
        let p = Curve::Circle(circle).point_from_path_coords(Point1::new(t));
        [p.u, p.v]
    };
    assert_eq!([at(0), at(1), at(2), at(3)], [[13, 21], [9, 23], [7, 19], [11, 17]]);
    assert_eq!([at(4), at(5), at(-1), at(-4)], [[13, 21], [9, 23], [11, 17], [13, 21]]);
    assert_eq!(at(i32::MAX), at(3));
    assert_eq!(at(i32::MIN), at(0));
    assert!(Curve::Circle(circle).is_circle());
    assert!(!Curve::Line(on_line).is_circle());
    assert_eq!(circle.a.cross2d(&circle.b), 10);
    assert_eq!(circle.b.cross2d(&circle.a), -10);
}

#[test]
fn middles_of_half_edges() {
    let mut objects = Objects::new();
    let circle = Circle { center: Point2::new(0, 0), a: Vector2::new(1, 0), b: Vector2::new(0, 1) };
    let on_circle = |boundary: [i32; 2], objects: &mut Objects| {
        HalfEdgeBuilder::new(
            Curve::Circle(circle),
            [Point1::new(boundary[0]), Point1::new(boundary[1])],
        )
        .build(objects)
    };
    assert!(on_circle([0, 4], &mut objects).has_middle());
    assert!(on_circle([1, 3], &mut objects).has_middle());
    assert!(on_circle([-3, 1], &mut objects).has_middle());
    assert!(!on_circle([0, 1], &mut objects).has_middle());
    assert!(!on_circle([-2, 1], &mut objects).has_middle());
    let on_line = HalfEdgeBuilder::line_segment([Point2::new(0, 0), Point2::new(1, 0)], None)
        .unwrap()
        .build(&mut objects);
    assert!(on_line.has_middle());
}

#[test]
fn planes_through_points() {
    let [a, b, c] = [Point3::new(1, 2, 3), Point3::new(4, 6, 8), Point3::new(0, -1, 5)];
    let plane = <Surface as BuildSurface>::plane_from_points([a, b, c]).unwrap();
    let geometry = plane.geometry();
    let fj_kernel::geometry::surface::GlobalPath::Line(u) = geometry.u;
    assert_eq!(u.origin, a);
    assert_eq!([u.direction.x, u.direction.y, u.direction.z], [3, 4, 5]);
    assert_eq!([geometry.v.x, geometry.v.y, geometry.v.z], [-1, -3, 2]);

    let reach = |u: i64, v: i64| {
        let p = geometry.point_from_surface_coords(SurfacePosition { u, v });
        [p.x, p.y, p.z]
    };
    assert_eq!(reach(0, 0), [1, 2, 3]);
    assert_eq!(reach(1, 0), [4, 6, 8]);
    assert_eq!(reach(0, 1), [0, -1, 5]);
    assert_eq!(reach(2, 3), [1 + 2 * 3 - 3, 2 + 2 * 4 - 3 * 3, 3 + 2 * 5 + 3 * 2]);
    let far_out = 0x4000_0000_8000_0000_i64;
    assert_eq!(reach(far_out, -far_out)[0], 1 + 4 * far_out as i128);

    let far = Point3::new(i32::MAX, 0, 0);
    let other = Point3::new(i32::MIN, 0, 0);
    assert!(<Surface as BuildSurface>::plane_from_points([far, other, c]).is_none());
    assert!(<Surface as BuildSurface>::plane_from_points([far, c, other]).is_none());
    assert!(<Surface as BuildSurface>::plane_from_points([c, far, other]).is_some());
}

#[test]
fn draw_config_toggles() {
    let mut config = DrawConfig::default();
    assert_eq!(config, DrawConfig { draw_model: true, draw_mesh: false, draw_debug: false });

    config.toggle_draw_model();
    assert_eq!(config, DrawConfig { draw_model: false, draw_mesh: false, draw_debug: false });
    config.toggle_draw_model();
    assert!(config.draw_model);

    config.toggle_draw_mesh(false);
    config.toggle_draw_debug(false);
    assert_eq!(config, DrawConfig::default());

    config.toggle_draw_mesh(true);
    assert_eq!(config, DrawConfig { draw_model: true, draw_mesh: true, draw_debug: false });
    config.toggle_draw_debug(true);
    assert_eq!(config, DrawConfig { draw_model: true, draw_mesh: true, draw_debug: true });
    config.toggle_draw_mesh(true);
    config.toggle_draw_debug(true);
    assert_eq!(config, DrawConfig::default());
}
