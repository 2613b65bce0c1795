use fj_kernel::algorithms::reverse::cycle::is_connected;
use fj_kernel::algorithms::reverse::Reverse;
use fj_kernel::builder::cycle::CycleBuilder;
use fj_kernel::builder::edge::HalfEdgeBuilder;
use fj_kernel::geometry::curve::{Circle, Curve};
use fj_kernel::math::{Point1, Point2, Vector2, Winding};
use fj_kernel::objects::cycle::{Cycle, InvalidCycle};
use fj_kernel::objects::edge::{GlobalEdge, HalfEdge};
use fj_kernel::objects::face::{Color, Face};
use fj_kernel::objects::store::Objects;
use fj_kernel::objects::surface::Surface;
use fj_kernel::objects::vertex::Vertex;
use fj_kernel::operations::build::surface::BuildSurface;
use fj_kernel::math::Point3;
use fj_kernel::storage::Handle;

fn polygon(points: &[[i32; 2]], objects: &mut Objects) -> Handle<Cycle> {
    let corners = points.iter().map(|[u, v]| Point2::new(*u, *v)).collect();
    let cycle = CycleBuilder::polygon(&corners, objects).unwrap();
    objects.insert_cycle(cycle)
}

fn arc(boundary: [i32; 2], a: [i32; 2], b: [i32; 2], objects: &mut Objects) -> Handle<HalfEdge> {
    let circle = Circle {
        center: Point2::new(10, 10),
        a: Vector2::new(a[0], a[1]),
        b: Vector2::new(b[0], b[1]),
    };
    let half_edge = HalfEdgeBuilder::new(
        Curve::Circle(circle),
        [Point1::new(boundary[0]), Point1::new(boundary[1])],
    )
    .build(objects);
    objects.insert_half_edge(half_edge)
}

fn half_edges_of(cycle: &Handle<Cycle>, objects: &Objects) -> Vec<HalfEdge> {
    objects.cycle(cycle).half_edges().iter().map(|handle| *objects.half_edge(handle)).collect()
}

fn winding_of(cycle: &Handle<Cycle>, objects: &Objects) -> Result<Winding, InvalidCycle> {
    objects.cycle(cycle).winding(objects)
}

#[test]
fn new_cycle_holds_its_half_edges_in_order() {
    let mut objects = Objects::new();
    let cycle = polygon(&[[0, 0], [1, 0], [0, 1]], &mut objects);
    let handles = objects.cycle(&cycle).half_edges().clone();
    assert_eq!(handles.iter().map(|handle| handle.id()).collect::<Vec<_>>(), vec![0, 1, 2]);
    assert_eq!(Cycle::new(handles.clone()).half_edges(), &handles);
    assert_eq!(Cycle::new(Vec::new()).half_edges().len(), 0);
}

#[test]
fn winding_of_polygons() {
    let mut objects = Objects::new();

    // shoelace sum -1
    let ccw = polygon(&[[0, 0], [1, 0], [0, 1]], &mut objects);
    assert_eq!(winding_of(&ccw, &objects), Ok(Winding::Ccw));

    // shoelace sum +1
    let cw = polygon(&[[0, 0], [0, 1], [1, 0]], &mut objects);
    assert_eq!(winding_of(&cw, &objects), Ok(Winding::Cw));

    // a shape whose corners do not read the same from every start
    let ell = polygon(&[[0, 0], [4, 0], [4, 1], [1, 1], [1, 3], [0, 3]], &mut objects);
    assert_eq!(winding_of(&ell, &objects), Ok(Winding::Ccw));
}

#[test]
fn winding_of_far_corners() {
    let mut objects = Objects::new();
    let max = (1 << 30) - 1;
    let min = -(1 << 30);
    let ccw = polygon(&[[min, min], [max, min], [max, max], [min, max]], &mut objects);
    assert_eq!(winding_of(&ccw, &objects), Ok(Winding::Ccw));
    let cw = polygon(&[[min, min], [min, max], [max, max], [max, min]], &mut objects);
    assert_eq!(winding_of(&cw, &objects), Ok(Winding::Cw));
}

#[test]
fn winding_of_long_steps() {
    // half-edges whose parameters and directions are as large as they can be
    let mut objects = Objects::new();
    let mut half_edges = Vec::new();
    let far = i32::MAX;
    for (origin, direction) in [([0, 0], [far, 0]), ([0, 0], [far, far]), ([0, 0], [0, far])] {
        let line = fj_kernel::geometry::curve::Line {
            origin: Point2::new(origin[0], origin[1]),
            direction: Vector2::new(direction[0], direction[1]),
        };
        let half_edge = HalfEdgeBuilder::new(
            Curve::Line(line),
            [Point1::new(far), Point1::new(0)],
        )
        .build(&mut objects);
        half_edges.push(objects.insert_half_edge(half_edge));
    }
    let cycle = objects.insert_cycle(Cycle::new(half_edges.clone()));
    assert_eq!(winding_of(&cycle, &objects), Ok(Winding::Ccw));
    half_edges.reverse();
    let cycle = objects.insert_cycle(Cycle::new(half_edges));
    assert_eq!(winding_of(&cycle, &objects), Ok(Winding::Cw));
}

#[test]
fn winding_does_not_depend_on_the_first_half_edge() {
    let mut objects = Objects::new();
    let corners = [[0, 0], [4, 0], [4, 1], [1, 1], [1, 3], [0, 3]];
    for shift in 0..corners.len() {
        let mut turned = corners.to_vec();
        turned.rotate_left(shift);
        let cycle = polygon(&turned, &mut objects);
        assert_eq!(winding_of(&cycle, &objects), Ok(Winding::Ccw));
        let reversed = cycle.reverse(&mut objects);
        assert_eq!(winding_of(&reversed, &objects), Ok(Winding::Cw));
    }
}

#[test]
fn winding_of_circles() {
    let mut objects = Objects::new();

    let whole = arc([0, 4], [3, 0], [0, 3], &mut objects);
    let cycle = objects.insert_cycle(Cycle::new(vec![whole]));
    assert_eq!(winding_of(&cycle, &objects), Ok(Winding::Ccw));
    let reversed = cycle.reverse(&mut objects);
    assert_eq!(winding_of(&reversed, &objects), Ok(Winding::Cw));

    let backwards = arc([4, 0], [3, 0], [0, 3], &mut objects);
    let cycle = objects.insert_cycle(Cycle::new(vec![backwards]));
    assert_eq!(winding_of(&cycle, &objects), Ok(Winding::Cw));

    let mirrored = arc([0, 4], [3, 0], [0, -3], &mut objects);
    let cycle = objects.insert_cycle(Cycle::new(vec![mirrored]));
    assert_eq!(winding_of(&cycle, &objects), Ok(Winding::Cw));

    let mirrored_backwards = arc([4, 0], [3, 0], [0, -3], &mut objects);
    let cycle = objects.insert_cycle(Cycle::new(vec![mirrored_backwards]));
    assert_eq!(winding_of(&cycle, &objects), Ok(Winding::Ccw));

    let first_half = arc([0, 2], [3, 0], [0, 3], &mut objects);
    let second_half = arc([2, 4], [3, 0], [0, 3], &mut objects);
    let cycle = objects.insert_cycle(Cycle::new(vec![first_half, second_half]));
    assert_eq!(winding_of(&cycle, &objects), Ok(Winding::Ccw));
    let turned = objects.insert_cycle(Cycle::new(vec![second_half, first_half]));
    assert_eq!(winding_of(&turned, &objects), Ok(Winding::Ccw));
    let reversed = cycle.reverse(&mut objects);
    assert_eq!(winding_of(&reversed, &objects), Ok(Winding::Cw));
}

#[test]
fn cycles_without_winding() {
    let mut objects = Objects::new();

    let empty = objects.insert_cycle(Cycle::new(Vec::new()));
    assert_eq!(winding_of(&empty, &objects), Err(InvalidCycle::NoHalfEdges));

    let two_lines = polygon(&[[0, 0], [1, 0]], &mut objects);
    assert_eq!(winding_of(&two_lines, &objects), Err(InvalidCycle::NotCircular));

    let one_line = polygon(&[[0, 0]], &mut objects);
    assert!(HalfEdgeBuilder::line_segment([Point2::new(0, 0), Point2::new(0, 0)], None).is_some());
    assert_eq!(winding_of(&one_line, &objects), Err(InvalidCycle::NotCircular));

    let flat = polygon(&[[0, 0], [1, 1], [2, 2]], &mut objects);
    assert_eq!(winding_of(&flat, &objects), Err(InvalidCycle::ZeroArea));

    let there_and_back = polygon(&[[0, 0], [5, 0], [5, 5], [5, 0]], &mut objects);
    assert_eq!(winding_of(&there_and_back, &objects), Err(InvalidCycle::ZeroArea));
}

#[test]
fn polygon_sides_lead_from_corner_to_corner() {
    let mut objects = Objects::new();
    objects.insert_vertex(Vertex::new());
    let corners = vec![Point2::new(0, 0), Point2::new(4, 0), Point2::new(4, 3)];
    let cycle = CycleBuilder::polygon(&corners, &mut objects).unwrap();

    let sides: Vec<HalfEdge> =
        cycle.half_edges().iter().map(|handle| *objects.half_edge(handle)).collect();
    for k in 0..3 {
        assert_eq!(cycle.half_edges()[k].id(), k);
        assert_eq!(sides[k].boundary(), [Point1::new(0), Point1::new(1)]);
        assert_eq!(sides[k].start_vertex().id(), 1 + k);
        assert_eq!(sides[k].global_form().id(), k);
        let [start, end] = sides[k].boundary().map(|t| sides[k].curve().point_from_path_coords(t));
        assert_eq!([start.u as i32, start.v as i32], [corners[k].u, corners[k].v]);
        assert_eq!(
            [end.u as i32, end.v as i32],
            [corners[(k + 1) % 3].u, corners[(k + 1) % 3].v]
        );
    }

    // a side that is too long: nothing is built
    let far = vec![Point2::new(0, 0), Point2::new(i32::MIN, 0), Point2::new(i32::MAX, 0)];
    assert_eq!(CycleBuilder::polygon(&far, &mut objects), None);
    assert_eq!(objects.insert_vertex(Vertex::new()).id(), 4);
    assert_eq!(CycleBuilder::polygon(&Vec::new(), &mut objects), Some(Cycle::new(Vec::new())));
}

#[test]
fn cycles_that_are_connected() {
    let mut objects = Objects::new();
    let triangle = polygon(&[[0, 0], [4, 0], [4, 3]], &mut objects);
    assert!(is_connected(objects.cycle(&triangle), &objects));
    let reversed = triangle.reverse(&mut objects);
    assert!(is_connected(objects.cycle(&reversed), &objects));

    let sides = objects.cycle(&triangle).half_edges().clone();
    let ends: Vec<_> = sides.iter().map(|side| objects.half_edge(side).end_position()).collect();
    assert_eq!(ends.iter().map(|p| [p.u, p.v]).collect::<Vec<_>>(), vec![[4, 0], [4, 3], [0, 0]]);

    // the first side and the last do not meet
    let open = Cycle::new(vec![sides[0], sides[1]]);
    assert!(!is_connected(&open, &objects));
    // sides in the wrong order
    assert!(!is_connected(&Cycle::new(vec![sides[1], sides[0], sides[2]]), &objects));
    assert!(is_connected(&Cycle::new(vec![sides[1], sides[2], sides[0]]), &objects));
    assert!(is_connected(&Cycle::new(Vec::new()), &objects));

    let whole = arc([0, 4], [3, 0], [0, 3], &mut objects);
    assert!(is_connected(&Cycle::new(vec![whole]), &objects));
    let quarter = arc([0, 1], [3, 0], [0, 3], &mut objects);
    assert!(!is_connected(&Cycle::new(vec![quarter]), &objects));
}

#[test]
fn winding_reverses() {
    assert_eq!(Winding::Ccw.reverse(), Winding::Cw);
    assert_eq!(Winding::Cw.reverse(), Winding::Ccw);
    assert!(Winding::Ccw.is_ccw());
    assert!(!Winding::Ccw.is_cw());
    assert!(Winding::Cw.is_cw());
    assert!(!Winding::Cw.is_ccw());
}

#[test]
fn reversed_cycle_traces_the_same_boundary_backwards() {
    let mut objects = Objects::new();
    let cycle = polygon(&[[0, 0], [4, 0], [0, 3]], &mut objects);
    let original = half_edges_of(&cycle, &objects);

    let reversed = cycle.reverse(&mut objects);
    let turned = half_edges_of(&reversed, &objects);

    assert_eq!(turned.len(), 3);
    for j in 0..3 {
        let i = 2 - j;
        assert_eq!(turned[j].curve(), original[i].curve());
        assert_eq!(turned[j].boundary(), [Point1::new(1), Point1::new(0)]);
        assert_eq!(turned[j].start_vertex(), original[(i + 1) % 3].start_vertex());
        assert_eq!(turned[j].global_form(), original[i].global_form());
    }
    // the reversed cycle starts at (0, 0), goes to (0, 3), then to (4, 0)
    let starts: Vec<_> = turned.iter().map(|e| e.start_position()).map(|p| [p.u, p.v]).collect();
    assert_eq!(starts, vec![[0, 0], [0, 3], [4, 0]]);

    // what was there is still there
    assert_eq!(half_edges_of(&cycle, &objects), original);
    assert_eq!(objects.cycle(&reversed).half_edges().iter().map(Handle::id).collect::<Vec<_>>(),
        vec![5, 4, 3]);
}

#[test]
fn reversing_twice_gives_the_cycle_back() {
    let mut objects = Objects::new();
    for corners in [
        vec![[0, 0], [4, 0], [0, 3]],
        vec![[0, 0], [4, 0], [4, 1], [1, 1], [1, 3], [0, 3]],
        vec![[2, 2], [7, 9]],
        vec![[5, 5]],
        vec![],
    ] {
        let cycle = polygon(&corners, &mut objects);
        let once = cycle.reverse(&mut objects);
        let twice = once.reverse(&mut objects);
        assert_ne!(twice, cycle);
        assert_eq!(half_edges_of(&twice, &objects), half_edges_of(&cycle, &objects));
    }
}

#[test]
fn reversed_face_keeps_surface_and_color() {
    let mut objects = Objects::new();
    let surface = <Surface as BuildSurface>::plane_from_points([
        Point3::new(0, 0, 0),
        Point3::new(1, 0, 0),
        Point3::new(0, 1, 0),
    ])
    .unwrap();
    let surface = objects.insert_surface(surface);
    let exterior = polygon(&[[0, 0], [9, 0], [9, 9], [0, 9]], &mut objects);
    let hole = polygon(&[[1, 1], [1, 2], [2, 2], [2, 1]], &mut objects);
    let other_hole = polygon(&[[5, 5], [5, 6], [6, 5]], &mut objects);
    let color = Color { r: 1, g: 2, b: 3, a: 4 };
    let face = objects.insert_face(Face::new(surface, exterior, vec![hole, other_hole], color));

    let reversed = face.reverse(&mut objects);

    let turned = objects.face(&reversed).clone();
    assert_eq!(*turned.surface(), surface);
    assert_eq!(turned.color(), color);
    assert_eq!(turned.interiors().len(), 2);
    assert_eq!(winding_of(turned.exterior(), &objects), Ok(Winding::Cw));
    assert_eq!(winding_of(&turned.interiors()[0], &objects), Ok(Winding::Ccw));
    assert_eq!(winding_of(&turned.interiors()[1], &objects), Ok(Winding::Ccw));
    assert_eq!(
        turned.all_cycles(),
        vec![*turned.exterior(), turned.interiors()[0], turned.interiors()[1]]
    );

    let back = reversed.reverse(&mut objects);
    let back = objects.face(&back).clone();
    assert_eq!(half_edges_of(back.exterior(), &objects), half_edges_of(&exterior, &objects));
    assert_eq!(half_edges_of(&back.interiors()[0], &objects), half_edges_of(&hole, &objects));
    assert_eq!(half_edges_of(&back.interiors()[1], &objects), half_edges_of(&other_hole, &objects));
    assert_eq!(*objects.face(&face).exterior(), exterior);
}

#[test]
fn insertion_gives_fresh_identities() {
    let mut objects = Objects::new();
    let first = objects.insert_vertex(Vertex::new());
    let second = objects.insert_vertex(Vertex::new());
    assert_ne!(first, second);
    assert!(!first.same(&second));
    assert!(first.same(&first.clone()));
    assert_eq!([first.id(), second.id()], [0, 1]);
    assert!(objects.has_vertex(&first) && objects.has_vertex(&second));

    let lonely = Objects::new();
    assert!(!lonely.has_vertex(&first));

    let edge = objects.insert_global_edge(GlobalEdge::new());
    let other = objects.insert_global_edge(GlobalEdge::new());
    assert_ne!(edge, other);
    assert!(objects.has_global_edge(&other));

    let cycle = objects.insert_cycle(Cycle::new(Vec::new()));
    let same_content = objects.insert_cycle(Cycle::new(Vec::new()));
    assert_ne!(cycle, same_content);
    assert!(objects.has_cycle(&same_content));
    assert_eq!(objects.cycle(&cycle), objects.cycle(&same_content));
}

#[test]
fn store_knows_what_it_issued() {
    let mut objects = Objects::new();
    let other = Objects::new();
    let cycle = polygon(&[[0, 0], [1, 0], [0, 1]], &mut objects);
    let half_edge = *objects.half_edge(&objects.cycle(&cycle).half_edges()[2]);

    assert!(objects.holds_half_edge(&half_edge));
    assert!(!other.holds_half_edge(&half_edge));
    assert!(objects.holds_cycle(objects.cycle(&cycle)));
    assert!(!other.holds_cycle(objects.cycle(&cycle)));
    assert!(other.holds_cycle(&Cycle::new(Vec::new())));

    let surface = <Surface as BuildSurface>::plane_from_points([
        Point3::new(0, 0, 0),
        Point3::new(1, 0, 0),
        Point3::new(0, 1, 0),
    ])
    .unwrap();
    let surface = objects.insert_surface(surface);
    let unknown = {
        let mut larger = Objects::new();
        larger.insert_cycle(Cycle::new(Vec::new()));
        larger.insert_cycle(Cycle::new(Vec::new()))
    };
    let face = Face::new(surface, cycle, vec![cycle], Color::default());
    assert!(objects.holds_face(&face));
    assert!(!other.holds_face(&face));
    assert!(!objects.holds_face(&Face::new(surface, unknown, Vec::new(), Color::default())));
    let with_unknown_hole = Face::new(surface, cycle, vec![cycle, unknown], Color::default());
    assert!(!objects.holds_face(&with_unknown_hole));
}
