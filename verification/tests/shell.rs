use fj_kernel::algorithms::bounding_volume::{bounding_volume, Aabb};
use fj_kernel::math::{GlobalPosition, Point3};
use fj_kernel::objects::cycle::Cycle;
use fj_kernel::objects::edge::GlobalEdge;
use fj_kernel::objects::face::Face;
use fj_kernel::objects::shell::Shell;
use fj_kernel::objects::store::Objects;
use fj_kernel::operations::build::face::{BuildFace, Triangle};
use fj_kernel::operations::build::shell::{BuildShell, Tetrahedron};
use fj_kernel::operations::update::{UpdateCycle, UpdateFace, UpdateHalfEdge, UpdateShell};
use fj_kernel::storage::Handle;
use fj_kernel::validate::coincidence::distances;
use fj_kernel::validate::edges::{edges_and_surfaces, edges_have_middles};
use fj_kernel::validate::shell::ShellValidationError;
use fj_kernel::validate::{Validate, ValidationConfig, ValidationError};

fn points<const N: usize>(points: [[i32; 3]; N]) -> [Point3; N] {
    points.map(|[x, y, z]| Point3::new(x, y, z))
}

fn triangle(
    corners: [[i32; 3]; 3],
    edges: [Option<Handle<GlobalEdge>>; 3],
    objects: &mut Objects,
) -> (Handle<Face>, [Handle<GlobalEdge>; 3]) {
    let Triangle { face, edges } = Face::triangle(points(corners), edges, objects).unwrap();
    (face, edges)
}

fn tetrahedron(corners: [[i32; 3]; 4], objects: &mut Objects) -> Tetrahedron {
    Shell::tetrahedron(points(corners), objects).unwrap()
}

fn unit_tetrahedron(objects: &mut Objects) -> Tetrahedron {
    tetrahedron([[0, 0, 0], [1, 0, 0], [0, 1, 0], [0, 0, 1]], objects)
}

fn errors_of(shell: &Shell, objects: &Objects) -> Vec<ValidationError> {
    assert!(objects.holds_shell(shell));
    assert!(edges_have_middles(shell, objects));
    let mut errors = Vec::new();
    shell.validate(objects, &mut errors);
    errors
}

fn exterior_of(face: &Handle<Face>, objects: &Objects) -> Cycle {
    objects.cycle(objects.face(face).exterior()).clone()
}

fn with_fresh_global_edge(valid: &Tetrahedron, objects: &mut Objects) -> (Shell, Handle<Face>) {
    let face = objects.face(&valid.face_abc).clone();
    let cycle = exterior_of(&valid.face_abc, objects);
    let half_edge = *objects.half_edge(&cycle.half_edges()[0]);

    let global_form = objects.insert_global_edge(GlobalEdge::new());
    let half_edge = objects.insert_half_edge(half_edge.update_global_form(global_form));
    let cycle = objects.insert_cycle(cycle.replace_half_edge(0, half_edge));
    let face = objects.insert_face(face.replace_exterior(cycle));
    (valid.shell.replace_face(&valid.face_abc, face), face)
}

#[test]
fn coincident_not_identical() {
    let mut objects = Objects::new();

    let valid = unit_tetrahedron(&mut objects);
    let (invalid, _) = with_fresh_global_edge(&valid, &mut objects);

    assert_eq!(valid.shell.validate_and_return_first_error(&objects), Ok(()));
    let errors = errors_of(&invalid, &objects);
    assert!(errors.iter().any(|error| matches!(
        error,
        ValidationError::Shell(ShellValidationError::CoincidentEdgesNotIdentical(..))
    )));
}

#[test]
fn shell_not_watertight() {
    let mut objects = Objects::new();

    let valid = unit_tetrahedron(&mut objects);
    let invalid = valid.shell.remove_face(&valid.face_abc);

    assert_eq!(valid.shell.validate_and_return_first_error(&objects), Ok(()));
    let errors = errors_of(&invalid, &objects);
    assert!(errors
        .iter()
        .any(|error| matches!(error, ValidationError::Shell(ShellValidationError::NotWatertight))));
}

#[test]
fn valid_tetrahedron_has_no_errors() {
    let mut objects = Objects::new();
    let valid = unit_tetrahedron(&mut objects);
    assert_eq!(errors_of(&valid.shell, &objects), Vec::new());

    let mut larger = Objects::new();
    let valid = tetrahedron([[-3, 2, 1], [7, 0, 0], [1, 9, -2], [2, 3, 8]], &mut larger);
    assert_eq!(errors_of(&valid.shell, &larger), Vec::new());
}

#[test]
fn tetrahedron_is_built_face_by_face() {
    let mut objects = Objects::new();
    objects.insert_global_edge(GlobalEdge::new());
    let built = unit_tetrahedron(&mut objects);

    assert_eq!(
        built.shell.faces(),
        &vec![built.face_abc, built.face_bad, built.face_dac, built.face_cbd]
    );
    let traced: Vec<Vec<usize>> = built
        .shell
        .faces()
        .iter()
        .map(|face| {
            exterior_of(face, &objects)
                .half_edges()
                .iter()
                .map(|half_edge| objects.half_edge(half_edge).global_form().id())
                .collect()
        })
        .collect();
    assert_eq!(traced, vec![vec![1, 2, 3], vec![1, 4, 5], vec![4, 3, 6], vec![2, 5, 6]]);
    let last = exterior_of(&built.face_cbd, &objects).half_edges()[2];
    assert!(objects.has_global_edge(objects.half_edge(&last).global_form()));

    // the next objects get the next ids
    assert_eq!(objects.insert_global_edge(GlobalEdge::new()).id(), 7);
    assert_eq!(objects.insert_cycle(Cycle::new(Vec::new())).id(), 4);
    let (next, _) = triangle([[0, 0, 0], [1, 0, 0], [0, 1, 0]], [None; 3], &mut objects);
    assert_eq!(next.id(), 4);
    assert_eq!(objects.face(&next).surface().id(), 4);
    assert_eq!(exterior_of(&next, &objects).half_edges()[0].id(), 12);
}

#[test]
fn tetrahedron_that_the_lattice_does_not_hold() {
    let mut objects = Objects::new();
    let far = i32::MAX;
    for corners in [
        [[-far, 0, 0], [far, 0, 0], [0, 1, 0], [0, 0, 1]],
        [[0, 0, 0], [1, 0, 0], [0, -far, 0], [0, far, 1]],
        [[0, 0, 0], [1, 0, 0], [0, 1, far], [0, 0, -far]],
    ] {
        assert_eq!(Shell::tetrahedron(points(corners), &mut objects), None);
    }
    for corners in [[[-far, 0, 0], [far, 0, 0], [0, 1, 0]], [[0, -far, 0], [0, 0, 0], [0, far, 0]]] {
        assert_eq!(Face::triangle(points(corners), [None; 3], &mut objects), None);
    }
    // nothing was inserted
    let built = tetrahedron([[0, 0, 0], [far, 0, 0], [0, far, 0], [0, 0, far]], &mut objects);
    assert_eq!(built.face_abc.id(), 0);
    assert_eq!(errors_of(&built.shell, &objects), Vec::new());
}

#[test]
fn updates_give_new_objects() {
    let mut objects = Objects::new();
    let valid = unit_tetrahedron(&mut objects);
    let cycle = exterior_of(&valid.face_abc, &objects);
    let half_edge = *objects.half_edge(&cycle.half_edges()[1]);

    let other = *objects.half_edge(&cycle.half_edges()[2]).global_form();
    let updated = half_edge.update_global_form(other);
    assert_eq!(*updated.global_form(), other);
    assert_eq!(updated.curve(), half_edge.curve());
    assert_eq!(updated.boundary(), half_edge.boundary());
    assert_eq!(updated.start_vertex(), half_edge.start_vertex());

    let replaced = cycle.replace_half_edge(2, cycle.half_edges()[0]);
    assert_eq!(
        replaced.half_edges(),
        &vec![cycle.half_edges()[0], cycle.half_edges()[1], cycle.half_edges()[0]]
    );
    assert_eq!(cycle.half_edges().len(), 3);

    let face = objects.face(&valid.face_abc).clone();
    let other_exterior = *objects.face(&valid.face_bad).exterior();
    let turned = face.replace_exterior(other_exterior);
    assert_eq!(*turned.exterior(), other_exterior);
    assert_eq!(turned.surface(), face.surface());
    assert_eq!(turned.interiors(), face.interiors());
    assert_eq!(turned.color(), face.color());

    let [a, b, c, d] = [valid.face_abc, valid.face_bad, valid.face_dac, valid.face_cbd];
    assert_eq!(valid.shell.remove_face(&b).faces(), &vec![a, c, d]);
    assert_eq!(valid.shell.remove_face(&b).remove_face(&b).faces(), &vec![a, c, d]);
    assert_eq!(valid.shell.replace_face(&c, a).faces(), &vec![a, b, d]);
    assert_eq!(valid.shell.remove_face(&a).replace_face(&c, a).faces(), &vec![a, b, d]);
    assert_eq!(valid.shell.remove_face(&a).replace_face(&a, a), valid.shell);
    assert_eq!(valid.shell.faces().len(), 4);
}

#[test]
fn removing_a_face_gives_exactly_one_not_watertight() {
    let mut objects = Objects::new();
    let valid = unit_tetrahedron(&mut objects);
    for face in [valid.face_abc, valid.face_bad, valid.face_dac, valid.face_cbd] {
        let invalid = valid.shell.remove_face(&face);
        assert_eq!(invalid.faces().len(), 3);
        assert_eq!(
            errors_of(&invalid, &objects),
            vec![ValidationError::Shell(ShellValidationError::NotWatertight)]
        );
    }
    let invalid = valid.shell.remove_face(&valid.face_dac);
    assert_eq!(invalid.faces(), &vec![valid.face_abc, valid.face_bad, valid.face_cbd]);

    let errors = errors_of(&invalid, &objects);
    assert_eq!(errors, vec![ValidationError::Shell(ShellValidationError::NotWatertight)]);
    assert!(errors[0].is_not_watertight());
    assert!(!errors[0].is_coincident_not_identical());
    assert_eq!(
        invalid.validate_and_return_first_error(&objects),
        Err(ValidationError::Shell(ShellValidationError::NotWatertight))
    );
}

#[test]
fn fresh_global_edge_is_reported_for_that_pair() {
    let mut objects = Objects::new();
    let valid = unit_tetrahedron(&mut objects);
    let (invalid, changed_face) = with_fresh_global_edge(&valid, &mut objects);

    // the changed face is the newest, so it is the last of the shell
    assert_eq!(
        invalid.faces(),
        &vec![valid.face_bad, valid.face_dac, valid.face_cbd, changed_face]
    );
    let changed = exterior_of(&changed_face, &objects).half_edges()[0];
    let twin = objects.cycle(objects.face(&valid.face_bad).exterior()).half_edges()[0];

    let errors = errors_of(&invalid, &objects);
    assert_eq!(
        errors,
        vec![
            ValidationError::Shell(ShellValidationError::CoincidentEdgesNotIdentical(
                twin, changed
            )),
            ValidationError::Shell(ShellValidationError::NotWatertight),
        ]
    );
    assert!(errors[0].is_coincident_not_identical());
    assert!(!errors[0].is_identical_not_coincident());

    assert_eq!(errors_of(&valid.shell, &objects), Vec::new());
}

#[test]
fn identical_edges_apart_are_reported() {
    let mut objects = Objects::new();
    let (lower, [ab, _, _]) = triangle([[0, 0, 0], [1, 0, 0], [0, 1, 0]], [None; 3], &mut objects);
    let (upper, _) =
        triangle([[1, 0, 5], [0, 0, 5], [0, 1, 5]], [Some(ab), None, None], &mut objects);
    let shell = Shell::new(vec![lower, upper]);

    let first = objects.cycle(objects.face(&lower).exterior()).half_edges()[0];
    let second = objects.cycle(objects.face(&upper).exterior()).half_edges()[0];

    let mut errors = Vec::new();
    ShellValidationError::validate_edges_coincident(
        &shell,
        &objects,
        &ValidationConfig::default(),
        &mut errors,
    );
    assert_eq!(
        errors,
        vec![ValidationError::Shell(ShellValidationError::IdenticalEdgesNotCoincident {
            edge_1: first,
            surface_1: *objects.face(&lower).surface(),
            edge_2: second,
            surface_2: *objects.face(&upper).surface(),
        })]
    );
    assert!(errors[0].is_identical_not_coincident());

    let tolerant = ValidationConfig { distinct_min_distance: 1, identical_max_distance: 5 };
    let mut errors = Vec::new();
    ShellValidationError::validate_edges_coincident(&shell, &objects, &tolerant, &mut errors);
    assert_eq!(errors, Vec::new());
}

#[test]
fn validation_appends_to_the_errors_given() {
    let mut objects = Objects::new();
    let valid = unit_tetrahedron(&mut objects);
    let invalid = Shell::new(vec![valid.face_abc]);

    let earlier = ValidationError::Shell(ShellValidationError::CoincidentEdgesNotIdentical(
        objects.cycle(objects.face(&valid.face_abc).exterior()).half_edges()[0],
        objects.cycle(objects.face(&valid.face_abc).exterior()).half_edges()[1],
    ));
    let mut errors = vec![earlier];
    ShellValidationError::validate_watertight(&invalid, &objects, &mut errors);
    assert_eq!(
        errors,
        vec![earlier, ValidationError::Shell(ShellValidationError::NotWatertight)]
    );

    let mut errors = vec![earlier];
    ShellValidationError::validate_watertight(&valid.shell, &objects, &mut errors);
    assert_eq!(errors, vec![earlier]);
}

#[test]
fn an_edge_traced_three_times_is_not_watertight() {
    let mut objects = Objects::new();
    let (first, [ab, bc, ca]) =
        triangle([[0, 0, 0], [1, 0, 0], [0, 1, 0]], [None; 3], &mut objects);
    let (second, _) = triangle(
        [[0, 0, 0], [1, 0, 0], [0, 1, 0]],
        [Some(ab), Some(bc), Some(ca)],
        &mut objects,
    );
    let (third, _) = triangle(
        [[0, 0, 0], [1, 0, 0], [0, 1, 0]],
        [Some(ab), Some(bc), Some(ca)],
        &mut objects,
    );

    let mut errors = Vec::new();
    ShellValidationError::validate_watertight(
        &Shell::new(vec![first, second]),
        &objects,
        &mut errors,
    );
    assert_eq!(errors, Vec::new());

    ShellValidationError::validate_watertight(
        &Shell::new(vec![first, second, third]),
        &objects,
        &mut errors,
    );
    assert_eq!(errors, vec![ValidationError::Shell(ShellValidationError::NotWatertight)]);
}

#[test]
fn shell_is_a_set_of_faces() {
    let mut objects = Objects::new();
    let valid = unit_tetrahedron(&mut objects);
    let [a, b, c, d] = [valid.face_abc, valid.face_bad, valid.face_dac, valid.face_cbd];

    assert_eq!(valid.shell.faces(), &vec![a, b, c, d]);
    assert_eq!(Shell::new(vec![d, b, d, a, c, a, b]), valid.shell);
    assert_eq!(Shell::new(vec![c, c, c]).faces(), &vec![c]);
    assert_eq!(Shell::new(vec![d, a]).clone().faces(), &vec![a, d]);

    // a face that is given twice is validated once
    assert_eq!(errors_of(&Shell::new(vec![a, b, c, d, a, b, c, d]), &objects), Vec::new());

    let other = Objects::new();
    assert!(!other.holds_shell(&valid.shell));
    assert!(other.holds_shell(&Shell::new(Vec::new())));
}

#[test]
fn bounding_volume_of_shells() {
    let mut objects = Objects::new();
    let unit = unit_tetrahedron(&mut objects);
    let skew = tetrahedron([[-3, 2, 1], [7, 0, 0], [1, 9, -2], [2, 3, 8]], &mut objects);
    let corner = |x, y, z| GlobalPosition { x, y, z };

    assert_eq!(
        bounding_volume(&unit.shell, &objects),
        Some(Aabb { min: corner(0, 0, 0), max: corner(1, 1, 1) })
    );
    assert_eq!(
        bounding_volume(&skew.shell, &objects),
        Some(Aabb { min: corner(-3, 0, -2), max: corner(7, 9, 8) })
    );
    // the face through the second, the first and the fourth corner
    assert_eq!(
        bounding_volume(&Shell::new(vec![skew.face_bad]), &objects),
        Some(Aabb { min: corner(-3, 0, 0), max: corner(7, 3, 8) })
    );
    assert_eq!(
        bounding_volume(&Shell::new(vec![unit.face_abc, skew.face_bad]), &objects),
        Some(Aabb { min: corner(-3, 0, 0), max: corner(7, 3, 8) })
    );
    assert_eq!(bounding_volume(&Shell::new(Vec::new()), &objects), None);
}

#[test]
fn shells_are_stored() {
    let mut objects = Objects::new();
    let built = unit_tetrahedron(&mut objects);
    let other = Objects::new();

    let stored = objects.insert_shell(built.shell.clone());
    assert_eq!(stored.id(), 0);
    assert!(objects.has_shell(&stored));
    assert!(!other.has_shell(&stored));
    assert_eq!(objects.shell(&stored), &built.shell);
    assert_eq!(errors_of(objects.shell(&stored), &objects), Vec::new());

    let again = objects.insert_shell(built.shell.remove_face(&built.face_abc));
    assert_ne!(again, stored);
    assert_eq!(objects.shell(&again).faces().len(), 3);
}

#[test]
fn empty_shell_is_valid() {
    let objects = Objects::new();
    let shell = Shell::new(Vec::new());
    assert_eq!(edges_and_surfaces(&shell, &objects), Vec::new());
    assert_eq!(errors_of(&shell, &objects), Vec::new());
}

#[test]
fn edges_are_listed_face_by_face() {
    let mut objects = Objects::new();
    let valid = unit_tetrahedron(&mut objects);
    let edges = edges_and_surfaces(&valid.shell, &objects);
    assert_eq!(edges.len(), 12);
    for (place, (half_edge, surface)) in edges.iter().enumerate() {
        assert_eq!(half_edge.id(), place);
        assert_eq!(surface.id(), place / 3);
    }
}

#[test]
fn distances_are_squares_of_doubled_distances() {
    let mut objects = Objects::new();
    let (lower, _) = triangle([[0, 0, 0], [2, 0, 0], [0, 2, 0]], [None; 3], &mut objects);
    let (upper, _) = triangle([[0, 0, 3], [2, 0, 3], [0, 2, 3]], [None; 3], &mut objects);
    let config = ValidationConfig::default();

    let lower_surface = *objects.surface(objects.face(&lower).surface());
    let upper_surface = *objects.surface(objects.face(&upper).surface());
    let lower_edges = objects.cycle(objects.face(&lower).exterior()).half_edges().clone();
    let upper_edges = objects.cycle(objects.face(&upper).exterior()).half_edges().clone();
    let ab = *objects.half_edge(&lower_edges[0]);
    let bc = *objects.half_edge(&lower_edges[1]);
    let ab_above = *objects.half_edge(&upper_edges[0]);

    // The starts are three units apart, which does not count as identical,
    // so the second edge is taken backwards: a to b above, the middles, b to
    // a above.
    assert_eq!(distances(&config, &ab, &lower_surface, &ab_above, &upper_surface), [52, 36, 52]);

    // Where three units count as identical it is taken forwards, and is
    // three units away all along: (2 * 3)^2.
    let loose = ValidationConfig { distinct_min_distance: 1, identical_max_distance: 3 };
    assert_eq!(distances(&loose, &ab, &lower_surface, &ab_above, &upper_surface), [36, 36, 36]);

    // an edge and itself
    assert_eq!(distances(&config, &ab, &lower_surface, &ab, &lower_surface), [0, 0, 0]);

    // a to b against b to c, backwards: a to c, the middles, b to b
    assert_eq!(distances(&config, &ab, &lower_surface, &bc, &lower_surface), [16, 4, 0]);

    // and forwards: a to b, the middles, b to c
    let tolerant = ValidationConfig { distinct_min_distance: 1, identical_max_distance: 2 };
    assert_eq!(distances(&tolerant, &ab, &lower_surface, &bc, &lower_surface), [16, 4, 32]);
}

#[test]
fn default_distances() {
    let config = ValidationConfig::default();
    assert_eq!(config.identical_max_distance, 0);
    assert_eq!(config.distinct_min_distance, 1);
}
