use pathtrace::integrator::reach;
use pathtrace::scalar::{Interval, Scalar};
use pathtrace::material::Material;
use pathtrace::scene::{nearest, pick_root, Hit, Sphere, World};
use pathtrace::vector::Vector3;

fn s(x: f64) -> Scalar {
    Scalar::new(x.to_bits())
}

fn f(x: Scalar) -> f64 {
    f64::from_bits(x.bits)
}

/// The discriminant and the two crossings of a ray with a sphere.
fn quadratic(origin: [f64; 3], direction: [f64; 3], center: [f64; 3], radius: f64) -> (f64, f64, f64) {
    let o: Vec<f64> = (0..3).map(|k| origin[k] - center[k]).collect();
    let a: f64 = direction.iter().map(|d| d * d).sum();
    let b: f64 = (0..3).map(|k| direction[k] * o[k]).sum();
    let c: f64 = o.iter().map(|x| x * x).sum::<f64>() - radius * radius;
    let discriminant = b * b - a * c;
    let root = discriminant.sqrt();
    (discriminant, (-b - root) / a, (-b + root) / a)
}

fn strike(origin: [f64; 3], direction: [f64; 3], center: [f64; 3], radius: f64, range: &Interval) -> Option<f64> {
    let (discriminant, near, far) = quadratic(origin, direction, center, radius);
    pick_root(s(discriminant), s(near), s(far), range).map(f)
}

#[test]
fn a_ray_that_misses_the_sphere_has_no_root() {
    let (discriminant, _, _) = quadratic([0.0; 3], [0.0, 0.0, -1.0], [5.0, 0.0, -3.0], 1.0);
    assert!(discriminant < 0.0);
    assert_eq!(strike([0.0; 3], [0.0, 0.0, -1.0], [5.0, 0.0, -3.0], 1.0, &reach()), None);
    assert_eq!(pick_root(s(-1.0), s(1.0), s(2.0), &reach()), None);
}

#[test]
fn a_tangent_ray_has_no_root() {
    // Sphere of radius 1 at (0, 0, -3); the ray from (1, 0, 0) along -z touches it.
    let (discriminant, near, far) = quadratic([1.0, 0.0, 0.0], [0.0, 0.0, -1.0], [0.0, 0.0, -3.0], 1.0);
    assert_eq!(discriminant, 0.0);
    assert_eq!(near, 3.0);
    assert_eq!(far, 3.0);
    assert_eq!(pick_root(s(discriminant), s(near), s(far), &reach()), None);
    assert_eq!(pick_root(s(-0.0), s(near), s(far), &reach()), None);
}

#[test]
fn the_near_root_wins_when_it_is_inside() {
    assert_eq!(pick_root(s(4.0), s(1.0), s(5.0), &reach()), Some(s(1.0)));
    let short = Interval { start: s(0.01), end: s(2.0) };
    assert_eq!(pick_root(s(4.0), s(1.0), s(5.0), &short), Some(s(1.0)));
}

#[test]
fn the_far_root_is_taken_when_the_near_one_is_outside() {
    assert_eq!(pick_root(s(4.0), s(-3.0), s(1.0), &reach()), Some(s(1.0)));
    assert_eq!(pick_root(s(4.0), s(0.001), s(0.5), &reach()), Some(s(0.5)));
}

#[test]
fn no_root_when_both_are_outside() {
    assert_eq!(pick_root(s(4.0), s(-5.0), s(-1.0), &reach()), None);
    let short = Interval { start: s(0.01), end: s(2.0) };
    assert_eq!(pick_root(s(4.0), s(-5.0), s(2.0), &short), None);
}

#[test]
fn the_smallest_discriminant_above_zero_crosses() {
    assert_eq!(pick_root(s(5e-324), s(1.0), s(1.0), &reach()), Some(s(1.0)));
}

#[test]
fn analytic_distance_of_a_sphere_on_the_axis() {
    // Sphere of radius 0.5 at (0, 0, -2), ray from the origin along -z:
    // the crossings are at 1.5 and 2.5.
    let hit = strike([0.0; 3], [0.0, 0.0, -1.0], [0.0, 0.0, -2.0], 0.5, &reach()).unwrap();
    assert!((hit - 1.5).abs() < 1e-12);
    // From the centre of the sphere only the far crossing lies ahead.
    let hit = strike([0.0, 0.0, -2.0], [0.0, 0.0, -1.0], [0.0, 0.0, -2.0], 0.5, &reach()).unwrap();
    assert!((hit - 0.5).abs() < 1e-12);
    // Behind the ray there is nothing to strike.
    assert_eq!(strike([0.0; 3], [0.0, 0.0, 1.0], [0.0, 0.0, -2.0], 0.5, &reach()), None);
}

#[test]
fn nearest_of_nothing_is_nothing() {
    assert_eq!(nearest(&vec![]), None);
    assert_eq!(nearest(&vec![None, None, None]), None);
}

#[test]
fn nearest_picks_the_smallest_distance() {
    let reports = vec![Some(s(30.0)), None, Some(s(0.25)), Some(s(20.0))];
    assert_eq!(nearest(&reports), Some(Hit { object: 2, distance: s(0.25) }));
}

#[test]
fn nearest_keeps_the_first_of_equal_distances() {
    let reports = vec![None, Some(s(5.0)), Some(s(7.0)), Some(s(5.0))];
    assert_eq!(nearest(&reports), Some(Hit { object: 1, distance: s(5.0) }));
    let zeros = vec![Some(s(0.0)), Some(s(-0.0))];
    assert_eq!(nearest(&zeros), Some(Hit { object: 0, distance: s(0.0) }));
}

#[test]
fn nearest_orders_negative_distances_too() {
    let reports = vec![Some(s(1.0)), Some(s(-2.0)), Some(s(-1.0)), Some(s(f64::NEG_INFINITY))];
    assert_eq!(nearest(&reports).unwrap().object, 3);
}

#[test]
fn nearest_of_a_single_report() {
    assert_eq!(nearest(&vec![Some(s(0.0))]), Some(Hit { object: 0, distance: s(0.0) }));
    assert_eq!(
        nearest(&vec![None, Some(s(f64::INFINITY))]),
        Some(Hit { object: 1, distance: s(f64::INFINITY) })
    );
}

#[test]
fn empty_world_hits_nothing() {
    let world: World<f64> = World::new();
    assert_eq!(world.len(), 0);
    assert_eq!(world.hit(|_| Some(s(1.0))), None);
}

#[test]
fn world_keeps_objects_in_order() {
    let mut world: World<&str> = World::new();
    world.add("ground");
    world.add("ball");
    assert_eq!(world.len(), 2);
    assert_eq!(world.get(0), Some(&"ground"));
    assert_eq!(world.get(1), Some(&"ball"));
    assert_eq!(world.get(2), None);
}

#[test]
fn world_hit_returns_the_minimal_distance() {
    // Spheres of radius 0.5 on the z axis; the ray runs from the origin along -z.
    let mut world: World<f64> = World::new();
    for center in [-7.0, -3.0, -5.0, 4.0] {
        world.add(center);
    }
    let range = reach();
    let hit = world
        .hit(|z: &f64| {
            let (d, near, far) = quadratic([0.0; 3], [0.0, 0.0, -1.0], [0.0, 0.0, *z], 0.5);
            pick_root(s(d), s(near), s(far), &range)
        })
        .unwrap();
    assert_eq!(hit.object, 1);
    assert_eq!(f(hit.distance), 2.5);
}

#[test]
fn world_hit_is_none_when_every_object_reports_none() {
    let mut world: World<u8> = World::new();
    world.add(1);
    world.add(2);
    assert_eq!(world.hit(|_| None), None);
}

#[test]
fn world_hit_does_not_depend_on_insertion_order() {
    let distances = [4.0_f64, 0.5, 9.25, 2.0];
    let mut forward: World<f64> = World::new();
    let mut backward: World<f64> = World::new();
    for d in distances {
        forward.add(d);
    }
    for d in distances.iter().rev() {
        backward.add(*d);
    }
    let a = forward.hit(|d| Some(s(*d))).unwrap();
    let b = backward.hit(|d| Some(s(*d))).unwrap();
    assert_eq!(a.distance, b.distance);
    assert_eq!(f(a.distance), 0.5);
    assert_eq!(*forward.get(a.object).unwrap(), 0.5);
    assert_eq!(*backward.get(b.object).unwrap(), 0.5);
}

#[test]
fn world_hit_asks_every_object_once_in_order() {
    let mut world: World<f64> = World::new();
    for n in [3.0, 1.0, 2.0] {
        world.add(n);
    }
    let asked = std::cell::RefCell::new(Vec::new());
    let hit = world.hit(|n| {
        asked.borrow_mut().push(*n);
        Some(s(*n))
    });
    assert_eq!(asked.into_inner(), vec![3.0, 1.0, 2.0]);
    assert_eq!(hit, Some(Hit { object: 1, distance: s(1.0) }));
}

#[test]
fn world_hit_stays_inside_the_interval() {
    let mut world: World<f64> = World::new();
    for z in [-0.4, -3.0, -8.0] {
        world.add(z);
    }
    let range = Interval { start: s(1.0), end: s(5.0) };
    let hit = world
        .hit(|z: &f64| {
            let (d, near, far) = quadratic([0.0; 3], [0.0, 0.0, -1.0], [0.0, 0.0, *z], 0.5);
            pick_root(s(d), s(near), s(far), &range)
        })
        .unwrap();
    assert_eq!(hit.object, 1);
    assert!(range.contains(hit.distance));
}

#[test]
fn a_sphere_keeps_what_it_was_made_of() {
    let center = Vector3::new(s(0.0), s(0.0), s(-1.0));
    let material = Material::dielectric(s(1.5));
    let sphere = Sphere::new(center, s(0.5), material);
    assert_eq!(sphere.center, center);
    assert_eq!(sphere.radius, s(0.5));
    assert_eq!(sphere.material, material);
    assert!(sphere.is_valid());
}

#[test]
fn a_sphere_needs_a_radius_above_zero() {
    let center = Vector3::new(s(0.0), s(0.0), s(0.0));
    let material = Material::lambertian(center);
    for radius in [0.0, -0.0, -1.0, f64::NAN] {
        assert!(!Sphere { center, radius: s(radius), material }.is_valid());
    }
    assert!(Sphere { center, radius: s(5e-324), material }.is_valid());
    let bad = Material::Mirror { albedo: center, fuzziness: s(2.0) };
    assert!(!Sphere { center, radius: s(1.0), material: bad }.is_valid());
}
