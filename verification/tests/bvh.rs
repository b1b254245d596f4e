use racer_tracer::bvh_node::{scan, BoundingVolumeHirearchy, Builder, Node, Probe};
use racer_tracer::data_bus::DataBus;
use racer_tracer::error::TracerError;
use racer_tracer::scene::{ObjectCookie, SceneObjectEvent};
use std::cell::Cell;

type V3 = [f64; 3];

#[derive(Clone, Debug, PartialEq)]
struct Sphere {
    center: V3,
    radius: f64,
}

#[derive(Clone, Debug, PartialEq)]
struct Aabb {
    min: V3,
    max: V3,
}

#[derive(Clone, Debug, PartialEq)]
struct Hit {
    t: f64,
}

struct Ray {
    origin: V3,
    direction: V3,
}

fn dot(a: V3, b: V3) -> f64 {
    a[0] * b[0] + a[1] * b[1] + a[2] * b[2]
}

fn sub(a: V3, b: V3) -> V3 {
    [a[0] - b[0], a[1] - b[1], a[2] - b[2]]
}

fn bounds(sphere: &Sphere) -> Aabb {
    let r = sphere.radius.abs();
    let c = sphere.center;
    Aabb { min: [c[0] - r, c[1] - r, c[2] - r], max: [c[0] + r, c[1] + r, c[2] + r] }
}

fn union(a: &Aabb, b: &Aabb) -> Aabb {
    Aabb {
        min: [a.min[0].min(b.min[0]), a.min[1].min(b.min[1]), a.min[2].min(b.min[2])],
        max: [a.max[0].max(b.max[0]), a.max[1].max(b.max[1]), a.max[2].max(b.max[2])],
    }
}

/// A number that grows with `x`.
fn ordered(x: f64) -> i64 {
    let bits = x.to_bits() as i64;
    if bits < 0 {
        bits ^ i64::MAX
    } else {
        bits
    }
}

fn key(aabb: &Aabb, axis: usize) -> i64 {
    ordered(aabb.min[axis])
}

fn box_hit(ray: &Ray, aabb: &Aabb, t_min: f64, t_max: f64) -> bool {
    for a in 0..3 {
        let inv_d = 1.0 / ray.direction[a];
        let mut t0 = (aabb.min[a] - ray.origin[a]) * inv_d;
        let mut t1 = (aabb.max[a] - ray.origin[a]) * inv_d;
        if inv_d < 0.0 {
            std::mem::swap(&mut t0, &mut t1);
        }
        let min = if t0 > t_min { t0 } else { t_min };
        let max = if t1 < t_max { t1 } else { t_max };
        if max <= min {
            return false;
        }
    }
    true
}

fn sphere_hit(ray: &Ray, sphere: &Sphere, t_min: f64, t_max: f64) -> Option<Hit> {
    let oc = sub(ray.origin, sphere.center);
    let a = dot(ray.direction, ray.direction);
    let half_b = dot(oc, ray.direction);
    let c = dot(oc, oc) - sphere.radius * sphere.radius;
    let discriminant = half_b * half_b - a * c;
    if discriminant < 0.0 {
        return None;
    }
    let sqrtd = discriminant.sqrt();
    let mut root = (-half_b - sqrtd) / a;
    if root < t_min || t_max < root {
        root = (-half_b + sqrtd) / a;
        if root < t_min || t_max < root {
            return None;
        }
    }
    Some(Hit { t: root })
}

/// A small generator of numbers in [0, 1).
struct Lcg(Cell<u64>);

impl Lcg {
    fn new(seed: u64) -> Self {
        Lcg(Cell::new(seed))
    }

    fn next(&self) -> f64 {
        let state = self
            .0
            .get()
            .wrapping_mul(6364136223846793005)
            .wrapping_add(1442695040888963407);
        self.0.set(state);
        (state >> 11) as f64 / (1u64 << 53) as f64
    }

    fn range(&self, low: f64, high: f64) -> f64 {
        low + (high - low) * self.next()
    }
}

fn leaves(node: &Node<Aabb>, into: &mut Vec<usize>) {
    match node {
        Node::Leaf { obj } => into.push(*obj),
        Node::Inner { left, right, .. } => {
            leaves(left, into);
            leaves(right, into);
        }
    }
}

fn aabb_of(node: &Node<Aabb>, spheres: &[Sphere]) -> Aabb {
    match node {
        Node::Leaf { obj } => bounds(&spheres[*obj]),
        Node::Inner { aabb, .. } => aabb.clone(),
    }
}

fn check_shape(node: &Node<Aabb>, spheres: &[Sphere]) -> usize {
    match node {
        Node::Leaf { .. } => 1,
        Node::Inner { left, right, aabb } => {
            let l = check_shape(left, spheres);
            let r = check_shape(right, spheres);
            assert_eq!(l, (l + r) / 2);
            assert_eq!(aabb, &union(&aabb_of(left, spheres), &aabb_of(right, spheres)));
            let (mut ls, mut rs) = (vec![], vec![]);
            leaves(left, &mut ls);
            leaves(right, &mut rs);
            let split_along = |axis: usize| {
                ls.iter().all(|&a| {
                    rs.iter().all(|&b| bounds(&spheres[a]).min[axis] <= bounds(&spheres[b]).min[axis])
                })
            };
            assert!((0..3).any(split_along));
            l + r
        }
    }
}

#[test]
fn a_hierarchy_finds_what_a_scan_finds() {
    let rng = Lcg::new(42);
    let spheres: Vec<Sphere> = (0..100)
        .map(|_| Sphere {
            center: [rng.range(-5.0, 5.0), rng.range(-5.0, 5.0), rng.range(-5.0, 5.0)],
            radius: 1.0,
        })
        .collect();
    let builder =
        Builder { bounds, union, key, pick_axis: || (rng.next() * 3.0) as usize % 3 };
    let tree = Node::build(&spheres, &builder).unwrap();

    let mut under = vec![];
    leaves(&tree, &mut under);
    under.sort();
    assert_eq!(under, (0..100).collect::<Vec<usize>>());
    assert_eq!(check_shape(&tree, &spheres), 100);

    let mut hits = 0;
    for _ in 0..1000 {
        let ray = Ray {
            origin: [rng.range(-8.0, 8.0), rng.range(-8.0, 8.0), rng.range(-8.0, 8.0)],
            direction: [rng.range(-1.0, 1.0), rng.range(-1.0, 1.0), rng.range(-1.0, 1.0)],
        };
        let probe = Probe {
            bounds,
            box_hit: |aabb: &Aabb, lo: &f64, hi: &f64| box_hit(&ray, aabb, *lo, *hi),
            obj_hit: |sphere: &Sphere, lo: &f64, hi: &f64| sphere_hit(&ray, sphere, *lo, *hi),
            dist: |hit: &Hit| hit.t,
        };
        let by_tree = tree.hit(&spheres, &0.001, &f64::INFINITY, &probe);
        let by_scan = scan(&spheres, &0.001, f64::INFINITY, &probe);
        match (by_tree, by_scan) {
            (None, None) => {}
            (Some((at, hit)), Some((_, other))) => {
                hits += 1;
                assert!((hit.t - other.t).abs() <= 1e-9);
                assert_eq!(sphere_hit(&ray, &spheres[at], 0.001, f64::INFINITY), Some(hit));
            }
            (by_tree, by_scan) => panic!("{:?} against {:?}", by_tree, by_scan),
        }
    }
    assert!(hits > 100);
}

#[test]
fn a_scan_keeps_the_nearest() {
    let ray = Ray { origin: [0.0, 0.0, 0.0], direction: [0.0, 0.0, -1.0] };
    let spheres = vec![
        Sphere { center: [0.0, 0.0, -10.0], radius: 1.0 },
        Sphere { center: [0.0, 0.0, -4.0], radius: 1.0 },
        Sphere { center: [0.0, 5.0, -2.0], radius: 1.0 },
        Sphere { center: [0.0, 0.0, -7.0], radius: 1.0 },
    ];
    let probe = Probe {
        bounds,
        box_hit: |aabb: &Aabb, lo: &f64, hi: &f64| box_hit(&ray, aabb, *lo, *hi),
        obj_hit: |sphere: &Sphere, lo: &f64, hi: &f64| sphere_hit(&ray, sphere, *lo, *hi),
        dist: |hit: &Hit| hit.t,
    };
    assert_eq!(scan(&spheres, &0.001, f64::INFINITY, &probe), Some((1, Hit { t: 3.0 })));
    assert_eq!(scan(&spheres, &0.001, 2.5, &probe), None);
    assert_eq!(scan(&spheres, &4.0, f64::INFINITY, &probe), Some((1, Hit { t: 5.0 })));
    assert_eq!(scan(&Vec::<Sphere>::new(), &0.001, f64::INFINITY, &probe), None);

    let builder = Builder { bounds, union, key, pick_axis: || 2usize };
    let tree = Node::build(&spheres, &builder).unwrap();
    assert_eq!(tree.hit(&spheres, &0.001, &f64::INFINITY, &probe), Some((1, Hit { t: 3.0 })));
    assert_eq!(tree.hit(&spheres, &0.001, &2.5, &probe), None);
}

#[test]
fn small_hierarchies() {
    let builder = Builder { bounds, union, key, pick_axis: || 0usize };
    assert!(Node::build(&Vec::<Sphere>::new(), &builder).is_none());

    let one = vec![Sphere { center: [1.0, 0.0, 0.0], radius: 1.0 }];
    assert!(matches!(Node::build(&one, &builder), Some(Node::Leaf { obj: 0 })));

    let two = vec![
        Sphere { center: [3.0, 0.0, 0.0], radius: 1.0 },
        Sphere { center: [1.0, 0.0, 0.0], radius: 1.0 },
    ];
    match Node::build(&two, &builder) {
        Some(Node::Inner { left, right, aabb }) => {
            assert!(matches!(*left, Node::Leaf { obj: 1 }));
            assert!(matches!(*right, Node::Leaf { obj: 0 }));
            assert_eq!(aabb, Aabb { min: [0.0, -1.0, -1.0], max: [4.0, 1.0, 1.0] });
        }
        _ => panic!("two objects make an inner node"),
    }

    // Of two objects with the same key, the second goes left.
    let twins = vec![one[0].clone(), one[0].clone()];
    match Node::build(&twins, &builder) {
        Some(Node::Inner { left, right, .. }) => {
            assert!(matches!(*left, Node::Leaf { obj: 1 }));
            assert!(matches!(*right, Node::Leaf { obj: 0 }));
        }
        _ => panic!("two objects make an inner node"),
    }

    let three = vec![
        Sphere { center: [5.0, 0.0, 0.0], radius: 1.0 },
        Sphere { center: [1.0, 0.0, 0.0], radius: 1.0 },
        Sphere { center: [3.0, 0.0, 0.0], radius: 1.0 },
    ];
    let mut order = vec![];
    leaves(&Node::build(&three, &builder).unwrap(), &mut order);
    assert_eq!(order, vec![1, 2, 0]);
}

fn place(sphere: &Sphere, center: &V3) -> Sphere {
    Sphere { center: *center, radius: sphere.radius }
}

#[test]
fn the_hierarchy_follows_the_scene() {
    let mut bus: DataBus<SceneObjectEvent<V3>> = DataBus::new("scene");
    let writer = bus.get_writer();
    let builder = Builder { bounds, union, key, pick_axis: || 2usize };
    let spheres = vec![
        Sphere { center: [0.0, 0.0, -4.0], radius: 1.0 },
        Sphere { center: [0.0, 0.0, -10.0], radius: 1.0 },
    ];
    let mut bvh = BoundingVolumeHirearchy::new(spheres, bus.get_reader(), &builder);
    assert!(bvh.changed());

    let ray = Ray { origin: [0.0, 0.0, 0.0], direction: [0.0, 0.0, -1.0] };
    let probe = Probe {
        bounds,
        box_hit: |aabb: &Aabb, lo: &f64, hi: &f64| box_hit(&ray, aabb, *lo, *hi),
        obj_hit: |sphere: &Sphere, lo: &f64, hi: &f64| sphere_hit(&ray, sphere, *lo, *hi),
        dist: |hit: &Hit| hit.t,
    };
    assert_eq!(bvh.hit(&0.001, &f64::INFINITY, &probe), Some((0, Hit { t: 3.0 })));

    assert_eq!(bvh.update(&builder, &place), Ok(()));
    assert!(!bvh.changed());

    writer
        .write(SceneObjectEvent::Pos { id: ObjectCookie { id: 0 }, pos: [0.0, 9.0, -4.0] })
        .unwrap();
    bus.update().unwrap();
    assert_eq!(bvh.update(&builder, &place), Ok(()));
    assert!(bvh.changed());
    assert_eq!(bvh.hit(&0.001, &f64::INFINITY, &probe), Some((1, Hit { t: 9.0 })));

    writer.write(SceneObjectEvent::Remove { id: ObjectCookie { id: 1 } }).unwrap();
    bus.update().unwrap();
    assert_eq!(bvh.update(&builder, &place), Ok(()));
    assert_eq!(bvh.hit(&0.001, &f64::INFINITY, &probe), None);

    writer.write(SceneObjectEvent::Remove { id: ObjectCookie { id: 0 } }).unwrap();
    writer.write(SceneObjectEvent::Remove { id: ObjectCookie { id: 0 } }).unwrap();
    bus.update().unwrap();
    assert_eq!(bvh.update(&builder, &place), Err(TracerError::NoObjectWithId(0)));
    assert!(bvh.changed());
    assert_eq!(bvh.hit(&0.001, &f64::INFINITY, &probe), None);
}
