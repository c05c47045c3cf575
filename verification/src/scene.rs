use crate::material::Material;
use crate::scalar::{Interval, Scalar, ZERO_BITS};
use crate::vector::Point3;
use vstd::prelude::*;

verus! {

/// A ball: where its centre is, how large it is and what it is made of.
#[derive(Clone, Copy, Debug, PartialEq, Eq, Structural)]
pub struct Sphere {
    pub center: Point3,
    pub radius: Scalar,
    pub material: Material,
}

impl Sphere {
    /// The radius is above zero and the material's parameters are in their
    /// ranges.
    pub open spec fn wf(self) -> bool {
        (Scalar { bits: ZERO_BITS }).below(self.radius) && self.material.wf()
    }

    /// Whether the radius is above zero and the material's parameters are in
    /// their ranges.
    pub fn is_valid(&self) -> (yes: bool)
        ensures
            yes == self.wf(),
    {
        (Scalar { bits: ZERO_BITS }).less(self.radius) && self.material.is_valid()
    }

    /// A ball. Its radius is above zero.
    pub fn new(center: Point3, radius: Scalar, material: Material) -> (sphere: Sphere)
        requires
            (Scalar { bits: ZERO_BITS }).below(radius),
            material.wf(),
        ensures
            sphere == (Sphere { center, radius, material }),
            sphere.wf(),
    {
        Sphere { center, radius, material }
    }
}

/// The crossing of a ray with a sphere that counts. The caller solved the
/// quadratic: `discriminant` is what stands under its root, `near` and `far`
/// are the two crossings.
pub open spec fn chosen_root(
    discriminant: Scalar,
    near: Scalar,
    far: Scalar,
    range: Interval,
) -> Option<Scalar> {
    if discriminant.at_most(Scalar { bits: ZERO_BITS }) {
        None
    } else if range.holds(near) {
        Some(near)
    } else if range.holds(far) {
        Some(far)
    } else {
        None
    }
}

/// Picks the crossing of a ray with a sphere. A ray that passes by the
/// sphere or only touches it (the discriminant is zero or less) misses.
/// Otherwise the near crossing is taken when it lies in the range, else the
/// far one when that does, and with neither in the range the ray misses.
pub fn pick_root(discriminant: Scalar, near: Scalar, far: Scalar, range: &Interval) -> (root:
    Option<Scalar>)
    ensures
        root == chosen_root(discriminant, near, far, *range),
        discriminant.at_most(Scalar { bits: ZERO_BITS }) ==> root is None,
        root is Some ==> range.holds(root->0),
{
    if discriminant.less_eq(Scalar { bits: ZERO_BITS }) {
        None
    } else if range.contains(near) {
        Some(near)
    } else if range.contains(far) {
        Some(far)
    } else {
        None
    }
}

/// A hit: the object struck, by its place in the world, and how far along the
/// ray.
#[derive(Clone, Copy, Debug, PartialEq, Eq, Structural)]
pub struct Hit {
    pub object: usize,
    pub distance: Scalar,
}

/// `k` is the object that a ray strikes first: it reports a hit, none reports
/// a nearer one, and every object before it reports a strictly farther one.
/// Distances are compared by rank, so a distance that is no number counts as
/// beyond the infinity of its sign.
pub open spec fn is_nearest(reports: Seq<Option<Scalar>>, k: int) -> bool {
    &&& 0 <= k < reports.len()
    &&& reports[k] is Some
    &&& forall|j: int|
        0 <= j < reports.len() && reports[j] is Some ==> reports[k]->0.rank() <= (
        #[trigger] reports[j])->0.rank()
    &&& forall|j: int|
        0 <= j < k && reports[j] is Some ==> reports[k]->0.rank() < (
        #[trigger] reports[j])->0.rank()
}

/// No object reports a hit.
pub open spec fn all_miss(reports: Seq<Option<Scalar>>) -> bool {
    forall|j: int| 0 <= j < reports.len() ==> (#[trigger] reports[j]) is None
}

/// The nearest of the reported hits, one report per object in the order of
/// the objects; among equally near hits the first object wins.
pub fn nearest(reports: &Vec<Option<Scalar>>) -> (hit: Option<Hit>)
    ensures
        match hit {
            Some(h) => is_nearest(reports@, h.object as int) && reports@[h.object as int] == Some(
                h.distance,
            ),
            None => all_miss(reports@),
        },
{
    let mut closest: Option<Hit> = None;
    let mut i: usize = 0;
    while i < reports.len()
        invariant
            i <= reports.len(),
            match closest {
                Some(h) => h.object < i && is_nearest(reports@.take(i as int), h.object as int)
                    && reports@[h.object as int] == Some(h.distance),
                None => all_miss(reports@.take(i as int)),
            },
        decreases reports.len() - i,
    {
        let ghost before = reports@.take(i as int);
        let ghost after = reports@.take(i + 1);
        assert(forall|j: int| 0 <= j < i ==> after[j] == before[j]);
        assert(after[i as int] == reports@[i as int]);
        if let Some(d) = reports[i] {
            let closer = match closest {
                Some(h) => d.key() < h.distance.key(),
                None => true,
            };
            if closer {
                closest = Some(Hit { object: i, distance: d });
            }
        }
        i += 1;
    }
    assert(reports@.take(i as int) =~= reports@);
    closest
}

/// The objects of a scene, in the order in which they were added. The world
/// keeps them for the caller and names each by its place.
pub struct World<T> {
    shapes: Vec<T>,
}

impl<T> View for World<T> {
    type V = Seq<T>;

    closed spec fn view(&self) -> Seq<T> {
        self.shapes@
    }
}

impl<T> World<T> {
    /// A world without objects.
    pub fn new() -> (world: Self)
        ensures
            world@ =~= Seq::<T>::empty(),
    {
        World { shapes: Vec::new() }
    }

    /// Adds an object behind those already there.
    pub fn add(&mut self, elem: T)
        ensures
            final(self)@ == old(self)@.push(elem),
    {
        self.shapes.push(elem);
    }

    /// Number of objects.
    pub fn len(&self) -> (n: usize)
        ensures
            n == self@.len(),
    {
        self.shapes.len()
    }

    /// The object at place `i`, if there is one.
    pub fn get(&self, i: usize) -> (shape: Option<&T>)
        ensures
            match shape {
                Some(s) => i < self@.len() && *s == self@[i as int],
                None => i >= self@.len(),
            },
    {
        if i < self.shapes.len() {
            Some(&self.shapes[i])
        } else {
            None
        }
    }

    /// The nearest hit among the world's objects. `probe` says for one object
    /// at which distance the ray strikes it inside the caller's interval, if
    /// it does; the world asks every object once, in the order in which they
    /// were added, and keeps the nearest answer, the first of equally near
    /// ones. Every hit returned is one of those answers, so it lies inside
    /// that interval.
    pub fn hit<F: Fn(&T) -> Option<Scalar>>(&self, probe: F) -> (hit: Option<Hit>)
        requires
            forall|i: int| 0 <= i < self@.len() ==> call_requires(probe, (&#[trigger] self@[i],)),
        ensures
            exists|reports: Seq<Option<Scalar>>| #[trigger]
                answers(self@, probe, reports) && match hit {
                    Some(h) => is_nearest(reports, h.object as int) && reports[h.object as int]
                        == Some(h.distance),
                    None => all_miss(reports),
                },
    {
        let mut reports: Vec<Option<Scalar>> = Vec::new();
        let mut i: usize = 0;
        while i < self.shapes.len()
            invariant
                i <= self.shapes.len(),
                reports@.len() == i,
                forall|j: int|
                    0 <= j < self@.len() ==> call_requires(probe, (&#[trigger] self@[j],)),
                forall|j: int|
                    0 <= j < i ==> call_ensures(probe, (&self@[j],), #[trigger] reports@[j]),
            decreases self.shapes.len() - i,
        {
            assert(self@[i as int] == self.shapes@[i as int]);
            let report = probe(&self.shapes[i]);
            reports.push(report);
            i += 1;
        }
        let hit = nearest(&reports);
        assert(answers(self@, probe, reports@));
        hit
    }
}

/// `reports` holds, object by object, an answer that `probe` gives for it.
pub open spec fn answers<T, F: Fn(&T) -> Option<Scalar>>(
    shapes: Seq<T>,
    probe: F,
    reports: Seq<Option<Scalar>>,
) -> bool {
    &&& reports.len() == shapes.len()
    &&& forall|j: int|
        0 <= j < shapes.len() ==> call_ensures(probe, (&shapes[j],), #[trigger] reports[j])
}

/// Where every object answers inside an interval, the nearest hit lies
/// inside it.
pub proof fn lemma_nearest_inside(reports: Seq<Option<Scalar>>, range: Interval, k: int)
    requires
        is_nearest(reports, k),
        forall|j: int|
            0 <= j < reports.len() && reports[j] is Some ==> range.holds((#[trigger] reports[j])->0),
    ensures
        range.holds(reports[k]->0),
{
}

/// At most one object is the nearest.
pub proof fn lemma_nearest_unique(reports: Seq<Option<Scalar>>, a: int, b: int)
    requires
        is_nearest(reports, a),
        is_nearest(reports, b),
    ensures
        a == b,
{
    if a < b {
        assert(reports[a] is Some);
    } else if b < a {
        assert(reports[b] is Some);
    }
}

/// A world in which some object reports a hit has a nearest one, and a world
/// in which none does has none.
pub proof fn lemma_nearest_exists(reports: Seq<Option<Scalar>>)
    ensures
        all_miss(reports) <==> !exists|k: int| is_nearest(reports, k),
    decreases reports.len(),
{
    if all_miss(reports) {
        assert forall|k: int| !is_nearest(reports, k) by {
            if 0 <= k < reports.len() {
                assert(reports[k] is None);
            }
        }
    } else {
        let n = reports.len() as int;
        let front = reports.take(n - 1);
        lemma_nearest_exists(front);
        assert(forall|j: int| 0 <= j < n - 1 ==> front[j] == reports[j]);
        if all_miss(front) {
            assert(reports[n - 1] is Some);
            assert(is_nearest(reports, n - 1));
        } else {
            let k = choose|k: int| is_nearest(front, k);
            if reports[n - 1] is Some && reports[n - 1]->0.rank() < front[k]->0.rank() {
                assert(is_nearest(reports, n - 1));
            } else {
                assert(is_nearest(reports, k));
            }
        }
    }
}

} // verus!
