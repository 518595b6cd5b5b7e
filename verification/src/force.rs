//! The force evaluator: Newtonian attraction between all pairs of bodies,
//! dropped beyond a cutoff distance.

use vstd::prelude::*;
use crate::arithmetic::{
    Arithmetic, deterministic, difference, product, quotient, square_root, square_sum, sum, sum_of_squares,
};
use crate::body::Vector;
use crate::single::{Single, exceeds, greater};

verus! {

/// The gravitational constant, 6.67E-11.
pub const GRAVITATION: Single = 0x2E92_ACC3;

/// One light year in metres, 9.46E15: bodies farther apart than this do
/// not attract each other.
pub const CUTOFF_DISTANCE: Single = 0x5A06_6F48;

/// The displacement from one point to another, with its squared length and
/// its length.
#[derive(Clone, Copy, PartialEq, Eq, Structural, Debug)]
pub struct Separation {
    pub dx: Single,
    pub dy: Single,
    pub squared: Single,
    pub distance: Single,
}

/// `s` is the separation of `to` from `from`: the displacement `to - from`,
/// the sum of its squared components, and the square root of that sum.
pub open spec fn separated<K: Arithmetic>(k: &K, from: Vector, to: Vector, s: Separation) -> bool {
    &&& difference(k, to.x, from.x, s.dx)
    &&& difference(k, to.y, from.y, s.dy)
    &&& sum_of_squares(k, s.dx, s.dy, s.squared)
    &&& square_root(k, s.squared, s.distance)
}

/// Whether two bodies at this separation attract each other.
pub open spec fn within_reach(s: Separation) -> bool {
    !exceeds(s.distance, CUTOFF_DISTANCE)
}

/// `magnitude` is `GRAVITATION * mass / squared`.
pub open spec fn strength<K: Arithmetic>(k: &K, mass: Single, squared: Single, magnitude: Single) -> bool {
    exists|gm: Single| #[trigger]
        product(k, GRAVITATION, mass, gm) && quotient(k, gm, squared, magnitude)
}

/// `a` is `magnitude * d / distance`.
pub open spec fn along<K: Arithmetic>(k: &K, magnitude: Single, d: Single, distance: Single, a: Single) -> bool {
    exists|scaled: Single| #[trigger]
        product(k, magnitude, d, scaled) && quotient(k, scaled, distance, a)
}

/// `a` is the acceleration that a body of mass `mass` causes at separation
/// `s`: of magnitude `GRAVITATION * mass / r^2`, along the displacement.
pub open spec fn attraction<K: Arithmetic>(k: &K, s: Separation, mass: Single, a: Vector) -> bool {
    exists|magnitude: Single| #[trigger]
        strength(k, mass, s.squared, magnitude) && along(k, magnitude, s.dx, s.distance, a.x)
            && along(k, magnitude, s.dy, s.distance, a.y)
}

/// `after` is `before` with the attraction of `s` and `mass` added, or
/// `before` itself where `s` is out of reach.
pub open spec fn felt<K: Arithmetic>(
    k: &K,
    s: Separation,
    mass: Single,
    before: Vector,
    after: Vector,
) -> bool {
    if within_reach(s) {
        exists|a: Vector| #[trigger]
            attraction(k, s, mass, a) && sum(k, before.x, a.x, after.x) && sum(
                k,
                before.y,
                a.y,
                after.y,
            )
    } else {
        after == before
    }
}

/// `after` is `before` plus what a body of mass `mass` at `source`
/// contributes to the acceleration of a body at `target`.
pub open spec fn contribution<K: Arithmetic>(
    k: &K,
    target: Vector,
    source: Vector,
    mass: Single,
    before: Vector,
    after: Vector,
) -> bool {
    exists|s: Separation| #[trigger] separated(k, target, source, s) && felt(k, s, mass, before, after)
}

/// `after` is `before` plus what body `count - 1` contributes to body `i`;
/// a body contributes nothing to itself.
pub open spec fn nth_contribution<K: Arithmetic>(
    k: &K,
    positions: Seq<Vector>,
    masses: Seq<Single>,
    i: int,
    count: nat,
    before: Vector,
    after: Vector,
) -> bool {
    let j = count - 1;
    if j == i {
        after == before
    } else {
        contribution(k, positions[i], positions[j], masses[j], before, after)
    }
}

/// `acceleration` is what the first `count` bodies, taken in order from
/// zero, contribute to body `i`.
pub open spec fn pulled<K: Arithmetic>(
    k: &K,
    positions: Seq<Vector>,
    masses: Seq<Single>,
    i: int,
    count: nat,
    acceleration: Vector,
) -> bool
    decreases count,
{
    if count == 0 {
        acceleration == Vector::zero()
    } else {
        exists|before: Vector| #[trigger]
            nth_contribution(k, positions, masses, i, count, before, acceleration) && pulled(
                k,
                positions,
                masses,
                i,
                (count - 1) as nat,
                before,
            )
    }
}

/// Measures the separation of `to` from `from`.
pub fn separation<K: Arithmetic>(k: &K, from: Vector, to: Vector) -> (s: Separation)
    ensures
        separated(k, from, to, s),
{
    let dx = k.minus(to.x, from.x);
    let dy = k.minus(to.y, from.y);
    let squared = square_sum(k, dx, dy);
    let distance = k.root(squared);
    Separation { dx, dy, squared, distance }
}

/// Decides whether two bodies at separation `s` attract each other.
pub fn in_reach(s: &Separation) -> (r: bool)
    ensures
        r == within_reach(*s),
{
    !greater(s.distance, CUTOFF_DISTANCE)
}

/// Computes the acceleration that a body of mass `mass` causes at separation
/// `s`.
pub fn attract<K: Arithmetic>(k: &K, s: &Separation, mass: Single) -> (a: Vector)
    ensures
        attraction(k, *s, mass, a),
{
    let gm = k.times(GRAVITATION, mass);
    let magnitude = k.over(gm, s.squared);
    assert(product(k, GRAVITATION, mass, gm));
    let scaled_x = k.times(magnitude, s.dx);
    let x = k.over(scaled_x, s.distance);
    assert(product(k, magnitude, s.dx, scaled_x));
    let scaled_y = k.times(magnitude, s.dy);
    let y = k.over(scaled_y, s.distance);
    assert(product(k, magnitude, s.dy, scaled_y));
    assert(strength(k, mass, s.squared, magnitude));
    Vector { x, y }
}

/// Adds to `before` what a body of mass `mass` at `source` contributes to
/// the acceleration of a body at `target`.
pub fn accumulate<K: Arithmetic>(
    k: &K,
    target: Vector,
    source: Vector,
    mass: Single,
    before: Vector,
) -> (after: Vector)
    ensures
        contribution(k, target, source, mass, before, after),
{
    let s = separation(k, target, source);
    if in_reach(&s) {
        let a = attract(k, &s, mass);
        let after = Vector { x: k.plus(before.x, a.x), y: k.plus(before.y, a.y) };
        assert(attraction(k, s, mass, a));
        assert(felt(k, s, mass, before, after));
        after
    } else {
        assert(felt(k, s, mass, before, before));
        before
    }
}

/// Sums, in order of index, what every other body contributes to the
/// acceleration of body `i`.
pub fn pull_on<K: Arithmetic>(k: &K, positions: &Vec<Vector>, masses: &Vec<Single>, i: usize) -> (acceleration: Vector)
    requires
        positions.len() == masses.len(),
        i < positions.len(),
    ensures
        pulled(k, positions@, masses@, i as int, positions.len() as nat, acceleration),
{
    let n = positions.len();
    let mut acceleration = Vector::zero();
    let mut j: usize = 0;
    while j < n
        invariant
            n == positions.len(),
            n == masses.len(),
            i < n,
            j <= n,
            pulled(k, positions@, masses@, i as int, j as nat, acceleration),
        decreases n - j,
    {
        let before = acceleration;
        if j != i {
            acceleration = accumulate(k, positions[i], positions[j], masses[j], before);
        }
        j += 1;
        assert(nth_contribution(k, positions@, masses@, i as int, j as nat, before, acceleration));
    }
    acceleration
}

/// The force evaluator: the acceleration of every body, from the positions
/// and masses of all of them.
pub fn evaluate<K: Arithmetic>(k: &K, positions: &Vec<Vector>, masses: &Vec<Single>) -> (accelerations: Vec<Vector>)
    requires
        positions.len() == masses.len(),
    ensures
        accelerations.len() == positions.len(),
        forall|i: int|
            0 <= i < positions.len() ==> pulled(
                k,
                positions@,
                masses@,
                i,
                positions.len() as nat,
                #[trigger] accelerations[i],
            ),
{
    let n = positions.len();
    let mut accelerations: Vec<Vector> = Vec::new();
    let mut i: usize = 0;
    while i < n
        invariant
            n == positions.len(),
            n == masses.len(),
            i <= n,
            accelerations.len() == i,
            forall|t: int|
                0 <= t < i ==> pulled(k, positions@, masses@, t, n as nat, #[trigger] accelerations[t]),
        decreases n - i,
    {
        let a = pull_on(k, positions, masses, i);
        accelerations.push(a);
        i += 1;
    }
    accelerations
}

/// Cutoff exclusion: where every separation of `source` from `target` that
/// the arithmetic can report lies beyond the cutoff, `source` contributes
/// nothing to the acceleration of `target`, whatever its mass.  With the two
/// places exchanged this says the same of `target` and `source`.
pub proof fn lemma_cutoff_excludes<K: Arithmetic>(
    k: &K,
    target: Vector,
    source: Vector,
    mass: Single,
    before: Vector,
    after: Vector,
)
    requires
        contribution(k, target, source, mass, before, after),
        forall|s: Separation| #[trigger] separated(k, target, source, s) ==> !within_reach(s),
    ensures
        after == before,
{
}

/// A body that has no other body within the cutoff does not accelerate:
/// where each of the first `count` bodies is body `i` itself or out of its
/// reach, what they contribute to body `i` is zero.
pub proof fn lemma_isolated_body_feels_nothing<K: Arithmetic>(
    k: &K,
    positions: Seq<Vector>,
    masses: Seq<Single>,
    i: int,
    count: nat,
    acceleration: Vector,
)
    requires
        pulled(k, positions, masses, i, count, acceleration),
        forall|j: int, s: Separation|
            0 <= j < count && j != i && #[trigger] separated(k, positions[i], positions[j], s)
                ==> !within_reach(s),
    ensures
        acceleration == Vector::zero(),
    decreases count,
{
    if count > 0 {
        let before = choose|before: Vector| #[trigger]
            nth_contribution(k, positions, masses, i, count, before, acceleration) && pulled(
                k,
                positions,
                masses,
                i,
                (count - 1) as nat,
                before,
            );
        lemma_isolated_body_feels_nothing(k, positions, masses, i, (count - 1) as nat, before);
        if count - 1 != i {
            lemma_cutoff_excludes(
                k,
                positions[i],
                positions[count - 1],
                masses[count - 1],
                before,
                acceleration,
            );
        }
    }
}

/// With an arithmetic that answers in one way only, a separation is
/// determined by the two points.
pub proof fn lemma_separation_determined<K: Arithmetic>(
    k: &K,
    from: Vector,
    to: Vector,
    one: Separation,
    other: Separation,
)
    requires
        deterministic(k),
        separated(k, from, to, one),
        separated(k, from, to, other),
    ensures
        one == other,
{
}

/// With an arithmetic that answers in one way only, a contribution is
/// determined by the two positions, the mass and what it is added to.
pub proof fn lemma_contribution_determined<K: Arithmetic>(
    k: &K,
    target: Vector,
    source: Vector,
    mass: Single,
    before: Vector,
    one: Vector,
    other: Vector,
)
    requires
        deterministic(k),
        contribution(k, target, source, mass, before, one),
        contribution(k, target, source, mass, before, other),
    ensures
        one == other,
{
    let s = choose|s: Separation| #[trigger]
        separated(k, target, source, s) && felt(k, s, mass, before, one);
    let t = choose|t: Separation| #[trigger]
        separated(k, target, source, t) && felt(k, t, mass, before, other);
    lemma_separation_determined(k, target, source, s, t);
}

/// With an arithmetic that answers in one way only, the acceleration of a
/// body is determined by the positions and masses of all bodies.
pub proof fn lemma_pulled_determined<K: Arithmetic>(
    k: &K,
    positions: Seq<Vector>,
    masses: Seq<Single>,
    i: int,
    count: nat,
    one: Vector,
    other: Vector,
)
    requires
        deterministic(k),
        pulled(k, positions, masses, i, count, one),
        pulled(k, positions, masses, i, count, other),
    ensures
        one == other,
    decreases count,
{
    if count > 0 {
        let a = choose|a: Vector| #[trigger]
            nth_contribution(k, positions, masses, i, count, a, one) && pulled(
                k,
                positions,
                masses,
                i,
                (count - 1) as nat,
                a,
            );
        let b = choose|b: Vector| #[trigger]
            nth_contribution(k, positions, masses, i, count, b, other) && pulled(
                k,
                positions,
                masses,
                i,
                (count - 1) as nat,
                b,
            );
        lemma_pulled_determined(k, positions, masses, i, (count - 1) as nat, a, b);
        if count - 1 != i {
            lemma_contribution_determined(
                k,
                positions[i],
                positions[count - 1],
                masses[count - 1],
                a,
                one,
                other,
            );
        }
    }
}

} // verus!
