//! Energy diagnostics: the total kinetic and potential energy of a set of
//! bodies, accumulated in double precision.

use vstd::prelude::*;
use crate::arithmetic::{
    Arithmetic, deterministic, difference, sum_of_squares, square_sum, wide_product, wide_quotient,
    wide_square_root, wide_square_sum, wide_sum, wide_sum_of_squares, widened,
};
use crate::body::{Body, Vector};
use crate::double::{Double, HALF, MINUS_ONE, ZERO, is_zero, zero};
use crate::force::GRAVITATION;
use crate::pairs::{
    lemma_pair_count, lemma_rows_ascend, lemma_rows_members, row, rows, unordered_pairs,
};
use crate::single::Single;

verus! {

/// `v2` is `v.x * v.x + v.y * v.y`, computed in single precision and then
/// widened.
pub open spec fn speed_squared<K: Arithmetic>(k: &K, v: Vector, v2: Double) -> bool {
    exists|s: Single| #[trigger] sum_of_squares(k, v.x, v.y, s) && widened(k, s, v2)
}

/// `hm` is `0.5 * mass`, the mass widened first.
pub open spec fn half_mass<K: Arithmetic>(k: &K, mass: Single, hm: Double) -> bool {
    exists|m: Double| #[trigger] widened(k, mass, m) && wide_product(k, HALF, m, hm)
}

/// `term` is the kinetic energy of `body`: `0.5 * mass * |velocity|^2`.
pub open spec fn kinetic_term<K: Arithmetic>(k: &K, body: Body, term: Double) -> bool {
    exists|v2: Double, hm: Double|
        #![trigger speed_squared(k, body.velocity, v2), half_mass(k, body.mass, hm)]
        speed_squared(k, body.velocity, v2) && half_mass(k, body.mass, hm) && wide_product(
            k,
            hm,
            v2,
            term,
        )
}

/// `after` is `before` plus the kinetic energy of `body`.
pub open spec fn kinetic_gained<K: Arithmetic>(k: &K, body: Body, before: Double, after: Double) -> bool {
    exists|term: Double| #[trigger] kinetic_term(k, body, term) && wide_sum(k, before, term, after)
}

/// `total` is the kinetic energy of `bodies`: the terms of the bodies added
/// to zero one by one, in their order.
pub open spec fn kinetic<K: Arithmetic>(k: &K, bodies: Seq<Body>, total: Double) -> bool
    decreases bodies.len(),
{
    if bodies.len() == 0 {
        total == ZERO
    } else {
        exists|before: Double| #[trigger]
            kinetic_gained(k, bodies.last(), before, total) && kinetic(k, bodies.drop_last(), before)
    }
}

/// `d` is `to - from`, subtracted in single precision and then widened.
pub open spec fn wide_gap<K: Arithmetic>(k: &K, from: Single, to: Single, d: Double) -> bool {
    exists|s: Single| #[trigger] difference(k, to, from, s) && widened(k, s, d)
}

/// `r` is the distance between `from` and `to`: the square root of the sum
/// of the squared gaps, in double precision.
pub open spec fn wide_distance<K: Arithmetic>(k: &K, from: Vector, to: Vector, r: Double) -> bool {
    exists|dx: Double, dy: Double, r2: Double|
        #![trigger wide_gap(k, from.x, to.x, dx), wide_gap(k, from.y, to.y, dy), wide_square_root(k, r2, r)]
        wide_gap(k, from.x, to.x, dx) && wide_gap(k, from.y, to.y, dy) && wide_sum_of_squares(
            k,
            dx,
            dy,
            r2,
        ) && wide_square_root(k, r2, r)
}

/// `out` is `-1 * GRAVITATION`, the constant widened first.
pub open spec fn negated_gravitation<K: Arithmetic>(k: &K, out: Double) -> bool {
    exists|g: Double| #[trigger] widened(k, GRAVITATION, g) && wide_product(k, MINUS_ONE, g, out)
}

/// `out` is `c * mass`, the mass widened first.
pub open spec fn times_mass<K: Arithmetic>(k: &K, c: Double, mass: Single, out: Double) -> bool {
    exists|m: Double| #[trigger] widened(k, mass, m) && wide_product(k, c, m, out)
}

/// `c` is `-1 * GRAVITATION * first * second`, multiplied from the left.
pub open spec fn coupling<K: Arithmetic>(k: &K, first: Single, second: Single, c: Double) -> bool {
    exists|g: Double, gm: Double|
        #![trigger negated_gravitation(k, g), times_mass(k, g, first, gm)]
        negated_gravitation(k, g) && times_mass(k, g, first, gm) && times_mass(k, gm, second, c)
}

/// `term` is the potential energy of two masses at distance `r`:
/// `-GRAVITATION * first * second / r`.
pub open spec fn binding<K: Arithmetic>(k: &K, first: Single, second: Single, r: Double, term: Double) -> bool {
    exists|c: Double| #[trigger] coupling(k, first, second, c) && wide_quotient(k, c, r, term)
}

/// `after` is `before` plus the potential energy of two bodies at distance
/// `r`, or `before` itself where `r` is zero.
pub open spec fn bound<K: Arithmetic>(
    k: &K,
    first: Single,
    second: Single,
    r: Double,
    before: Double,
    after: Double,
) -> bool {
    if is_zero(r) {
        after == before
    } else {
        exists|term: Double| #[trigger]
            binding(k, first, second, r, term) && wide_sum(k, before, term, after)
    }
}

/// `after` is `before` plus the potential energy of the pair `first`,
/// `second`.
pub open spec fn potential_gained<K: Arithmetic>(
    k: &K,
    first: Body,
    second: Body,
    before: Double,
    after: Double,
) -> bool {
    exists|r: Double| #[trigger]
        wide_distance(k, first.position, second.position, r) && bound(
            k,
            first.mass,
            second.mass,
            r,
            before,
            after,
        )
}

/// `total` is the potential energy of the listed pairs of `bodies`: the
/// terms of the pairs added to zero one by one, in the order of the list.
pub open spec fn potential_over<K: Arithmetic>(
    k: &K,
    bodies: Seq<Body>,
    pairs: Seq<(int, int)>,
    total: Double,
) -> bool
    decreases pairs.len(),
{
    if pairs.len() == 0 {
        total == ZERO
    } else {
        exists|before: Double| #[trigger]
            potential_gained(k, bodies[pairs.last().0], bodies[pairs.last().1], before, total)
                && potential_over(k, bodies, pairs.drop_last(), before)
    }
}

/// `total` is the potential energy of `bodies`: every unordered pair
/// counted once, whatever its distance.
pub open spec fn potential<K: Arithmetic>(k: &K, bodies: Seq<Body>, total: Double) -> bool {
    potential_over(k, bodies, unordered_pairs(bodies.len()), total)
}

/// Computes the kinetic energy of one body.
pub fn kinetic_of<K: Arithmetic>(k: &K, body: &Body) -> (term: Double)
    ensures
        kinetic_term(k, *body, term),
{
    let s = square_sum(k, body.velocity.x, body.velocity.y);
    let v2 = k.widen(s);
    assert(sum_of_squares(k, body.velocity.x, body.velocity.y, s));
    let m = k.widen(body.mass);
    let hm = k.times_wide(HALF, m);
    assert(widened(k, body.mass, m));
    assert(speed_squared(k, body.velocity, v2) && half_mass(k, body.mass, hm));
    k.times_wide(hm, v2)
}

/// Computes the total kinetic energy of `bodies`.
pub fn kinetic_energy<K: Arithmetic>(k: &K, bodies: &Vec<Body>) -> (total: Double)
    ensures
        kinetic(k, bodies@, total),
{
    let n = bodies.len();
    let mut total = ZERO;
    let mut i: usize = 0;
    while i < n
        invariant
            n == bodies.len(),
            i <= n,
            kinetic(k, bodies@.take(i as int), total),
        decreases n - i,
    {
        let before = total;
        let term = kinetic_of(k, &bodies[i]);
        total = k.plus_wide(before, term);
        i += 1;
        proof {
            let done = bodies@.take(i as int);
            assert(done.drop_last() == bodies@.take(i - 1));
            assert(done.last() == bodies@[i - 1]);
            assert(kinetic_gained(k, done.last(), before, total));
        }
    }
    assert(bodies@.take(n as int) == bodies@);
    total
}

fn wide_difference<K: Arithmetic>(k: &K, from: Single, to: Single) -> (d: Double)
    ensures
        wide_gap(k, from, to, d),
{
    let s = k.minus(to, from);
    assert(difference(k, to, from, s));
    k.widen(s)
}

/// Measures the distance between two points in double precision.
pub fn distance<K: Arithmetic>(k: &K, from: Vector, to: Vector) -> (r: Double)
    ensures
        wide_distance(k, from, to, r),
{
    let dx = wide_difference(k, from.x, to.x);
    let dy = wide_difference(k, from.y, to.y);
    let r2 = wide_square_sum(k, dx, dy);
    let r = k.root_wide(r2);
    assert(wide_gap(k, from.x, to.x, dx) && wide_gap(k, from.y, to.y, dy) && wide_square_root(
        k,
        r2,
        r,
    ));
    r
}

fn multiply_by_mass<K: Arithmetic>(k: &K, c: Double, mass: Single) -> (out: Double)
    ensures
        times_mass(k, c, mass, out),
{
    let m = k.widen(mass);
    assert(widened(k, mass, m));
    k.times_wide(c, m)
}

/// Computes the potential energy of two masses at distance `r`.
pub fn bind<K: Arithmetic>(k: &K, first: Single, second: Single, r: Double) -> (term: Double)
    ensures
        binding(k, first, second, r, term),
{
    let wide = k.widen(GRAVITATION);
    let g = k.times_wide(MINUS_ONE, wide);
    assert(widened(k, GRAVITATION, wide));
    let gm = multiply_by_mass(k, g, first);
    let c = multiply_by_mass(k, gm, second);
    assert(negated_gravitation(k, g) && times_mass(k, g, first, gm));
    assert(coupling(k, first, second, c));
    k.over_wide(c, r)
}

/// Adds to `before` the potential energy of the pair `first`, `second`.
pub fn add_pair<K: Arithmetic>(k: &K, first: &Body, second: &Body, before: Double) -> (after: Double)
    ensures
        potential_gained(k, *first, *second, before, after),
{
    let r = distance(k, first.position, second.position);
    let after = if zero(r) {
        before
    } else {
        let term = bind(k, first.mass, second.mass, r);
        let after = k.plus_wide(before, term);
        assert(binding(k, first.mass, second.mass, r, term));
        after
    };
    assert(bound(k, first.mass, second.mass, r, before, after));
    assert(wide_distance(k, first.position, second.position, r));
    after
}

/// Adds to `before` the potential energy of the pairs of body `i` with
/// every later body.
fn add_row<K: Arithmetic>(k: &K, bodies: &Vec<Body>, i: usize, before: Double) -> (after: Double)
    requires
        i < bodies.len(),
        potential_over(k, bodies@, rows(bodies.len() as nat, i as nat), before),
    ensures
        potential_over(k, bodies@, rows(bodies.len() as nat, (i + 1) as nat), after),
{
    let n = bodies.len();
    let ghost earlier = rows(n as nat, i as nat);
    let ghost this = row(n as nat, i as int);
    let mut total = before;
    let mut j: usize = i + 1;
    assert(earlier + this.take(0) == earlier);
    while j < n
        invariant
            n == bodies.len(),
            i < j <= n,
            earlier == rows(n as nat, i as nat),
            this == row(n as nat, i as int),
            potential_over(k, bodies@, earlier + this.take(j - i - 1), total),
        decreases n - j,
    {
        let sofar = total;
        total = add_pair(k, &bodies[i], &bodies[j], sofar);
        j += 1;
        proof {
            let done = earlier + this.take(j - i - 1);
            assert(done.drop_last() == earlier + this.take(j - i - 2));
            assert(done.last() == (i as int, j - 1));
            assert(potential_gained(
                k,
                bodies@[done.last().0],
                bodies@[done.last().1],
                sofar,
                total,
            ));
        }
    }
    assert(this.take(n - i - 1) == this);
    total
}

/// Computes the total potential energy of `bodies`.
pub fn potential_energy<K: Arithmetic>(k: &K, bodies: &Vec<Body>) -> (total: Double)
    ensures
        potential(k, bodies@, total),
{
    let n = bodies.len();
    let mut total = ZERO;
    let mut i: usize = 0;
    while i < n
        invariant
            n == bodies.len(),
            i <= n,
            potential_over(k, bodies@, rows(n as nat, i as nat), total),
        decreases n - i,
    {
        total = add_row(k, bodies, i, total);
        i += 1;
    }
    total
}

/// `kinetic_energy` and `potential_energy` are the two energies of
/// `bodies`.
pub open spec fn measured<K: Arithmetic>(
    k: &K,
    bodies: Seq<Body>,
    kinetic_energy: Double,
    potential_energy: Double,
) -> bool {
    kinetic(k, bodies, kinetic_energy) && potential(k, bodies, potential_energy)
}

/// The energy diagnostics: the kinetic and the potential energy of
/// `bodies`, in this order.
pub fn compute<K: Arithmetic>(k: &K, bodies: &Vec<Body>) -> (energies: (Double, Double))
    ensures
        measured(k, bodies@, energies.0, energies.1),
{
    let kinetic_energy = kinetic_energy(k, bodies);
    let potential_energy = potential_energy(k, bodies);
    (kinetic_energy, potential_energy)
}

/// With an arithmetic that answers in one way only, the kinetic energy is
/// determined by the bodies.
pub proof fn lemma_kinetic_determined<K: Arithmetic>(k: &K, bodies: Seq<Body>, one: Double, other: Double)
    requires
        deterministic(k),
        kinetic(k, bodies, one),
        kinetic(k, bodies, other),
    ensures
        one == other,
    decreases bodies.len(),
{
    if bodies.len() > 0 {
        let a = choose|a: Double| #[trigger]
            kinetic_gained(k, bodies.last(), a, one) && kinetic(k, bodies.drop_last(), a);
        let b = choose|b: Double| #[trigger]
            kinetic_gained(k, bodies.last(), b, other) && kinetic(k, bodies.drop_last(), b);
        lemma_kinetic_determined(k, bodies.drop_last(), a, b);
    }
}

/// With an arithmetic that answers in one way only, the potential energy of
/// a list of pairs is determined by the bodies and the list.
pub proof fn lemma_potential_over_determined<K: Arithmetic>(
    k: &K,
    bodies: Seq<Body>,
    pairs: Seq<(int, int)>,
    one: Double,
    other: Double,
)
    requires
        deterministic(k),
        potential_over(k, bodies, pairs, one),
        potential_over(k, bodies, pairs, other),
    ensures
        one == other,
    decreases pairs.len(),
{
    if pairs.len() > 0 {
        let first = bodies[pairs.last().0];
        let second = bodies[pairs.last().1];
        let a = choose|a: Double| #[trigger]
            potential_gained(k, first, second, a, one) && potential_over(
                k,
                bodies,
                pairs.drop_last(),
                a,
            );
        let b = choose|b: Double| #[trigger]
            potential_gained(k, first, second, b, other) && potential_over(
                k,
                bodies,
                pairs.drop_last(),
                b,
            );
        lemma_potential_over_determined(k, bodies, pairs.drop_last(), a, b);
    }
}

/// Pair counting: the potential energy of `n` bodies is a sum over
/// `n * (n - 1) / 2` pairs, and a pair that coincides adds nothing to it.
pub proof fn lemma_potential_counts_each_pair_once<K: Arithmetic>(k: &K, bodies: Seq<Body>, total: Double)
    requires
        potential(k, bodies, total),
    ensures
        potential_over(k, bodies, unordered_pairs(bodies.len()), total),
        unordered_pairs(bodies.len()).len() == bodies.len() * (bodies.len() - 1) / 2,
        forall|t: int|
            0 <= t < unordered_pairs(bodies.len()).len() ==> 0 <= (#[trigger] unordered_pairs(
                bodies.len(),
            )[t]).0 < unordered_pairs(bodies.len())[t].1 < bodies.len(),
        forall|s: int, t: int|
            0 <= s < t < unordered_pairs(bodies.len()).len() ==> #[trigger] unordered_pairs(
                bodies.len(),
            )[s] != #[trigger] unordered_pairs(bodies.len())[t],
{
    let n = bodies.len();
    lemma_pair_count(n);
    assert forall|t: int| 0 <= t < unordered_pairs(n).len() implies 0 <= (#[trigger] unordered_pairs(
        n,
    )[t]).0 < unordered_pairs(n)[t].1 < n by {
        lemma_rows_members(n, n, t);
    }
    assert forall|s: int, t: int| 0 <= s < t < unordered_pairs(n).len() implies #[trigger] unordered_pairs(
        n,
    )[s] != #[trigger] unordered_pairs(n)[t] by {
        lemma_rows_ascend(n, n, s, t);
    }
}

} // verus!
