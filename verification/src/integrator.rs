//! The leapfrog integrator: one kick-drift-kick step of fixed length.

use vstd::prelude::*;
use vstd::arithmetic::power2::{lemma_pow2_unfold, pow2};
use crate::arithmetic::{Arithmetic, deterministic, product, sum};
use crate::body::{Body, Vector, masses_of, positions_of};
use crate::energy::{
    compute, lemma_kinetic_determined, lemma_potential_over_determined, measured,
};
use crate::force::{
    Separation, evaluate, lemma_isolated_body_feels_nothing, lemma_pulled_determined, pulled,
    separated, within_reach,
};
use crate::pairs::unordered_pairs;
use crate::simulation::{Simulation, State, TIME_STEP_SECONDS, elapsed, populated};
use crate::single::{Single, exponent, fraction, value};

verus! {

/// The length of one step in seconds, 2.0E7.
pub const TIME_STEP: Single = 0x4B98_9680;

/// Half the length of one step, 1.0E7.
pub const HALF_TIME_STEP: Single = 0x4B18_9680;

/// `out` is `base + rate * span`.
pub open spec fn nudged<K: Arithmetic>(k: &K, base: Single, rate: Single, span: Single, out: Single) -> bool {
    exists|change: Single| #[trigger] product(k, rate, span, change) && sum(k, base, change, out)
}

/// A kick: `out` is `velocity + acceleration * HALF_TIME_STEP`.
pub open spec fn kicked<K: Arithmetic>(k: &K, velocity: Vector, acceleration: Vector, out: Vector) -> bool {
    &&& nudged(k, velocity.x, acceleration.x, HALF_TIME_STEP, out.x)
    &&& nudged(k, velocity.y, acceleration.y, HALF_TIME_STEP, out.y)
}

/// A drift: `out` is `position + velocity * TIME_STEP`.
pub open spec fn drifted<K: Arithmetic>(k: &K, position: Vector, velocity: Vector, out: Vector) -> bool {
    &&& nudged(k, position.x, velocity.x, TIME_STEP, out.x)
    &&& nudged(k, position.y, velocity.y, TIME_STEP, out.y)
}

/// What one step does to one body, given the acceleration that it ends
/// with: the old acceleration kicks the velocity to mid-step, the mid-step
/// velocity carries the position over the whole step, and the new
/// acceleration kicks the mid-step velocity to the end.  The mass stays.
pub open spec fn moved<K: Arithmetic>(k: &K, before: Body, after: Body) -> bool {
    &&& after.mass == before.mass
    &&& exists|half: Vector| #[trigger]
        kicked(k, before.velocity, before.acceleration, half) && drifted(
            k,
            before.position,
            half,
            after.position,
        ) && kicked(k, half, after.acceleration, after.velocity)
}

/// Every body's acceleration is the one that the positions and masses of
/// all the bodies imply.
pub open spec fn consistent<K: Arithmetic>(k: &K, bodies: Seq<Body>) -> bool {
    forall|i: int|
        0 <= i < bodies.len() ==> pulled(
            k,
            positions_of(bodies),
            masses_of(bodies),
            i,
            bodies.len(),
            (#[trigger] bodies[i]).acceleration,
        )
}

/// One step leads from `before` to `after`.
pub open spec fn advanced<K: Arithmetic>(k: &K, before: State, after: State) -> bool {
    &&& after.bodies.len() == before.bodies.len()
    &&& forall|i: int|
        0 <= i < before.bodies.len() ==> moved(k, before.bodies[i], #[trigger] after.bodies[i])
    &&& consistent(k, after.bodies)
    &&& measured(k, after.bodies, after.kinetic_energy, after.potential_energy)
    &&& after.steps == before.steps + 1
}

fn nudge<K: Arithmetic>(k: &K, base: Single, rate: Single, span: Single) -> (out: Single)
    ensures
        nudged(k, base, rate, span, out),
{
    let change = k.times(rate, span);
    assert(product(k, rate, span, change));
    k.plus(base, change)
}

/// Kicks `velocity` by `acceleration` over half a step.
pub fn kick<K: Arithmetic>(k: &K, velocity: Vector, acceleration: Vector) -> (out: Vector)
    ensures
        kicked(k, velocity, acceleration, out),
{
    Vector {
        x: nudge(k, velocity.x, acceleration.x, HALF_TIME_STEP),
        y: nudge(k, velocity.y, acceleration.y, HALF_TIME_STEP),
    }
}

/// Moves `position` by `velocity` over a whole step.
pub fn drift<K: Arithmetic>(k: &K, position: Vector, velocity: Vector) -> (out: Vector)
    ensures
        drifted(k, position, velocity, out),
{
    Vector {
        x: nudge(k, position.x, velocity.x, TIME_STEP),
        y: nudge(k, position.y, velocity.y, TIME_STEP),
    }
}

/// The mid-step velocity of every body.
fn half_kick_all<K: Arithmetic>(k: &K, bodies: &Vec<Body>) -> (half: Vec<Vector>)
    ensures
        half.len() == bodies.len(),
        forall|i: int|
            0 <= i < bodies.len() ==> kicked(
                k,
                bodies[i].velocity,
                bodies[i].acceleration,
                #[trigger] half[i],
            ),
{
    let n = bodies.len();
    let mut half: Vec<Vector> = Vec::new();
    let mut i: usize = 0;
    while i < n
        invariant
            n == bodies.len(),
            i <= n,
            half.len() == i,
            forall|t: int|
                0 <= t < i ==> kicked(
                    k,
                    bodies[t].velocity,
                    bodies[t].acceleration,
                    #[trigger] half[t],
                ),
        decreases n - i,
    {
        half.push(kick(k, bodies[i].velocity, bodies[i].acceleration));
        i += 1;
    }
    half
}

/// The position of every body at the end of the step.
fn drift_all<K: Arithmetic>(k: &K, bodies: &Vec<Body>, half: &Vec<Vector>) -> (positions: Vec<Vector>)
    requires
        half.len() == bodies.len(),
    ensures
        positions.len() == bodies.len(),
        forall|i: int|
            0 <= i < bodies.len() ==> drifted(k, bodies[i].position, half[i], #[trigger] positions[i]),
{
    let n = bodies.len();
    let mut positions: Vec<Vector> = Vec::new();
    let mut i: usize = 0;
    while i < n
        invariant
            n == bodies.len(),
            n == half.len(),
            i <= n,
            positions.len() == i,
            forall|t: int|
                0 <= t < i ==> drifted(k, bodies[t].position, half[t], #[trigger] positions[t]),
        decreases n - i,
    {
        positions.push(drift(k, bodies[i].position, half[i]));
        i += 1;
    }
    positions
}

/// The mass of every body.
fn mass_all(bodies: &Vec<Body>) -> (masses: Vec<Single>)
    ensures
        masses@ == masses_of(bodies@),
{
    let n = bodies.len();
    let mut masses: Vec<Single> = Vec::new();
    let mut i: usize = 0;
    while i < n
        invariant
            n == bodies.len(),
            i <= n,
            masses.len() == i,
            forall|t: int| 0 <= t < i ==> masses[t] == bodies[t].mass,
        decreases n - i,
    {
        masses.push(bodies[i].mass);
        i += 1;
    }
    assert(masses@ =~= masses_of(bodies@));
    masses
}

/// Every body at the end of the step: at its new position, with its new
/// acceleration and with its mid-step velocity kicked by it.
fn settle_all<K: Arithmetic>(
    k: &K,
    bodies: &Vec<Body>,
    half: &Vec<Vector>,
    positions: &Vec<Vector>,
    accelerations: &Vec<Vector>,
) -> (settled: Vec<Body>)
    requires
        half.len() == bodies.len(),
        positions.len() == bodies.len(),
        accelerations.len() == bodies.len(),
    ensures
        settled.len() == bodies.len(),
        forall|i: int|
            #![trigger settled[i]]
            0 <= i < bodies.len() ==> {
                &&& settled[i].mass == bodies[i].mass
                &&& settled[i].position == positions[i]
                &&& settled[i].acceleration == accelerations[i]
                &&& kicked(k, half[i], accelerations[i], settled[i].velocity)
            },
{
    let n = bodies.len();
    let mut settled: Vec<Body> = Vec::new();
    let mut i: usize = 0;
    while i < n
        invariant
            n == bodies.len(),
            n == half.len(),
            n == positions.len(),
            n == accelerations.len(),
            i <= n,
            settled.len() == i,
            forall|t: int|
                #![trigger settled[t]]
                0 <= t < i ==> {
                    &&& settled[t].mass == bodies[t].mass
                    &&& settled[t].position == positions[t]
                    &&& settled[t].acceleration == accelerations[t]
                    &&& kicked(k, half[t], accelerations[t], settled[t].velocity)
                },
        decreases n - i,
    {
        settled.push(
            Body {
                mass: bodies[i].mass,
                position: positions[i],
                velocity: kick(k, half[i], accelerations[i]),
                acceleration: accelerations[i],
            },
        );
        i += 1;
    }
    settled
}

/// Advances the simulation by one step: half-kick, drift, forces at the
/// drifted positions, second half-kick; then all bodies are replaced at
/// once, the energies of the new state are measured and the step is counted.
pub fn step<K: Arithmetic>(k: &K, state: &mut Simulation)
    requires
        old(state).wf(),
        old(state)@.steps < u64::MAX,
    ensures
        final(state).wf(),
        advanced(k, old(state)@, final(state)@),
{
    let bodies = state.bodies();
    let half = half_kick_all(k, bodies);
    let positions = drift_all(k, bodies, &half);
    let masses = mass_all(bodies);
    let accelerations = evaluate(k, &positions, &masses);
    let settled = settle_all(k, bodies, &half, &positions, &accelerations);
    proof {
        assert(positions_of(settled@) =~= positions@);
        assert(masses_of(settled@) =~= masses@);
        assert forall|i: int| 0 <= i < bodies.len() implies moved(
            k,
            bodies[i],
            #[trigger] settled[i],
        ) by {
            assert(kicked(k, bodies[i].velocity, bodies[i].acceleration, half[i]));
        }
        assert forall|i: int| 0 <= i < settled.len() implies pulled(
            k,
            positions_of(settled@),
            masses_of(settled@),
            i,
            settled@.len(),
            (#[trigger] settled@[i]).acceleration,
        ) by {
            assert(pulled(k, positions@, masses@, i, positions.len() as nat, accelerations[i]));
        }
    }
    let energies = compute(k, &settled);
    state.commit(settled, energies.0, energies.1);
}

/// The step that the drift uses and the step that the clock counts are the
/// same: `TIME_STEP` stands for `TIME_STEP_SECONDS` exactly, and
/// `HALF_TIME_STEP` for half of it.
pub proof fn lemma_time_step_is_whole_seconds()
    ensures
        value(TIME_STEP) == TIME_STEP_SECONDS * pow2(149),
        2 * value(HALF_TIME_STEP) == value(TIME_STEP),
{
    lemma_pow2_unfold(150);
    assert(exponent(TIME_STEP) == 151 && fraction(TIME_STEP) == 0x18_9680);
    assert(exponent(HALF_TIME_STEP) == 150 && fraction(HALF_TIME_STEP) == 0x18_9680);
}

/// `count` steps lead from `first` to `last`.
pub open spec fn advanced_by<K: Arithmetic>(k: &K, first: State, last: State, count: nat) -> bool
    decreases count,
{
    if count == 0 {
        last == first
    } else {
        exists|middle: State| #[trigger]
            advanced(k, middle, last) && advanced_by(k, first, middle, (count - 1) as nat)
    }
}

/// Step count and elapsed time: `count` steps add exactly `count` time
/// steps to the elapsed time, and leave the number of bodies and every mass
/// as they were.
pub proof fn lemma_steps_add_up<K: Arithmetic>(k: &K, first: State, last: State, count: nat)
    requires
        advanced_by(k, first, last, count),
    ensures
        last.steps == first.steps + count,
        elapsed(last) == elapsed(first) + count * TIME_STEP_SECONDS,
        last.bodies.len() == first.bodies.len(),
        forall|i: int|
            0 <= i < first.bodies.len() ==> (#[trigger] last.bodies[i]).mass == first.bodies[i].mass,
        populated(first.bodies) ==> populated(last.bodies),
    decreases count,
{
    if count > 0 {
        let middle = choose|middle: State| #[trigger]
            advanced(k, middle, last) && advanced_by(k, first, middle, (count - 1) as nat);
        lemma_steps_add_up(k, first, middle, (count - 1) as nat);
        assert forall|i: int| 0 <= i < first.bodies.len() implies (#[trigger] last.bodies[i]).mass
            == first.bodies[i].mass by {
            assert(moved(k, middle.bodies[i], last.bodies[i]));
        }
        assert((first.steps + count) * TIME_STEP_SECONDS == first.steps * TIME_STEP_SECONDS + count
            * TIME_STEP_SECONDS) by (nonlinear_arith);
    } else {
        assert(count * TIME_STEP_SECONDS == 0) by (nonlinear_arith)
            requires
                count == 0,
        ;
    }
}

/// Starting from a state in which no step has been taken, the elapsed time
/// after `count` steps is `count` time steps exactly.
pub proof fn lemma_elapsed_is_steps_times_quantum<K: Arithmetic>(
    k: &K,
    first: State,
    last: State,
    count: nat,
)
    requires
        first.steps == 0,
        advanced_by(k, first, last, count),
    ensures
        elapsed(last) == count * TIME_STEP_SECONDS,
{
    lemma_steps_add_up(k, first, last, count);
}

/// With an arithmetic that answers in one way only, a nudge is determined.
proof fn lemma_nudged_determined<K: Arithmetic>(
    k: &K,
    base: Single,
    rate: Single,
    span: Single,
    one: Single,
    other: Single,
)
    requires
        deterministic(k),
        nudged(k, base, rate, span, one),
        nudged(k, base, rate, span, other),
    ensures
        one == other,
{
}

/// With an arithmetic that answers in one way only, the state after a step
/// is determined by the state before it, bit for bit.
pub proof fn lemma_step_determined<K: Arithmetic>(k: &K, before: State, one: State, other: State)
    requires
        deterministic(k),
        advanced(k, before, one),
        advanced(k, before, other),
    ensures
        one == other,
{
    let n = before.bodies.len() as int;
    assert forall|i: int| 0 <= i < n implies one.bodies[i].position == other.bodies[i].position
        && one.bodies[i].mass == other.bodies[i].mass by {
        lemma_drift_determined(k, before.bodies[i], one.bodies[i], other.bodies[i]);
    }
    assert(positions_of(one.bodies) =~= positions_of(other.bodies));
    assert(masses_of(one.bodies) =~= masses_of(other.bodies));
    assert forall|i: int| 0 <= i < n implies one.bodies[i] == other.bodies[i] by {
        lemma_pulled_determined(
            k,
            positions_of(one.bodies),
            masses_of(one.bodies),
            i,
            n as nat,
            one.bodies[i].acceleration,
            other.bodies[i].acceleration,
        );
        lemma_second_kick_determined(k, before.bodies[i], one.bodies[i], other.bodies[i]);
    }
    assert(one.bodies =~= other.bodies);
    lemma_kinetic_determined(k, one.bodies, one.kinetic_energy, other.kinetic_energy);
    lemma_potential_over_determined(
        k,
        one.bodies,
        unordered_pairs(one.bodies.len()),
        one.potential_energy,
        other.potential_energy,
    );
}

proof fn lemma_drift_determined<K: Arithmetic>(k: &K, before: Body, one: Body, other: Body)
    requires
        deterministic(k),
        moved(k, before, one),
        moved(k, before, other),
    ensures
        one.position == other.position,
        one.mass == other.mass,
{
    let a = choose|a: Vector| #[trigger]
        kicked(k, before.velocity, before.acceleration, a) && drifted(
            k,
            before.position,
            a,
            one.position,
        ) && kicked(k, a, one.acceleration, one.velocity);
    let b = choose|b: Vector| #[trigger]
        kicked(k, before.velocity, before.acceleration, b) && drifted(
            k,
            before.position,
            b,
            other.position,
        ) && kicked(k, b, other.acceleration, other.velocity);
    lemma_nudged_determined(k, before.velocity.x, before.acceleration.x, HALF_TIME_STEP, a.x, b.x);
    lemma_nudged_determined(k, before.velocity.y, before.acceleration.y, HALF_TIME_STEP, a.y, b.y);
    lemma_nudged_determined(k, before.position.x, a.x, TIME_STEP, one.position.x, other.position.x);
    lemma_nudged_determined(k, before.position.y, a.y, TIME_STEP, one.position.y, other.position.y);
}

proof fn lemma_second_kick_determined<K: Arithmetic>(k: &K, before: Body, one: Body, other: Body)
    requires
        deterministic(k),
        moved(k, before, one),
        moved(k, before, other),
        one.acceleration == other.acceleration,
    ensures
        one.velocity == other.velocity,
{
    let a = choose|a: Vector| #[trigger]
        kicked(k, before.velocity, before.acceleration, a) && drifted(
            k,
            before.position,
            a,
            one.position,
        ) && kicked(k, a, one.acceleration, one.velocity);
    let b = choose|b: Vector| #[trigger]
        kicked(k, before.velocity, before.acceleration, b) && drifted(
            k,
            before.position,
            b,
            other.position,
        ) && kicked(k, b, other.acceleration, other.velocity);
    lemma_nudged_determined(k, before.velocity.x, before.acceleration.x, HALF_TIME_STEP, a.x, b.x);
    lemma_nudged_determined(k, before.velocity.y, before.acceleration.y, HALF_TIME_STEP, a.y, b.y);
    lemma_nudged_determined(k, a.x, one.acceleration.x, HALF_TIME_STEP, one.velocity.x, other.velocity.x);
    lemma_nudged_determined(k, a.y, one.acceleration.y, HALF_TIME_STEP, one.velocity.y, other.velocity.y);
}

/// Determinism: with an arithmetic that answers in one way only, taking
/// `count` steps from one state twice gives the same state twice, bit for
/// bit.
pub proof fn lemma_steps_determined<K: Arithmetic>(
    k: &K,
    first: State,
    one: State,
    other: State,
    count: nat,
)
    requires
        deterministic(k),
        advanced_by(k, first, one, count),
        advanced_by(k, first, other, count),
    ensures
        one == other,
    decreases count,
{
    if count > 0 {
        let a = choose|a: State| #[trigger]
            advanced(k, a, one) && advanced_by(k, first, a, (count - 1) as nat);
        let b = choose|b: State| #[trigger]
            advanced(k, b, other) && advanced_by(k, first, b, (count - 1) as nat);
        lemma_steps_determined(k, first, a, b, (count - 1) as nat);
        lemma_step_determined(k, a, one, other);
    }
}

/// A body that does not accelerate and that has no other body within the
/// cutoff after the drift moves in a straight line at constant velocity:
/// where a kick by zero leaves its velocity as it is, the step leaves it
/// with the same velocity, still not accelerating, at its old position
/// drifted by that velocity.
pub proof fn lemma_isolated_body_coasts<K: Arithmetic>(k: &K, before: State, after: State, i: int)
    requires
        advanced(k, before, after),
        0 <= i < before.bodies.len(),
        before.bodies[i].acceleration == Vector::zero(),
        forall|out: Vector|
            kicked(k, before.bodies[i].velocity, Vector::zero(), out) ==> out
                == before.bodies[i].velocity,
        forall|j: int, s: Separation|
            0 <= j < after.bodies.len() && j != i && #[trigger] separated(
                k,
                after.bodies[i].position,
                after.bodies[j].position,
                s,
            ) ==> !within_reach(s),
    ensures
        after.bodies[i].acceleration == Vector::zero(),
        after.bodies[i].velocity == before.bodies[i].velocity,
        drifted(k, before.bodies[i].position, before.bodies[i].velocity, after.bodies[i].position),
{
    let positions = positions_of(after.bodies);
    let masses = masses_of(after.bodies);
    assert(pulled(k, positions, masses, i, after.bodies.len(), after.bodies[i].acceleration));
    assert forall|j: int, s: Separation|
        0 <= j < after.bodies.len() && j != i && #[trigger] separated(
            k,
            positions[i],
            positions[j],
            s,
        ) implies !within_reach(s) by {
        assert(separated(k, after.bodies[i].position, after.bodies[j].position, s));
    }
    lemma_isolated_body_feels_nothing(
        k,
        positions,
        masses,
        i,
        after.bodies.len(),
        after.bodies[i].acceleration,
    );
    assert(moved(k, before.bodies[i], after.bodies[i]));
}

} // verus!
