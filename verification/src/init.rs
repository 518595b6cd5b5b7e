//! The initializer: bodies scattered over given ranges by given draws.
//!
//! The draws come from the caller, as numbers of the unit interval.  Each
//! body takes seven of them: one each for its mass, its two coordinates and
//! its two speeds, and one for the sign of each speed.

use vstd::prelude::*;
use crate::arithmetic::{Arithmetic, difference, product, sum};
use crate::body::{Body, Vector};
use crate::double::ZERO;
use crate::simulation::{ConfigError, Simulation, populated};
use crate::single::{HALF, Single, exceeds, greater, less, negate, negation};

verus! {

/// The least mass, 1.0E15.
pub const MIN_MASS: Single = 0x5863_5FA9;

/// The greatest mass, 9.0E29.
pub const MAX_MASS: Single = 0x7135_C0E9;

/// The least abscissa, -5.0E14.
pub const MIN_X: Single = 0xD7E3_5FA9;

/// The greatest abscissa, 5.0E14.
pub const MAX_X: Single = 0x57E3_5FA9;

/// The least ordinate, -5.0E14.
pub const MIN_Y: Single = 0xD7E3_5FA9;

/// The greatest ordinate, 5.0E14.
pub const MAX_Y: Single = 0x57E3_5FA9;

/// The least speed along an axis, 1.0E3.
pub const MIN_V: Single = 0x447A_0000;

/// The greatest speed along an axis, 9.0E3.
pub const MAX_V: Single = 0x460C_A000;

/// The two ends of a range.
#[derive(Clone, Copy, PartialEq, Eq, Structural, Debug)]
pub struct Range {
    pub min: Single,
    pub max: Single,
}

/// The ranges over which bodies are scattered.
#[derive(Clone, Copy, PartialEq, Eq, Structural, Debug)]
pub struct Bounds {
    pub mass: Range,
    pub x: Range,
    pub y: Range,
    pub speed: Range,
}

/// The draws that make one body, each a number of the unit interval.
#[derive(Clone, Copy, PartialEq, Eq, Structural, Debug)]
pub struct Draws {
    pub mass: Single,
    pub x: Single,
    pub y: Single,
    pub vx: Single,
    pub vx_sign: Single,
    pub vy: Single,
    pub vy_sign: Single,
}

/// The lower end lies above the upper end.
pub open spec fn inverted(range: Range) -> bool {
    exceeds(range.min, range.max)
}

/// No range is inverted.
pub open spec fn valid(bounds: Bounds) -> bool {
    !inverted(bounds.mass) && !inverted(bounds.x) && !inverted(bounds.y) && !inverted(bounds.speed)
}

impl Bounds {
    pub open spec fn spec_standard() -> Bounds {
        Bounds {
            mass: Range { min: MIN_MASS, max: MAX_MASS },
            x: Range { min: MIN_X, max: MAX_X },
            y: Range { min: MIN_Y, max: MAX_Y },
            speed: Range { min: MIN_V, max: MAX_V },
        }
    }

    /// The ranges of the standard simulation.
    #[verifier::when_used_as_spec(spec_standard)]
    pub fn standard() -> (bounds: Bounds)
        ensures
            bounds == Bounds::spec_standard(),
            valid(bounds),
    {
        Bounds {
            mass: Range { min: MIN_MASS, max: MAX_MASS },
            x: Range { min: MIN_X, max: MAX_X },
            y: Range { min: MIN_Y, max: MAX_Y },
            speed: Range { min: MIN_V, max: MAX_V },
        }
    }

    /// Decides whether no range is inverted.
    pub fn is_valid(&self) -> (r: bool)
        ensures
            r == valid(*self),
    {
        !greater(self.mass.min, self.mass.max) && !greater(self.x.min, self.x.max) && !greater(
            self.y.min,
            self.y.max,
        ) && !greater(self.speed.min, self.speed.max)
    }
}

/// `out` is `draw * (max - min) + min`: the draw spread over the range.
pub open spec fn spread<K: Arithmetic>(k: &K, range: Range, draw: Single, out: Single) -> bool {
    exists|span: Single, scaled: Single|
        #![trigger difference(k, range.max, range.min, span), product(k, draw, span, scaled)]
        difference(k, range.max, range.min, span) && product(k, draw, span, scaled) && sum(
            k,
            scaled,
            range.min,
            out,
        )
}

/// `speed` under the sign that `sign` draws: negated where `sign < 0.5`.
pub open spec fn signed(speed: Single, sign: Single) -> Single {
    if exceeds(HALF, sign) {
        negation(speed)
    } else {
        speed
    }
}

/// `out` is `draw` spread over the range, under the sign that `sign` draws.
pub open spec fn spread_signed<K: Arithmetic>(
    k: &K,
    range: Range,
    draw: Single,
    sign: Single,
    out: Single,
) -> bool {
    exists|speed: Single| #[trigger] spread(k, range, draw, speed) && out == signed(speed, sign)
}

/// `body` is the body that `draws` make within `bounds`: it does not
/// accelerate yet.
pub open spec fn spawned<K: Arithmetic>(k: &K, bounds: Bounds, draws: Draws, body: Body) -> bool {
    &&& spread(k, bounds.mass, draws.mass, body.mass)
    &&& spread(k, bounds.x, draws.x, body.position.x)
    &&& spread(k, bounds.y, draws.y, body.position.y)
    &&& spread_signed(k, bounds.speed, draws.vx, draws.vx_sign, body.velocity.x)
    &&& spread_signed(k, bounds.speed, draws.vy, draws.vy_sign, body.velocity.y)
    &&& body.acceleration == Vector::zero()
}

/// `bodies` are the bodies that `draws` make within `bounds`, one for one.
pub open spec fn scattered<K: Arithmetic>(
    k: &K,
    bounds: Bounds,
    draws: Seq<Draws>,
    bodies: Seq<Body>,
) -> bool {
    &&& bodies.len() == draws.len()
    &&& forall|i: int| 0 <= i < draws.len() ==> spawned(k, bounds, draws[i], #[trigger] bodies[i])
}

/// Spreads `draw` over `range`.
pub fn spread_over<K: Arithmetic>(k: &K, range: &Range, draw: Single) -> (out: Single)
    ensures
        spread(k, *range, draw, out),
{
    let span = k.minus(range.max, range.min);
    let scaled = k.times(draw, span);
    assert(difference(k, range.max, range.min, span) && product(k, draw, span, scaled));
    k.plus(scaled, range.min)
}

/// Puts `speed` under the sign that `sign` draws.
pub fn with_sign(speed: Single, sign: Single) -> (out: Single)
    ensures
        out == signed(speed, sign),
{
    if less(sign, HALF) {
        negate(speed)
    } else {
        speed
    }
}

/// Makes the body that `draws` describe within `bounds`.
pub fn spawn<K: Arithmetic>(k: &K, bounds: &Bounds, draws: &Draws) -> (body: Body)
    ensures
        spawned(k, *bounds, *draws, body),
{
    let mass = spread_over(k, &bounds.mass, draws.mass);
    let x = spread_over(k, &bounds.x, draws.x);
    let y = spread_over(k, &bounds.y, draws.y);
    let speed_x = spread_over(k, &bounds.speed, draws.vx);
    let vx = with_sign(speed_x, draws.vx_sign);
    let speed_y = spread_over(k, &bounds.speed, draws.vy);
    let vy = with_sign(speed_y, draws.vy_sign);
    assert(spread(k, bounds.speed, draws.vx, speed_x));
    assert(spread(k, bounds.speed, draws.vy, speed_y));
    Body {
        mass,
        position: Vector { x, y },
        velocity: Vector { x: vx, y: vy },
        acceleration: Vector::zero(),
    }
}

/// The initializer: one body for each entry of `draws`, within `bounds`; no
/// step taken, no energy measured.  Refused if there is no body, if a range
/// is inverted, or if a mass comes out not greater than zero.
pub fn initialize<K: Arithmetic>(k: &K, bounds: &Bounds, draws: &Vec<Draws>) -> (made: Result<
    Simulation,
    ConfigError,
>)
    ensures
        match made {
            Ok(simulation) => {
                &&& draws.len() > 0
                &&& valid(*bounds)
                &&& simulation.wf()
                &&& scattered(k, *bounds, draws@, simulation@.bodies)
                &&& simulation@.steps == 0
                &&& simulation@.kinetic_energy == ZERO
                &&& simulation@.potential_energy == ZERO
            },
            Err(ConfigError::NoBodies) => draws.len() == 0,
            Err(ConfigError::InvertedBounds) => draws.len() > 0 && !valid(*bounds),
            Err(ConfigError::NonPositiveMass) => {
                &&& draws.len() > 0
                &&& valid(*bounds)
                &&& exists|bodies: Seq<Body>| #[trigger]
                    scattered(k, *bounds, draws@, bodies) && !populated(bodies)
            },
        },
{
    let n = draws.len();
    if n == 0 {
        return Err(ConfigError::NoBodies);
    }
    if !bounds.is_valid() {
        return Err(ConfigError::InvertedBounds);
    }
    let mut bodies: Vec<Body> = Vec::new();
    let mut i: usize = 0;
    while i < n
        invariant
            n == draws.len(),
            i <= n,
            bodies.len() == i,
            forall|t: int| 0 <= t < i ==> spawned(k, *bounds, draws[t], #[trigger] bodies[t]),
        decreases n - i,
    {
        bodies.push(spawn(k, bounds, &draws[i]));
        i += 1;
    }
    assert(scattered(k, *bounds, draws@, bodies@));
    Simulation::new(bodies)
}

} // verus!
