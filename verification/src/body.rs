//! Points in the plane and the bodies that move in it.

use vstd::prelude::*;
use crate::single::{Single, ZERO};

verus! {

/// A pair of single-precision components: a position, a velocity or an
/// acceleration.
#[derive(Clone, Copy, PartialEq, Eq, Structural, Debug)]
pub struct Vector {
    pub x: Single,
    pub y: Single,
}

impl Vector {
    pub open spec fn spec_zero() -> Vector {
        Vector { x: ZERO, y: ZERO }
    }

    /// The vector whose components are both positive zero.
    #[verifier::when_used_as_spec(spec_zero)]
    pub fn zero() -> (v: Vector)
        ensures
            v == Vector::spec_zero(),
    {
        Vector { x: ZERO, y: ZERO }
    }
}

/// One point mass.
#[derive(Clone, Copy, PartialEq, Eq, Structural, Debug)]
pub struct Body {
    pub mass: Single,
    pub position: Vector,
    pub velocity: Vector,
    pub acceleration: Vector,
}

impl Body {
    pub open spec fn spec_at_rest(mass: Single, position: Vector) -> Body {
        Body { mass, position, velocity: Vector::zero(), acceleration: Vector::zero() }
    }

    /// A body that neither moves nor accelerates.
    #[verifier::when_used_as_spec(spec_at_rest)]
    pub fn at_rest(mass: Single, position: Vector) -> (body: Body)
        ensures
            body == Body::spec_at_rest(mass, position),
    {
        Body { mass, position, velocity: Vector::zero(), acceleration: Vector::zero() }
    }
}

/// The positions of `bodies`, in their order.
pub open spec fn positions_of(bodies: Seq<Body>) -> Seq<Vector> {
    Seq::new(bodies.len(), |i: int| bodies[i].position)
}

/// The masses of `bodies`, in their order.
pub open spec fn masses_of(bodies: Seq<Body>) -> Seq<Single> {
    Seq::new(bodies.len(), |i: int| bodies[i].mass)
}

} // verus!
