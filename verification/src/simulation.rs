//! The simulation state: the bodies, in a fixed order, with the number of
//! steps taken and the two energies measured after the last step.

use vstd::prelude::*;
use crate::body::{Body, Vector};
use crate::double::{Double, ZERO};
use crate::single::{is_positive, positive};

verus! {

/// The seconds of simulated time that one step covers: 2.0E7.
pub const TIME_STEP_SECONDS: u64 = 20_000_000;

/// Why a simulation cannot be set up.
#[derive(Clone, Copy, PartialEq, Eq, Structural, Debug)]
pub enum ConfigError {
    /// There is no body.
    NoBodies,
    /// A range has its lower bound above its upper bound.
    InvertedBounds,
    /// A body's mass is not greater than zero.
    NonPositiveMass,
}

/// What a simulation holds.
pub struct State {
    pub bodies: Seq<Body>,
    pub steps: nat,
    pub kinetic_energy: Double,
    pub potential_energy: Double,
}

/// There is at least one body, and every body's mass is greater than zero.
pub open spec fn populated(bodies: Seq<Body>) -> bool {
    &&& bodies.len() > 0
    &&& forall|i: int| 0 <= i < bodies.len() ==> is_positive(#[trigger] bodies[i].mass)
}

/// The simulated time that has passed in `state`, in seconds.
pub open spec fn elapsed(state: State) -> nat {
    state.steps * TIME_STEP_SECONDS as nat
}

/// The state of a simulation.  The index of a body is its identity: bodies
/// are never added, removed or reordered, and no mass ever changes.
pub struct Simulation {
    bodies: Vec<Body>,
    steps: u64,
    kinetic_energy: Double,
    potential_energy: Double,
}

impl View for Simulation {
    type V = State;

    closed spec fn view(&self) -> State {
        State {
            bodies: self.bodies@,
            steps: self.steps as nat,
            kinetic_energy: self.kinetic_energy,
            potential_energy: self.potential_energy,
        }
    }
}

fn all_positive(bodies: &Vec<Body>) -> (r: bool)
    ensures
        r == (forall|i: int| 0 <= i < bodies.len() ==> is_positive(#[trigger] bodies[i].mass)),
{
    let mut i: usize = 0;
    while i < bodies.len()
        invariant
            i <= bodies.len(),
            forall|t: int| 0 <= t < i ==> is_positive(#[trigger] bodies[t].mass),
        decreases bodies.len() - i,
    {
        if !positive(bodies[i].mass) {
            return false;
        }
        i += 1;
    }
    true
}

impl Simulation {
    /// The invariant of a simulation.
    pub open spec fn wf(&self) -> bool {
        populated(self@.bodies) && self@.steps <= u64::MAX
    }

    /// A simulation of `bodies` in which no step has been taken and no
    /// energy measured; refused unless `bodies` is populated.
    pub fn new(bodies: Vec<Body>) -> (made: Result<Simulation, ConfigError>)
        ensures
            match made {
                Ok(simulation) => {
                    &&& populated(bodies@)
                    &&& simulation.wf()
                    &&& simulation@ == (State {
                        bodies: bodies@,
                        steps: 0,
                        kinetic_energy: ZERO,
                        potential_energy: ZERO,
                    })
                },
                Err(ConfigError::NoBodies) => bodies.len() == 0,
                Err(ConfigError::NonPositiveMass) => bodies.len() > 0 && !populated(bodies@),
                Err(ConfigError::InvertedBounds) => false,
            },
    {
        if bodies.len() == 0 {
            Err(ConfigError::NoBodies)
        } else if !all_positive(&bodies) {
            Err(ConfigError::NonPositiveMass)
        } else {
            Ok(Simulation { bodies, steps: 0, kinetic_energy: ZERO, potential_energy: ZERO })
        }
    }

    /// The number of bodies.
    pub fn len(&self) -> (n: usize)
        ensures
            n == self@.bodies.len(),
    {
        self.bodies.len()
    }

    /// The bodies, in their order.
    pub fn bodies(&self) -> (bodies: &Vec<Body>)
        ensures
            bodies@ == self@.bodies,
    {
        &self.bodies
    }

    /// Body `i`.
    pub fn body(&self, i: usize) -> (body: Body)
        requires
            i < self@.bodies.len(),
        ensures
            body == self@.bodies[i as int],
    {
        self.bodies[i]
    }

    /// The number of steps taken.
    pub fn steps(&self) -> (steps: u64)
        ensures
            steps == self@.steps,
    {
        self.steps
    }

    /// The simulated time that has passed, in seconds.
    pub fn elapsed_seconds(&self) -> (seconds: u128)
        ensures
            seconds == elapsed(self@),
    {
        assert(self.steps as nat * TIME_STEP_SECONDS as nat <= u64::MAX * TIME_STEP_SECONDS)
            by (nonlinear_arith)
            requires
                self.steps as nat <= u64::MAX,
        ;
        self.steps as u128 * TIME_STEP_SECONDS as u128
    }

    /// The kinetic energy measured after the last step; zero before the
    /// first.
    pub fn kinetic_energy(&self) -> (energy: Double)
        ensures
            energy == self@.kinetic_energy,
    {
        self.kinetic_energy
    }

    /// The potential energy measured after the last step; zero before the
    /// first.
    pub fn potential_energy(&self) -> (energy: Double)
        ensures
            energy == self@.potential_energy,
    {
        self.potential_energy
    }

    /// Puts body `i` at `position`.
    pub fn set_position(&mut self, i: usize, position: Vector)
        requires
            i < old(self)@.bodies.len(),
        ensures
            final(self)@ == (State {
                bodies: old(self)@.bodies.update(
                    i as int,
                    Body { position, ..old(self)@.bodies[i as int] },
                ),
                ..old(self)@
            }),
            old(self).wf() ==> final(self).wf(),
    {
        let body = self.bodies[i];
        self.bodies[i] = Body { position, ..body };
    }

    /// Gives body `i` the velocity `velocity`.
    pub fn set_velocity(&mut self, i: usize, velocity: Vector)
        requires
            i < old(self)@.bodies.len(),
        ensures
            final(self)@ == (State {
                bodies: old(self)@.bodies.update(
                    i as int,
                    Body { velocity, ..old(self)@.bodies[i as int] },
                ),
                ..old(self)@
            }),
            old(self).wf() ==> final(self).wf(),
    {
        let body = self.bodies[i];
        self.bodies[i] = Body { velocity, ..body };
    }

    /// Gives body `i` the acceleration `acceleration`.
    pub fn set_acceleration(&mut self, i: usize, acceleration: Vector)
        requires
            i < old(self)@.bodies.len(),
        ensures
            final(self)@ == (State {
                bodies: old(self)@.bodies.update(
                    i as int,
                    Body { acceleration, ..old(self)@.bodies[i as int] },
                ),
                ..old(self)@
            }),
            old(self).wf() ==> final(self).wf(),
    {
        let body = self.bodies[i];
        self.bodies[i] = Body { acceleration, ..body };
    }

    /// Replaces every body at once, counts one more step and records the
    /// energies.
    pub(crate) fn commit(&mut self, bodies: Vec<Body>, kinetic_energy: Double, potential_energy: Double)
        requires
            old(self)@.steps < u64::MAX,
        ensures
            final(self)@ == (State {
                bodies: bodies@,
                steps: old(self)@.steps + 1,
                kinetic_energy,
                potential_energy,
            }),
    {
        self.bodies = bodies;
        self.steps = self.steps + 1;
        self.kinetic_energy = kinetic_energy;
        self.potential_energy = potential_energy;
    }
}

} // verus!
