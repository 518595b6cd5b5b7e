use leapfrog::arithmetic::Arithmetic;
use leapfrog::body::{Body, Vector};
use leapfrog::integrator::{drift, kick, step};
use leapfrog::simulation::{ConfigError, Simulation, TIME_STEP_SECONDS};

struct Ieee;

impl Arithmetic for Ieee {
    fn plus(&self, a: u32, b: u32) -> u32 {
        (f32::from_bits(a) + f32::from_bits(b)).to_bits()
    }

    fn minus(&self, a: u32, b: u32) -> u32 {
        (f32::from_bits(a) - f32::from_bits(b)).to_bits()
    }

    fn times(&self, a: u32, b: u32) -> u32 {
        (f32::from_bits(a) * f32::from_bits(b)).to_bits()
    }

    fn over(&self, a: u32, b: u32) -> u32 {
        (f32::from_bits(a) / f32::from_bits(b)).to_bits()
    }

    fn root(&self, a: u32) -> u32 {
        f32::from_bits(a).sqrt().to_bits()
    }

    fn widen(&self, a: u32) -> u64 {
        (f32::from_bits(a) as f64).to_bits()
    }

    fn plus_wide(&self, a: u64, b: u64) -> u64 {
        (f64::from_bits(a) + f64::from_bits(b)).to_bits()
    }

    fn times_wide(&self, a: u64, b: u64) -> u64 {
        (f64::from_bits(a) * f64::from_bits(b)).to_bits()
    }

    fn over_wide(&self, a: u64, b: u64) -> u64 {
        (f64::from_bits(a) / f64::from_bits(b)).to_bits()
    }

    fn root_wide(&self, a: u64) -> u64 {
        f64::from_bits(a).sqrt().to_bits()
    }
}

const G: f32 = 6.67E-11;
const DT: f32 = 2.0E07;
const DT_HALF: f32 = 1.0E07;
const LIGHT_YEAR: f32 = 9.46E15;

/// One body as the plain loops over `f32` hold it.
#[derive(Clone, Copy, Debug, PartialEq)]
struct Plain {
    mass: f32,
    x: f32,
    y: f32,
    vx: f32,
    vy: f32,
    ax: f32,
    ay: f32,
}

fn plain(mass: f32, x: f32, y: f32, vx: f32, vy: f32) -> Plain {
    Plain { mass, x, y, vx, vy, ax: 0.0, ay: 0.0 }
}

fn to_body(p: &Plain) -> Body {
    Body {
        mass: p.mass.to_bits(),
        position: Vector { x: p.x.to_bits(), y: p.y.to_bits() },
        velocity: Vector { x: p.vx.to_bits(), y: p.vy.to_bits() },
        acceleration: Vector { x: p.ax.to_bits(), y: p.ay.to_bits() },
    }
}

fn simulation(bodies: &[Plain]) -> Simulation {
    Simulation::new(bodies.iter().map(to_body).collect()).unwrap()
}

/// One kick-drift-kick step with its energies, written out over `f32`.
fn plain_step(bodies: &mut Vec<Plain>) -> (f64, f64) {
    let n = bodies.len();
    let mut half = vec![(0.0f32, 0.0f32); n];
    let mut new = vec![(0.0f32, 0.0f32); n];
    let mut acc = vec![(0.0f32, 0.0f32); n];
    for i in 0..n {
        half[i] = (bodies[i].vx + bodies[i].ax * DT_HALF, bodies[i].vy + bodies[i].ay * DT_HALF);
    }
    for i in 0..n {
        new[i] = (bodies[i].x + half[i].0 * DT, bodies[i].y + half[i].1 * DT);
    }
    for i in 0..n {
        for j in 0..n {
            if i == j {
                continue;
            }
            let dx = new[j].0 - new[i].0;
            let dy = new[j].1 - new[i].1;
            let r2 = dx * dx + dy * dy;
            let r = r2.sqrt();
            if r > LIGHT_YEAR {
                continue;
            }
            let a_mag = G * bodies[j].mass / r2;
            acc[i].0 += a_mag * dx / r;
            acc[i].1 += a_mag * dy / r;
        }
    }
    for i in 0..n {
        bodies[i].x = new[i].0;
        bodies[i].y = new[i].1;
        bodies[i].vx = half[i].0 + acc[i].0 * DT_HALF;
        bodies[i].vy = half[i].1 + acc[i].1 * DT_HALF;
        bodies[i].ax = acc[i].0;
        bodies[i].ay = acc[i].1;
    }
    let mut ke = 0.0f64;
    for b in bodies.iter() {
        let v2 = (b.vx * b.vx + b.vy * b.vy) as f64;
        ke += 0.5 * b.mass as f64 * v2;
    }
    let mut pe = 0.0f64;
    for i in 0..n {
        for j in (i + 1)..n {
            let dx = (bodies[j].x - bodies[i].x) as f64;
            let dy = (bodies[j].y - bodies[i].y) as f64;
            let r = (dx * dx + dy * dy).sqrt();
            if r == 0.0 {
                continue;
            }
            pe += -1.0 * G as f64 * bodies[i].mass as f64 * bodies[j].mass as f64 / r;
        }
    }
    (ke, pe)
}

fn scattered(n: usize) -> Vec<Plain> {
    let mut seed: u32 = 12345;
    let mut unit = move || {
        seed = seed.wrapping_mul(1664525).wrapping_add(1013904223);
        (seed >> 8) as f32 / 16777216.0
    };
    let mut bodies = Vec::new();
    for _ in 0..n {
        let mass = unit() * (9.0E29 - 1.0E15) + 1.0E15;
        let x = unit() * 1.0E15 - 5.0E14;
        let y = unit() * 1.0E15 - 5.0E14;
        let vx = unit() * 8.0E3 + 1.0E3;
        let vy = -(unit() * 8.0E3 + 1.0E3);
        bodies.push(plain(mass, x, y, vx, vy));
    }
    bodies
}

fn two_bodies() -> Vec<Plain> {
    vec![plain(1.0E27, 0.0, 0.0, 0.0, 0.0), plain(1.0E27, 1.0E13, 0.0, 0.0, 0.0)]
}

fn total_energy(s: &Simulation) -> f64 {
    f64::from_bits(s.kinetic_energy()) + f64::from_bits(s.potential_energy())
}

#[test]
fn kick_adds_half_a_step_of_acceleration() {
    let v = kick(
        &Ieee,
        Vector { x: 3.0f32.to_bits(), y: (-4.0f32).to_bits() },
        Vector { x: 2.0E-7f32.to_bits(), y: 0 },
    );
    assert_eq!(f32::from_bits(v.x), 3.0 + 2.0E-7 * DT_HALF);
    assert_eq!(f32::from_bits(v.x), 5.0);
    assert_eq!(f32::from_bits(v.y), -4.0);
}

#[test]
fn drift_adds_a_whole_step_of_velocity() {
    let p = drift(
        &Ieee,
        Vector { x: 1.0E8f32.to_bits(), y: 0 },
        Vector { x: 5.0f32.to_bits(), y: (-1.0f32).to_bits() },
    );
    assert_eq!(f32::from_bits(p.x), 2.0E8);
    assert_eq!(f32::from_bits(p.y), -2.0E7);
}

#[test]
fn first_step_of_two_bodies_at_rest() {
    let mut s = simulation(&two_bodies());
    step(&Ieee, &mut s);
    let a = s.body(0);
    let b = s.body(1);
    assert_eq!(f32::from_bits(a.position.x), 0.0);
    assert_eq!(f32::from_bits(b.position.x), 9999999827968.0);
    assert_eq!(f32::from_bits(a.velocity.x), 0.006670000497251749);
    assert_eq!(f32::from_bits(b.velocity.x), -0.006670000497251749);
    assert_eq!(f32::from_bits(a.acceleration.x), G * 1.0E27 / (1.0E13f32 * 1.0E13) * 1.0E13 / 1.0E13);
    assert_eq!(f32::from_bits(a.velocity.y), 0.0);
    assert_eq!(f64::from_bits(s.kinetic_energy()), 4.44889078032157e22);
    assert_eq!(f64::from_bits(s.potential_energy()), -6.669999930135155e30);
    assert_eq!(s.steps(), 1);
}

#[test]
fn the_drift_uses_the_velocity_at_mid_step() {
    let mut start = two_bodies();
    start[0].ax = 1.0E-3;
    start[0].vx = 2.0;
    let mut s = simulation(&start);
    step(&Ieee, &mut s);
    let half = 2.0f32 + 1.0E-3 * DT_HALF;
    assert_eq!(f32::from_bits(s.body(0).position.x), 0.0 + half * DT);
    assert_ne!(f32::from_bits(s.body(0).position.x), 2.0 * DT);
}

#[test]
fn forces_are_taken_at_the_drifted_positions_of_all_bodies() {
    let mut bodies = vec![plain(1.0E27, 0.0, 0.0, 1.0E4, 0.0), plain(1.0E27, 1.0E13, 0.0, -1.0E4, 0.0)];
    let mut s = simulation(&bodies);
    step(&Ieee, &mut s);
    plain_step(&mut bodies);
    let gap = bodies[1].x - bodies[0].x;
    assert_eq!(gap, 1.0E13f32 - 2.0E11 - 2.0E11);
    assert_eq!(f32::from_bits(s.body(0).acceleration.x), G * 1.0E27 / (gap * gap) * gap / gap);
    assert_ne!(f32::from_bits(s.body(0).acceleration.x), G * 1.0E27 / (1.0E13f32 * 1.0E13));
}

#[test]
fn steps_agree_with_the_plain_loops_bit_for_bit() {
    for n in [1usize, 2, 3, 7, 20] {
        let mut want = scattered(n);
        let mut s = simulation(&want);
        for k in 0..25u64 {
            let (ke, pe) = plain_step(&mut want);
            step(&Ieee, &mut s);
            assert_eq!(s.len(), n);
            for i in 0..n {
                assert_eq!(s.body(i), to_body(&want[i]), "body {i} of {n} after step {k}");
            }
            assert_eq!(s.kinetic_energy(), ke.to_bits());
            assert_eq!(s.potential_energy(), pe.to_bits());
        }
    }
}

#[test]
fn two_body_energy_is_conserved() {
    let mut s = simulation(&two_bodies());
    step(&Ieee, &mut s);
    let first = total_energy(&s);
    for _ in 1..300 {
        step(&Ieee, &mut s);
    }
    let later = total_energy(&s);
    assert!(((later - first) / first).abs() < 0.01);
    assert!(((later - first) / first).abs() < 1.0E-5);
}

#[test]
fn two_body_energy_is_conserved_while_the_bodies_fall() {
    let mut s = simulation(&two_bodies());
    step(&Ieee, &mut s);
    let first = total_energy(&s);
    let mut worst = 0.0f64;
    for _ in 1..1200 {
        step(&Ieee, &mut s);
        worst = worst.max(((total_energy(&s) - first) / first).abs());
    }
    assert!(f64::from_bits(s.kinetic_energy()) > 0.03 * first.abs());
    assert!(worst < 1.0E-5);
}

#[test]
fn elapsed_time_is_steps_times_the_time_step() {
    let mut s = simulation(&two_bodies());
    assert_eq!(s.steps(), 0);
    assert_eq!(s.elapsed_seconds(), 0);
    for k in 1..=1000u64 {
        step(&Ieee, &mut s);
        assert_eq!(s.steps(), k);
        assert_eq!(s.elapsed_seconds(), k as u128 * 20_000_000);
    }
    assert_eq!(TIME_STEP_SECONDS, 20_000_000);
    assert_eq!(s.elapsed_seconds(), 20_000_000_000);
}

#[test]
fn elapsed_time_stays_exact_where_single_precision_would_drift() {
    let mut s = simulation(&[plain(1.0E27, 0.0, 0.0, 0.0, 0.0)]);
    let mut drifting = 0.0f32;
    for _ in 0..3000 {
        step(&Ieee, &mut s);
        drifting += DT;
    }
    assert_eq!(s.elapsed_seconds(), 60_000_000_000);
    assert_ne!(drifting as f64, 6.0E10);
}

#[test]
fn an_isolated_body_moves_in_a_straight_line_at_constant_velocity() {
    let start = vec![
        plain(1.0E27, 0.0, 0.0, 0.0, 0.0),
        plain(1.0E27, 1.0E13, 0.0, 0.0, 0.0),
        plain(5.0E29, 4.0E16, 4.0E16, 2.5E3, -1.5E3),
    ];
    let mut s = simulation(&start);
    let mut x = 4.0E16f32;
    let mut y = 4.0E16f32;
    for _ in 0..200 {
        step(&Ieee, &mut s);
        x += 2.5E3 * DT;
        y += -1.5E3 * DT;
        let b = s.body(2);
        assert_eq!(b.acceleration, Vector::zero());
        assert_eq!(f32::from_bits(b.velocity.x), 2.5E3);
        assert_eq!(f32::from_bits(b.velocity.y), -1.5E3);
        assert_eq!(f32::from_bits(b.position.x), x);
        assert_eq!(f32::from_bits(b.position.y), y);
    }
    assert_ne!(s.body(0).acceleration, Vector::zero());
}

#[test]
fn a_single_body_coasts() {
    let mut s = simulation(&[plain(3.0E20, 1.0E3, -2.0E3, 7.0, 9.0)]);
    for _ in 0..10 {
        step(&Ieee, &mut s);
    }
    let b = s.body(0);
    assert_eq!(f32::from_bits(b.velocity.x), 7.0);
    assert_eq!(f32::from_bits(b.velocity.y), 9.0);
    assert_eq!(f32::from_bits(b.position.x), 1.0E3 + 10.0 * 7.0 * DT);
    assert_eq!(s.potential_energy(), 0);
    assert_eq!(f64::from_bits(s.kinetic_energy()), 0.5 * 3.0E20f32 as f64 * 130.0);
}

#[test]
fn stepping_twice_from_one_snapshot_gives_identical_states() {
    let start = scattered(12);
    let mut one = simulation(&start);
    let mut other = simulation(&start);
    for _ in 0..40 {
        step(&Ieee, &mut one);
    }
    for _ in 0..40 {
        step(&Ieee, &mut other);
    }
    assert_eq!(one.bodies(), other.bodies());
    assert_eq!(one.kinetic_energy(), other.kinetic_energy());
    assert_eq!(one.potential_energy(), other.potential_energy());
    assert_eq!(one.steps(), other.steps());
}

#[test]
fn a_step_keeps_the_bodies_and_their_masses() {
    let start = scattered(9);
    let mut s = simulation(&start);
    for _ in 0..5 {
        step(&Ieee, &mut s);
        assert_eq!(s.len(), 9);
        for i in 0..9 {
            assert_eq!(s.body(i).mass, start[i].mass.to_bits());
        }
    }
}

#[test]
fn the_committed_acceleration_belongs_to_the_committed_positions() {
    let mut s = simulation(&scattered(6));
    for _ in 0..3 {
        step(&Ieee, &mut s);
    }
    let positions: Vec<Vector> = s.bodies().iter().map(|b| b.position).collect();
    let masses: Vec<u32> = s.bodies().iter().map(|b| b.mass).collect();
    let accelerations = leapfrog::force::evaluate(&Ieee, &positions, &masses);
    for i in 0..6 {
        assert_eq!(s.body(i).acceleration, accelerations[i]);
    }
}

#[test]
fn coincident_bodies_spoil_the_state_silently() {
    let mut s = simulation(&[plain(1.0E27, 1.0, 1.0, 0.0, 0.0), plain(1.0E27, 1.0, 1.0, 0.0, 0.0)]);
    step(&Ieee, &mut s);
    assert!(f32::from_bits(s.body(0).acceleration.x).is_nan());
    assert!(f32::from_bits(s.body(0).velocity.x).is_nan());
    assert_eq!(s.steps(), 1);
    step(&Ieee, &mut s);
    assert!(f32::from_bits(s.body(0).position.x).is_nan());
}

#[test]
fn a_simulation_needs_a_body() {
    assert_eq!(Simulation::new(vec![]).err(), Some(ConfigError::NoBodies));
}

#[test]
fn a_simulation_needs_positive_masses() {
    for m in [0.0f32, -0.0, -1.0E27, f32::NAN] {
        let bodies = vec![to_body(&plain(1.0E27, 0.0, 0.0, 0.0, 0.0)), to_body(&plain(m, 1.0, 0.0, 0.0, 0.0))];
        assert_eq!(Simulation::new(bodies).err(), Some(ConfigError::NonPositiveMass));
    }
}

#[test]
fn a_new_simulation_has_taken_no_step() {
    let start = scattered(4);
    let s = simulation(&start);
    assert_eq!(s.len(), 4);
    assert_eq!(s.steps(), 0);
    assert_eq!(s.elapsed_seconds(), 0);
    assert_eq!(s.kinetic_energy(), 0);
    assert_eq!(s.potential_energy(), 0);
    for i in 0..4 {
        assert_eq!(s.body(i), to_body(&start[i]));
    }
}

#[test]
fn a_body_at_rest_neither_moves_nor_accelerates() {
    let b = Body::at_rest(1.0E27f32.to_bits(), Vector { x: 1, y: 2 });
    assert_eq!(b.mass, 1.0E27f32.to_bits());
    assert_eq!(b.position, Vector { x: 1, y: 2 });
    assert_eq!(b.velocity, Vector { x: 0, y: 0 });
    assert_eq!(b.acceleration, Vector::zero());
}
