use leapfrog::arithmetic::Arithmetic;
use leapfrog::body::{Body, Vector};
use leapfrog::init::{initialize, spawn, spread_over, with_sign, Bounds, Draws, Range};
use leapfrog::simulation::{ConfigError, Simulation};

struct Ieee;

impl Arithmetic for Ieee {
    fn plus(&self, a: u32, b: u32) -> u32 {
        (f32::from_bits(a) + f32::from_bits(b)).to_bits()
    }

    fn minus(&self, a: u32, b: u32) -> u32 {
        (f32::from_bits(a) - f32::from_bits(b)).to_bits()
    }

    fn times(&self, a: u32, b: u32) -> u32 {
        (f32::from_bits(a) * f32::from_bits(b)).to_bits()
    }

    fn over(&self, a: u32, b: u32) -> u32 {
        (f32::from_bits(a) / f32::from_bits(b)).to_bits()
    }

    fn root(&self, a: u32) -> u32 {
        f32::from_bits(a).sqrt().to_bits()
    }

    fn widen(&self, a: u32) -> u64 {
        (f32::from_bits(a) as f64).to_bits()
    }

    fn plus_wide(&self, a: u64, b: u64) -> u64 {
        (f64::from_bits(a) + f64::from_bits(b)).to_bits()
    }

    fn times_wide(&self, a: u64, b: u64) -> u64 {
        (f64::from_bits(a) * f64::from_bits(b)).to_bits()
    }

    fn over_wide(&self, a: u64, b: u64) -> u64 {
        (f64::from_bits(a) / f64::from_bits(b)).to_bits()
    }

    fn root_wide(&self, a: u64) -> u64 {
        f64::from_bits(a).sqrt().to_bits()
    }
}

fn range(min: f32, max: f32) -> Range {
    Range { min: min.to_bits(), max: max.to_bits() }
}

fn draws(values: [f32; 7]) -> Draws {
    Draws {
        mass: values[0].to_bits(),
        x: values[1].to_bits(),
        y: values[2].to_bits(),
        vx: values[3].to_bits(),
        vx_sign: values[4].to_bits(),
        vy: values[5].to_bits(),
        vy_sign: values[6].to_bits(),
    }
}

fn unit_draws(n: usize) -> Vec<Draws> {
    let mut seed: u32 = 2024;
    let mut unit = move || {
        seed = seed.wrapping_mul(1664525).wrapping_add(1013904223);
        (seed >> 8) as f32 / 16777216.0
    };
    (0..n).map(|_| draws([unit(), unit(), unit(), unit(), unit(), unit(), unit()])).collect()
}

fn value(bits: u32) -> f32 {
    f32::from_bits(bits)
}

#[test]
fn standard_bounds_are_the_standard_ranges() {
    let b = Bounds::standard();
    assert_eq!(b.mass, range(1.0E15, 9.0E29));
    assert_eq!(b.x, range(-5.0E14, 5.0E14));
    assert_eq!(b.y, range(-5.0E14, 5.0E14));
    assert_eq!(b.speed, range(1.0E03, 9.0E03));
    assert!(b.is_valid());
}

#[test]
fn spread_over_scales_the_draw_into_the_range() {
    let r = range(1.0E15, 9.0E29);
    assert_eq!(value(spread_over(&Ieee, &r, 0.0f32.to_bits())), 1.0E15);
    assert_eq!(value(spread_over(&Ieee, &r, 0.25f32.to_bits())), 0.25 * (9.0E29f32 - 1.0E15) + 1.0E15);
    assert_eq!(value(spread_over(&Ieee, &range(-4.0, 4.0), 0.75f32.to_bits())), 2.0);
    assert_eq!(value(spread_over(&Ieee, &range(1.0E3, 9.0E3), 0.5f32.to_bits())), 5.0E3);
}

#[test]
fn a_sign_draw_below_one_half_negates() {
    let speed = 1234.5f32.to_bits();
    assert_eq!(value(with_sign(speed, 0.0f32.to_bits())), -1234.5);
    assert_eq!(value(with_sign(speed, 0.49999997f32.to_bits())), -1234.5);
    assert_eq!(value(with_sign(speed, 0.5f32.to_bits())), 1234.5);
    assert_eq!(value(with_sign(speed, 0.99999994f32.to_bits())), 1234.5);
    assert_eq!(value(with_sign(speed, f32::NAN.to_bits())), 1234.5);
}

#[test]
fn spawn_makes_one_body_from_seven_draws() {
    let b = spawn(&Ieee, &Bounds::standard(), &draws([0.5, 0.25, 0.75, 0.5, 0.25, 0.125, 0.75]));
    assert_eq!(value(b.mass), 0.5 * (9.0E29f32 - 1.0E15) + 1.0E15);
    assert_eq!(value(b.position.x), 0.25 * (5.0E14f32 - -5.0E14) + -5.0E14);
    assert_eq!(value(b.position.y), 0.75 * (5.0E14f32 - -5.0E14) + -5.0E14);
    assert_eq!(value(b.velocity.x), -(0.5 * (9.0E3f32 - 1.0E3) + 1.0E3));
    assert_eq!(value(b.velocity.x), -5.0E3);
    assert_eq!(value(b.velocity.y), 0.125 * (9.0E3f32 - 1.0E3) + 1.0E3);
    assert_eq!(value(b.velocity.y), 2.0E3);
    assert_eq!(b.acceleration, Vector::zero());
}

#[test]
fn initialize_makes_one_body_per_set_of_draws() {
    let d = unit_draws(100);
    let s = initialize(&Ieee, &Bounds::standard(), &d).unwrap();
    assert_eq!(s.len(), 100);
    assert_eq!(s.steps(), 0);
    assert_eq!(s.elapsed_seconds(), 0);
    assert_eq!(s.kinetic_energy(), 0);
    assert_eq!(s.potential_energy(), 0);
    for i in 0..100 {
        let b = s.body(i);
        assert_eq!(b, spawn(&Ieee, &Bounds::standard(), &d[i]));
        assert!(value(b.mass) >= 1.0E15 && value(b.mass) <= 9.0E29);
        assert!(value(b.position.x) >= -5.0E14 && value(b.position.x) <= 5.0E14);
        assert!(value(b.position.y) >= -5.0E14 && value(b.position.y) <= 5.0E14);
        assert!(value(b.velocity.x).abs() >= 1.0E3 && value(b.velocity.x).abs() <= 9.0E3);
        assert!(value(b.velocity.y).abs() >= 1.0E3 && value(b.velocity.y).abs() <= 9.0E3);
        assert_eq!(value(b.velocity.x) < 0.0, value(d[i].vx_sign) < 0.5);
        assert_eq!(value(b.velocity.y) < 0.0, value(d[i].vy_sign) < 0.5);
        assert_eq!(b.acceleration, Vector::zero());
    }
}

#[test]
fn initialize_refuses_an_empty_simulation() {
    assert_eq!(initialize(&Ieee, &Bounds::standard(), &vec![]).err(), Some(ConfigError::NoBodies));
    let mut inverted = Bounds::standard();
    inverted.x = range(1.0, -1.0);
    assert_eq!(initialize(&Ieee, &inverted, &vec![]).err(), Some(ConfigError::NoBodies));
}

#[test]
fn initialize_refuses_inverted_bounds() {
    let d = unit_draws(3);
    let mut b = Bounds::standard();
    b.mass = range(9.0E29, 1.0E15);
    assert_eq!(initialize(&Ieee, &b, &d).err(), Some(ConfigError::InvertedBounds));
    assert!(!b.is_valid());
    let mut b = Bounds::standard();
    b.x = range(5.0E14, -5.0E14);
    assert_eq!(initialize(&Ieee, &b, &d).err(), Some(ConfigError::InvertedBounds));
    let mut b = Bounds::standard();
    b.y = range(1.0, 0.99999994);
    assert_eq!(initialize(&Ieee, &b, &d).err(), Some(ConfigError::InvertedBounds));
    let mut b = Bounds::standard();
    b.speed = range(9.0E3, 1.0E3);
    assert_eq!(initialize(&Ieee, &b, &d).err(), Some(ConfigError::InvertedBounds));
}

#[test]
fn initialize_accepts_a_range_of_one_point() {
    let mut b = Bounds::standard();
    b.x = range(7.0, 7.0);
    b.speed = range(3.0, 3.0);
    let s = initialize(&Ieee, &b, &unit_draws(5)).unwrap();
    for i in 0..5 {
        assert_eq!(value(s.body(i).position.x), 7.0);
        assert_eq!(value(s.body(i).velocity.x).abs(), 3.0);
    }
}

#[test]
fn initialize_refuses_a_mass_that_is_not_positive() {
    let mut b = Bounds::standard();
    b.mass = range(0.0, 1.0E20);
    let mut d = unit_draws(4);
    assert!(initialize(&Ieee, &b, &d).is_ok());
    d[2].mass = 0.0f32.to_bits();
    assert_eq!(initialize(&Ieee, &b, &d).err(), Some(ConfigError::NonPositiveMass));
    b.mass = range(-2.0E20, -1.0E20);
    assert_eq!(initialize(&Ieee, &b, &unit_draws(4)).err(), Some(ConfigError::NonPositiveMass));
}

#[test]
fn the_setters_change_one_field_of_one_body() {
    let d = unit_draws(3);
    let mut s = initialize(&Ieee, &Bounds::standard(), &d).unwrap();
    let before: Vec<Body> = s.bodies().clone();
    let p = Vector { x: 1.0f32.to_bits(), y: 2.0f32.to_bits() };
    let v = Vector { x: 3.0f32.to_bits(), y: 4.0f32.to_bits() };
    let a = Vector { x: 5.0f32.to_bits(), y: 6.0f32.to_bits() };
    s.set_position(1, p);
    assert_eq!(s.body(1), Body { position: p, ..before[1] });
    s.set_velocity(1, v);
    assert_eq!(s.body(1), Body { position: p, velocity: v, ..before[1] });
    s.set_acceleration(1, a);
    assert_eq!(s.body(1), Body { mass: before[1].mass, position: p, velocity: v, acceleration: a });
    assert_eq!(s.body(0), before[0]);
    assert_eq!(s.body(2), before[2]);
    assert_eq!(s.len(), 3);
    assert_eq!(s.steps(), 0);
}

#[test]
fn a_simulation_can_be_built_from_given_bodies() {
    let bodies = vec![
        Body::at_rest(1.0E27f32.to_bits(), Vector::zero()),
        Body::at_rest(1.0E27f32.to_bits(), Vector { x: 1.0E13f32.to_bits(), y: 0 }),
    ];
    let s = Simulation::new(bodies.clone()).unwrap();
    assert_eq!(s.bodies(), &bodies);
}
