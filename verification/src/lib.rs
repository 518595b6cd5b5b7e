//! Gravitational dynamics of point masses, advanced by the symplectic
//! kick-drift-kick (leapfrog) scheme.
//!
//! Every physical quantity is an IEEE 754 number held as its bit pattern
//! (`single::Single`, `double::Double`).  The rounding arithmetic itself is
//! supplied by the caller through `arithmetic::Arithmetic`; everything this
//! crate proves holds for whatever that arithmetic returns.

pub mod arithmetic;
pub mod body;
pub mod double;
pub mod energy;
pub mod force;
pub mod init;
pub mod integrator;
pub mod pairs;
pub mod simulation;
pub mod single;
