//! Arithmetic for the cubic extension field of the BLS12-381 tower.
//!
//! The crate implements the field `Fp6 = Fp2[v] / (v^3 - (u + 1))`, the
//! degree-3 extension of the quadratic extension field `Fp2`, as used by
//! pairing computations over BLS12-381. Every element is modelled in
//! specifications by its canonical integer components, and every operation
//! carries a contract stating its exact mathematical result.

pub mod modp;
pub mod ct;
pub mod fp;
pub mod fp2;
pub mod fp6;
pub mod laws;
pub mod bytes;

pub use modp::prime;
