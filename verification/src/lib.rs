//! A KZG-style polynomial commitment scheme over the BLS12-381 curve:
//! a trusted setup builds a structured reference string in monomial and
//! Lagrange bases, a prover commits to a blinded witness-derived vector and
//! opens the committed polynomial at arbitrary points, and a verifier checks
//! an opening with a single pairing equation.  A separate, much simpler
//! module simulates a clocked register that reduces integers modulo a fixed
//! 256-bit prime.

pub mod math;
pub mod config;
pub mod field;
pub mod group;
pub mod errors;
pub mod domain;
pub mod poly;
pub mod setup;
pub mod prover;
pub mod opening;
pub mod bigint;
pub mod machine;

pub use config::{Config, PRODUCTION_LOG_N};
pub use errors::ProtocolError;
pub use field::{
    Scalar, TestRng, new_test_rng, sample_scalar, scalar_eq, scalar_zero, scalar_one, scalar_add,
    scalar_sub, scalar_mul, hash_witness,
};
pub use group::{PointG1, AffineG1, PointG2, AffineG2, GtElem, g1_point_is_identity};
pub use domain::{forward_transform, inverse_transform, transform_round_trip, log2_exact};
pub use poly::{eval_poly, divide_by_linear};
pub use setup::Setup;
pub use prover::{Prover, OpeningProof};
pub use opening::Verifier;
pub use machine::{ModuloMachine, ParseNumeralError, P_STR};
