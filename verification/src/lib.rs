//! A front-end compiler for zero-knowledge proof circuits: it lowers a
//! gate-level circuit description into a rank-1 constraint system (R1CS),
//! simulates the circuit to produce a witness assignment, and exports the
//! constraints in matrix form.

pub mod backend;
pub mod circuit;
pub mod modmath;
pub mod names;
pub mod r1cs;

pub use backend::{generate_keys, Proof, ProvingKey, Verifier, VerifyingKey};
pub use circuit::{Circuit, Gate};
pub use modmath::{mod_add, mod_inv, mod_mul, mod_sub};
pub use names::NameMap;
pub use r1cs::{get_index, R1CSConstraint, R1CSSystem};
