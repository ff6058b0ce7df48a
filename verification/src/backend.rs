//! Placeholder proving backend: opaque key objects and a proof token that
//! always carries the fixed text `"valid"`.  No cryptography stands behind
//! these; they mark the interface a real backend would fill.

use crate::circuit::Circuit;
use crate::r1cs::R1CSSystem;
use vstd::prelude::*;
use vstd::string::StringExecFns;

verus! {

/// An opaque proving key.
pub struct ProvingKey {}

/// An opaque verifying key.
pub struct VerifyingKey {}

/// A proof token; the placeholder backend marks every proof `"valid"`.
#[derive(Debug)]
pub struct Proof {
    pub data: String,
}

/// Checks proofs against a verifying key.
pub struct Verifier;

/// Produces the placeholder key pair for a circuit.
pub fn generate_keys(circuit: &Circuit) -> (ProvingKey, VerifyingKey) {
    (ProvingKey {  }, VerifyingKey {  })
}

impl R1CSSystem {
    /// Produces the placeholder key pair for a compiled system.
    pub fn generate_keys(&self) -> (ProvingKey, VerifyingKey) {
        let proving_key = ProvingKey {  };
        let verifying_key = VerifyingKey {  };
        (proving_key, verifying_key)
    }
}

impl Circuit {
    /// Produces the placeholder proof, whose data is always `"valid"`.
    pub fn prove(&self, proving_key: &ProvingKey) -> (r: Proof)
        ensures
            r.data@ == "valid"@,
    {
        Proof { data: String::from_str("valid") }
    }
}

impl Verifier {
    /// Accepts exactly the proofs whose data is `"valid"`.
    pub fn verify(&self, proof: &Proof, verifying_key: &VerifyingKey, circuit: &Circuit) -> (r:
        bool)
        ensures
            r == (proof.data@ == "valid"@),
    {
        let expected = String::from_str("valid");
        proof.data == expected
    }
}

} // verus!
