use zk_framework::{generate_keys, Circuit, Gate, NameMap, Verifier};

fn small_circuit() -> Circuit {
    let mut ins: NameMap<i32> = NameMap::new();
    ins.insert(String::from("a"), 3);
    Circuit {
        name: String::from("test_circuit"),
        inputs: ins,
        outputs: NameMap::new(),
        gates: vec![Gate::Add(String::from("a"), String::from("a"), String::from("b"), None)],
    }
}

#[test]
fn prove_produces_valid_token() {
    let c = small_circuit();
    let (pk, _vk) = generate_keys(&c);
    let proof = c.prove(&pk);
    assert_eq!(proof.data, "valid");
}

#[test]
fn verifier_accepts_placeholder_proof() {
    let c = small_circuit();
    let (pk, vk) = generate_keys(&c);
    let proof = c.prove(&pk);
    let verifier = Verifier {};
    assert!(verifier.verify(&proof, &vk, &c));
}

#[test]
fn system_generate_keys_matches_free_function() {
    let c = small_circuit();
    let mut vi: NameMap<usize> = NameMap::new();
    let mut next: usize = 1;
    let sys = c.to_r1cs_constraints(&mut vi, &mut next);
    let (pk, vk) = sys.generate_keys();
    let proof = c.prove(&pk);
    let verifier = Verifier {};
    assert!(verifier.verify(&proof, &vk, &c));
}
