use zk_framework::{get_index, Circuit, Gate, NameMap};

fn gate_only_circuit(gates: Vec<Gate>) -> Circuit {
    Circuit {
        name: String::from("test_circuit"),
        inputs: NameMap::new(),
        outputs: NameMap::new(),
        gates,
    }
}

fn fresh_allocator() -> (NameMap<usize>, usize) {
    (NameMap::new(), 1)
}

#[test]
fn scenario_add_compiles_to_one_constraint() {
    let c = gate_only_circuit(vec![Gate::Add(
        String::from("a"),
        String::from("b"),
        String::from("c"),
        None,
    )]);
    let (mut vi, mut next) = fresh_allocator();
    let sys = c.to_r1cs_constraints(&mut vi, &mut next);
    assert_eq!(vi.get("1"), Some(0));
    assert_eq!(vi.get("a"), Some(1));
    assert_eq!(vi.get("b"), Some(2));
    assert_eq!(vi.get("c"), Some(3));
    assert_eq!(next, 4);
    assert_eq!(sys.constraints.len(), 1);
    assert_eq!(sys.constraints[0].a, vec![(1, 1), (2, 1)]);
    assert_eq!(sys.constraints[0].b, vec![(0, 1)]);
    assert_eq!(sys.constraints[0].c, vec![(3, 1)]);
}

#[test]
fn scenario_xor_compiles_to_two_constraints_with_synthetic_wire() {
    let c = gate_only_circuit(vec![Gate::Xor(
        String::from("x"),
        String::from("y"),
        String::from("z"),
    )]);
    let (mut vi, mut next) = fresh_allocator();
    let sys = c.to_r1cs_constraints(&mut vi, &mut next);
    assert_eq!(vi.get("x"), Some(1));
    assert_eq!(vi.get("y"), Some(2));
    assert_eq!(vi.get("x_y"), Some(3));
    assert_eq!(vi.get("z"), Some(4));
    assert_eq!(sys.constraints.len(), 2);
    assert_eq!(sys.constraints[0].a, vec![(1, 1)]);
    assert_eq!(sys.constraints[0].b, vec![(2, 1)]);
    assert_eq!(sys.constraints[0].c, vec![(3, 1)]);
    assert_eq!(sys.constraints[1].a, vec![(1, 1), (2, 1), (3, -2)]);
    assert_eq!(sys.constraints[1].b, vec![(0, 1)]);
    assert_eq!(sys.constraints[1].c, vec![(4, 1)]);
}

#[test]
fn every_gate_kind_emits_one_constraint_except_xor() {
    let c = gate_only_circuit(vec![
        Gate::Add(String::from("a"), String::from("b"), String::from("c"), None),
        Gate::Mul(String::from("a"), String::from("b"), String::from("d"), None),
        Gate::Sub(String::from("a"), String::from("b"), String::from("e"), None),
        Gate::Eq(String::from("a"), String::from("b"), String::from("f")),
        Gate::Hash(String::from("a"), String::from("g")),
        Gate::Const(String::from("k"), 5),
        Gate::Xor(String::from("a"), String::from("b"), String::from("h")),
    ]);
    let (mut vi, mut next) = fresh_allocator();
    let sys = c.to_r1cs_constraints(&mut vi, &mut next);
    assert_eq!(sys.constraints.len(), 8);
}

#[test]
fn sub_and_eq_rows_use_negative_coefficient() {
    let c = gate_only_circuit(vec![
        Gate::Sub(String::from("a"), String::from("b"), String::from("c"), None),
        Gate::Eq(String::from("a"), String::from("b"), String::from("e")),
    ]);
    let (mut vi, mut next) = fresh_allocator();
    let sys = c.to_r1cs_constraints(&mut vi, &mut next);
    assert_eq!(sys.constraints[0].a, vec![(1, 1), (2, -1)]);
    assert_eq!(sys.constraints[0].b, vec![(0, 1)]);
    assert_eq!(sys.constraints[0].c, vec![(3, 1)]);
    assert_eq!(sys.constraints[1].a, vec![(1, 1), (2, -1)]);
    assert_eq!(sys.constraints[1].c, vec![(4, 1)]);
}

#[test]
fn hash_row_uses_fixed_multiplier_seven() {
    let c = gate_only_circuit(vec![Gate::Hash(String::from("m"), String::from("h"))]);
    let (mut vi, mut next) = fresh_allocator();
    let sys = c.to_r1cs_constraints(&mut vi, &mut next);
    assert_eq!(sys.constraints[0].a, vec![(1, 1)]);
    assert_eq!(sys.constraints[0].b, vec![(0, 7)]);
    assert_eq!(sys.constraints[0].c, vec![(2, 1)]);
}

#[test]
fn const_row_ties_constant_wire_to_value() {
    let c = gate_only_circuit(vec![Gate::Const(String::from("k"), 9)]);
    let (mut vi, mut next) = fresh_allocator();
    let sys = c.to_r1cs_constraints(&mut vi, &mut next);
    assert_eq!(sys.constraints[0].a, vec![(0, 1)]);
    assert_eq!(sys.constraints[0].b, vec![(0, 1)]);
    assert_eq!(sys.constraints[0].c, vec![(1, 9)]);
}

#[test]
fn repeated_operand_collapses_row_term() {
    let c = gate_only_circuit(vec![Gate::Add(
        String::from("a"),
        String::from("a"),
        String::from("c"),
        None,
    )]);
    let (mut vi, mut next) = fresh_allocator();
    let sys = c.to_r1cs_constraints(&mut vi, &mut next);
    assert_eq!(vi.get("a"), Some(1));
    assert_eq!(vi.get("c"), Some(2));
    assert_eq!(sys.constraints[0].a, vec![(1, 1)]);
}

#[test]
fn allocator_is_idempotent_and_deterministic() {
    let mut vi: NameMap<usize> = NameMap::new();
    let mut next: usize = 1;
    let first = get_index("a", &mut vi, &mut next);
    let second = get_index("a", &mut vi, &mut next);
    let other = get_index("b", &mut vi, &mut next);
    assert_eq!(first, 1);
    assert_eq!(second, 1);
    assert_eq!(other, 2);
    assert_eq!(next, 3);
}

#[test]
fn recompiling_gives_identical_output() {
    let gates = || {
        vec![
            Gate::Add(String::from("a"), String::from("b"), String::from("c"), None),
            Gate::Xor(String::from("c"), String::from("a"), String::from("d")),
        ]
    };
    let (mut v1, mut n1) = fresh_allocator();
    let (mut v2, mut n2) = fresh_allocator();
    let s1 = gate_only_circuit(gates()).to_r1cs_constraints(&mut v1, &mut n1);
    let s2 = gate_only_circuit(gates()).to_r1cs_constraints(&mut v2, &mut n2);
    assert_eq!(n1, n2);
    assert_eq!(s1.constraints.len(), s2.constraints.len());
    for (c1, c2) in s1.constraints.iter().zip(s2.constraints.iter()) {
        assert_eq!(c1.a, c2.a);
        assert_eq!(c1.b, c2.b);
        assert_eq!(c1.c, c2.c);
    }
}

#[test]
fn matrices_align_with_constraints() {
    let c = gate_only_circuit(vec![
        Gate::Add(String::from("a"), String::from("b"), String::from("c"), None),
        Gate::Xor(String::from("a"), String::from("b"), String::from("d")),
    ]);
    let (mut vi, mut next) = fresh_allocator();
    let sys = c.to_r1cs_constraints(&mut vi, &mut next);
    let (am, bm, cm) = sys.to_matrices(&mut vi, &mut next);
    assert_eq!(am.len(), sys.constraints.len());
    assert_eq!(bm.len(), sys.constraints.len());
    assert_eq!(cm.len(), sys.constraints.len());
    for i in 0..sys.constraints.len() {
        assert_eq!(am[i], sys.constraints[i].a);
        assert_eq!(bm[i], sys.constraints[i].b);
        assert_eq!(cm[i], sys.constraints[i].c);
    }
}

#[test]
fn empty_circuit_compiles_to_empty_system() {
    let c = gate_only_circuit(vec![]);
    let (mut vi, mut next) = fresh_allocator();
    let sys = c.to_r1cs_constraints(&mut vi, &mut next);
    assert_eq!(sys.constraints.len(), 0);
    assert_eq!(vi.get("1"), Some(0));
    assert_eq!(next, 1);
    let (am, bm, cm) = sys.to_matrices(&mut vi, &mut next);
    assert!(am.is_empty() && bm.is_empty() && cm.is_empty());
}
