//! The circuit data model and the witness simulator: gates are evaluated in
//! declared order against an input assignment, producing a full
//! variable-to-value mapping.

use crate::modmath::{mod_add, mod_mul, mod_sub, mod_val};
use crate::names::NameMap;
use vstd::prelude::*;

verus! {

/// The modulus used by the simulator when a gate carries no override.
pub const DEFAULT_MODULUS: i32 = 1000;

/// One gate of a circuit.  Operand fields are variable-name references,
/// resolved against the current assignment at simulation time and against
/// the wire allocator at compilation time.  The optional field of the
/// arithmetic gates is a per-gate modulus override.
#[derive(Debug)]
pub enum Gate {
    Add(String, String, String, Option<i32>),
    Mul(String, String, String, Option<i32>),
    Sub(String, String, String, Option<i32>),
    Xor(String, String, String),
    Const(String, i32),
    Hash(String, String),
    Eq(String, String, String),
}

/// A circuit: named input and output assignments and an ordered gate list.
#[derive(Debug)]
pub struct Circuit {
    pub name: String,
    pub inputs: NameMap<i32>,
    pub outputs: NameMap<i32>,
    pub gates: Vec<Gate>,
}

/// The modulus a gate override selects: the override when present, the
/// default otherwise.
pub open spec fn eff_modulus(m: Option<i32>) -> int {
    match m {
        Some(v) => v as int,
        None => DEFAULT_MODULUS as int,
    }
}

/// Whether every arithmetic gate of `gates` selects a nonzero modulus,
/// so that simulation never divides by zero.
pub open spec fn moduli_ok(gates: Seq<Gate>) -> bool {
    forall|i: int|
        0 <= i < gates.len() ==> match #[trigger] gates[i] {
            Gate::Add(_, _, _, m) => eff_modulus(m) != 0,
            Gate::Mul(_, _, _, m) => eff_modulus(m) != 0,
            Gate::Sub(_, _, _, m) => eff_modulus(m) != 0,
            _ => true,
        }
}

/// One simulation step: how a single gate transforms the assignment.
/// An arithmetic gate whose operands are not both bound is skipped, and
/// `Hash` and `Eq` gates are left to the compiler: they never touch the
/// assignment.
pub open spec fn sim_step(env: Map<Seq<char>, i32>, g: Gate) -> Map<Seq<char>, i32> {
    match g {
        Gate::Add(a, b, c, m) => {
            if env.contains_key(a@) && env.contains_key(b@) {
                env.insert(c@, mod_val(env[a@] + env[b@], eff_modulus(m)) as i32)
            } else {
                env
            }
        },
        Gate::Mul(a, b, c, m) => {
            if env.contains_key(a@) && env.contains_key(b@) {
                env.insert(c@, mod_val(env[a@] * env[b@], eff_modulus(m)) as i32)
            } else {
                env
            }
        },
        Gate::Sub(a, b, c, m) => {
            if env.contains_key(a@) && env.contains_key(b@) {
                env.insert(c@, mod_val(env[a@] - env[b@], eff_modulus(m)) as i32)
            } else {
                env
            }
        },
        Gate::Xor(a, b, c) => {
            if env.contains_key(a@) && env.contains_key(b@) {
                env.insert(c@, env[a@] ^ env[b@])
            } else {
                env
            }
        },
        Gate::Const(name, val) => env.insert(name@, val),
        Gate::Hash(_, _) => env,
        Gate::Eq(_, _, _) => env,
    }
}

/// The assignment after simulating `gates` in order, starting from `env`.
pub open spec fn sim_gates(env: Map<Seq<char>, i32>, gates: Seq<Gate>) -> Map<Seq<char>, i32>
    decreases gates.len(),
{
    if gates.len() == 0 {
        env
    } else {
        sim_step(sim_gates(env, gates.drop_last()), gates.last())
    }
}

/// Whether every declared output of `outs` is bound in `asg` with the
/// declared expected value.
pub open spec fn outputs_match(outs: Map<Seq<char>, i32>, asg: Map<Seq<char>, i32>) -> bool {
    forall|k: Seq<char>| #[trigger] outs.contains_key(k) ==> asg.contains_key(k) && asg[k] == outs[k]
}

/// For boolean values, integer exclusive-or equals `a + b - 2*a*b`: the
/// simulator's Xor result agrees with the linear expansion that the
/// compiler's two Xor constraints encode.
pub proof fn lemma_xor_identity(a: i32, b: i32)
    requires
        a == 0 || a == 1,
        b == 0 || b == 1,
    ensures
        (a ^ b) == a + b - 2 * (a * b),
{
    assert((a ^ b) == a + b - 2 * (a * b)) by (bit_vector)
        requires
            (a == 0 || a == 1) && (b == 0 || b == 1),
    ;
}

impl Circuit {
    /// Evaluates the gates in declared order against the input assignment
    /// and returns the resulting variable-to-value mapping.
    pub fn simulate(&self) -> (r: NameMap<i32>)
        requires
            self.inputs.wf(),
            moduli_ok(self.gates@),
        ensures
            r.wf(),
            r@ == sim_gates(self.inputs@, self.gates@),
    {
        let mut asg = self.inputs.duplicate();
        let n = self.gates.len();
        let mut i: usize = 0;
        while i < n
            invariant
                n == self.gates@.len(),
                i <= n,
                moduli_ok(self.gates@),
                asg.wf(),
                asg@ == sim_gates(self.inputs@, self.gates@.take(i as int)),
            decreases n - i,
        {
            proof {
                assert(self.gates@.take(i as int + 1).drop_last() =~= self.gates@.take(i as int));
                assert(self.gates@.take(i as int + 1).last() == self.gates@[i as int]);
            }
            match &self.gates[i] {
                Gate::Add(a, b, c, m) => {
                    let va = asg.get(a.as_str());
                    let vb = asg.get(b.as_str());
                    if let (Some(x), Some(y)) = (va, vb) {
                        let modulus = match m {
                            Some(v) => *v,
                            None => DEFAULT_MODULUS,
                        };
                        let v = mod_add(x, y, modulus);
                        asg.insert(c.clone(), v);
                    }
                },
                Gate::Mul(a, b, c, m) => {
                    let va = asg.get(a.as_str());
                    let vb = asg.get(b.as_str());
                    if let (Some(x), Some(y)) = (va, vb) {
                        let modulus = match m {
                            Some(v) => *v,
                            None => DEFAULT_MODULUS,
                        };
                        let v = mod_mul(x, y, modulus);
                        asg.insert(c.clone(), v);
                    }
                },
                Gate::Sub(a, b, c, m) => {
                    let va = asg.get(a.as_str());
                    let vb = asg.get(b.as_str());
                    if let (Some(x), Some(y)) = (va, vb) {
                        let modulus = match m {
                            Some(v) => *v,
                            None => DEFAULT_MODULUS,
                        };
                        let v = mod_sub(x, y, modulus);
                        asg.insert(c.clone(), v);
                    }
                },
                Gate::Xor(a, b, c) => {
                    let va = asg.get(a.as_str());
                    let vb = asg.get(b.as_str());
                    if let (Some(x), Some(y)) = (va, vb) {
                        asg.insert(c.clone(), x ^ y);
                    }
                },
                Gate::Const(name, val) => {
                    asg.insert(name.clone(), *val);
                },
                Gate::Hash(_, _) => {},
                Gate::Eq(_, _, _) => {},
            }
            i = i + 1;
        }
        proof {
            assert(self.gates@.take(n as int) =~= self.gates@);
        }
        asg
    }

    /// Whether the simulated assignment meets every declared output.
    pub fn check_outputs(&self, assignment: &NameMap<i32>) -> (r: bool)
        requires
            self.outputs.wf(),
            assignment.wf(),
        ensures
            r == outputs_match(self.outputs@, assignment@),
    {
        self.outputs.contained_in(assignment)
    }
}

} // verus!
