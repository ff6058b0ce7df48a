//! The R1CS compiler: lowers a circuit's gates, in declared order, into
//! rank-1 constraints over allocator-assigned wire indices, and exports the
//! constraint list as three parallel matrices.

use crate::circuit::{Circuit, Gate};
use crate::names::NameMap;
use vstd::prelude::*;
use vstd::string::StringExecFns;

verus! {

/// One rank-1 constraint: three sparse linear combinations, each a list of
/// `(wire index, coefficient)` terms with distinct indices.  A wire
/// assignment `w` (with `w[0] == 1`) satisfies it iff
/// `(sum A[i]*w[i]) * (sum B[i]*w[i]) == sum C[i]*w[i]`.
#[derive(Debug, Clone)]
pub struct R1CSConstraint {
    pub a: Vec<(usize, i32)>,
    pub b: Vec<(usize, i32)>,
    pub c: Vec<(usize, i32)>,
}

/// An ordered list of rank-1 constraints; the order only fixes matrix row
/// alignment.
pub struct R1CSSystem {
    pub constraints: Vec<R1CSConstraint>,
}

/// The allocator's state: the bindings so far and the next free index.
pub ghost struct AllocState {
    pub map: Map<Seq<char>, usize>,
    pub next: usize,
}

/// Resolving a name: a bound name keeps its index; a fresh one is bound to
/// the next free index, which then advances.
pub open spec fn spec_resolve(al: AllocState, name: Seq<char>) -> (usize, AllocState) {
    if al.map.contains_key(name) {
        (al.map[name], al)
    } else {
        (al.next, AllocState { map: al.map.insert(name, al.next), next: (al.next + 1) as usize })
    }
}

/// Writing a coefficient into a sparse row: the term with that index is
/// replaced if present, appended otherwise.
pub open spec fn row_set(row: Seq<(usize, i32)>, k: usize, v: i32) -> Seq<(usize, i32)>
    decreases row.len(),
{
    if row.len() == 0 {
        seq![(k, v)]
    } else if row[0].0 == k {
        seq![(k, v)] + row.drop_first()
    } else {
        seq![row[0]] + row_set(row.drop_first(), k, v)
    }
}

/// A sparse row of one term.
pub open spec fn row1(k: usize, v: i32) -> Seq<(usize, i32)> {
    row_set(Seq::empty(), k, v)
}

/// A sparse row of two terms (one, if the indices coincide).
pub open spec fn row2(k1: usize, v1: i32, k2: usize, v2: i32) -> Seq<(usize, i32)> {
    row_set(row1(k1, v1), k2, v2)
}

/// A sparse row of three terms (fewer, if indices coincide).
pub open spec fn row3(k1: usize, v1: i32, k2: usize, v2: i32, k3: usize, v3: i32) -> Seq<
    (usize, i32),
> {
    row_set(row2(k1, v1, k2, v2), k3, v3)
}

/// The three rows of one constraint, at the specification level.
pub ghost struct SpecCon {
    pub a: Seq<(usize, i32)>,
    pub b: Seq<(usize, i32)>,
    pub c: Seq<(usize, i32)>,
}

/// The compiled constraint agrees, row by row, with its specification.
pub open spec fn con_matches(rc: R1CSConstraint, sc: SpecCon) -> bool {
    rc.a@ == sc.a && rc.b@ == sc.b && rc.c@ == sc.c
}

/// The constraints one gate emits and the allocator state it leaves behind.
/// Operands are resolved in the order the compiler reads them; the constant
/// wire `"1"` always stands at index 0.
///
/// `Hash` uses the fixed multiplier 7 (a placeholder, not a cryptographic
/// hash).  `Const` ties the constant wire's product with itself to
/// `val * name`, and `Eq` stores the difference of its operands into `out`
/// without constraining `out` to be boolean: both are kept exactly as
/// stated, for compatibility.
pub open spec fn spec_gate(al: AllocState, g: Gate) -> (Seq<SpecCon>, AllocState) {
    match g {
        Gate::Add(a, b, c, _) => {
            let (ai, al1) = spec_resolve(al, a@);
            let (bi, al2) = spec_resolve(al1, b@);
            let (ci, al3) = spec_resolve(al2, c@);
            (seq![SpecCon { a: row2(ai, 1, bi, 1), b: row1(0, 1), c: row1(ci, 1) }], al3)
        },
        Gate::Mul(a, b, c, _) => {
            let (ai, al1) = spec_resolve(al, a@);
            let (bi, al2) = spec_resolve(al1, b@);
            let (ci, al3) = spec_resolve(al2, c@);
            (seq![SpecCon { a: row1(ai, 1), b: row1(bi, 1), c: row1(ci, 1) }], al3)
        },
        Gate::Sub(a, b, c, _) => {
            let (ai, al1) = spec_resolve(al, a@);
            let (bi, al2) = spec_resolve(al1, b@);
            let (ci, al3) = spec_resolve(al2, c@);
            (seq![SpecCon { a: row2(ai, 1, bi, -1i32), b: row1(0, 1), c: row1(ci, 1) }], al3)
        },
        Gate::Eq(a, b, out) => {
            let (ai, al1) = spec_resolve(al, a@);
            let (bi, al2) = spec_resolve(al1, b@);
            let (oi, al3) = spec_resolve(al2, out@);
            (seq![SpecCon { a: row2(ai, 1, bi, -1i32), b: row1(0, 1), c: row1(oi, 1) }], al3)
        },
        Gate::Hash(input, output) => {
            let (ii, al1) = spec_resolve(al, input@);
            let (oi, al2) = spec_resolve(al1, output@);
            (seq![SpecCon { a: row1(ii, 1), b: row1(0, 7), c: row1(oi, 1) }], al2)
        },
        Gate::Const(name, val) => {
            let (idx, al1) = spec_resolve(al, name@);
            (seq![SpecCon { a: row1(0, 1), b: row1(0, 1), c: row1(idx, val) }], al1)
        },
        Gate::Xor(a, b, c) => {
            let (ai, al1) = spec_resolve(al, a@);
            let (bi, al2) = spec_resolve(al1, b@);
            let (abi, al3) = spec_resolve(al2, a@ + "_"@ + b@);
            let (ci, al4) = spec_resolve(al3, c@);
            (
                seq![
                    SpecCon { a: row1(ai, 1), b: row1(bi, 1), c: row1(abi, 1) },
                    SpecCon { a: row3(ai, 1, bi, 1, abi, -2i32), b: row1(0, 1), c: row1(ci, 1) },
                ],
                al4,
            )
        },
    }
}

/// The constraints a whole gate list emits, with the final allocator state.
pub open spec fn spec_compile(al: AllocState, gates: Seq<Gate>) -> (Seq<SpecCon>, AllocState)
    decreases gates.len(),
{
    if gates.len() == 0 {
        (Seq::empty(), al)
    } else {
        let (pre, al1) = spec_compile(al, gates.drop_last());
        let (cs, al2) = spec_gate(al1, gates.last());
        (pre + cs, al2)
    }
}

/// How many constraints a gate list compiles to: one per gate, two per
/// exclusive-or.
pub open spec fn constraint_count(gates: Seq<Gate>) -> int
    decreases gates.len(),
{
    if gates.len() == 0 {
        0
    } else {
        constraint_count(gates.drop_last()) + (if gates.last() matches Gate::Xor(_, _, _) {
            2int
        } else {
            1int
        })
    }
}

/// Every gate emits exactly one constraint, except exclusive-or, which
/// emits exactly two, whatever the allocator state.
pub proof fn lemma_gate_constraint_count(al: AllocState, g: Gate)
    ensures
        spec_gate(al, g).0.len() == (if g matches Gate::Xor(_, _, _) {
            2int
        } else {
            1int
        }),
{
    match g {
        Gate::Add(_, _, _, _) => {},
        Gate::Mul(_, _, _, _) => {},
        Gate::Sub(_, _, _, _) => {},
        Gate::Xor(_, _, _) => {},
        Gate::Const(_, _) => {},
        Gate::Hash(_, _) => {},
        Gate::Eq(_, _, _) => {},
    }
}

/// A compiled system holds `constraint_count` constraints: one per gate,
/// two per exclusive-or.
pub proof fn lemma_compile_constraint_count(al: AllocState, gates: Seq<Gate>)
    ensures
        spec_compile(al, gates).0.len() == constraint_count(gates),
    decreases gates.len(),
{
    if gates.len() > 0 {
        lemma_compile_constraint_count(al, gates.drop_last());
        lemma_gate_constraint_count(spec_compile(al, gates.drop_last()).1, gates.last());
    }
}

/// Resolution is idempotent: resolving a name a second time returns the
/// same index and leaves the allocator unchanged.
pub proof fn lemma_resolve_idempotent(al: AllocState, name: Seq<char>)
    ensures
        ({
            let (i1, al1) = spec_resolve(al, name);
            let (i2, al2) = spec_resolve(al1, name);
            i2 == i1 && al2 == al1
        }),
{
}

/// Resolving any name preserves every existing binding.
proof fn lemma_resolve_preserves(al: AllocState, name: Seq<char>, k: Seq<char>)
    requires
        al.map.contains_key(k),
    ensures
        spec_resolve(al, name).1.map.contains_key(k),
        spec_resolve(al, name).1.map[k] == al.map[k],
{
}

proof fn lemma_gate_preserves(al: AllocState, g: Gate, k: Seq<char>)
    requires
        al.map.contains_key(k),
    ensures
        spec_gate(al, g).1.map.contains_key(k),
        spec_gate(al, g).1.map[k] == al.map[k],
{
    match g {
        Gate::Add(a, b, c, _) => {
            let al1 = spec_resolve(al, a@).1;
            let al2 = spec_resolve(al1, b@).1;
            lemma_resolve_preserves(al, a@, k);
            lemma_resolve_preserves(al1, b@, k);
            lemma_resolve_preserves(al2, c@, k);
        },
        Gate::Mul(a, b, c, _) => {
            let al1 = spec_resolve(al, a@).1;
            let al2 = spec_resolve(al1, b@).1;
            lemma_resolve_preserves(al, a@, k);
            lemma_resolve_preserves(al1, b@, k);
            lemma_resolve_preserves(al2, c@, k);
        },
        Gate::Sub(a, b, c, _) => {
            let al1 = spec_resolve(al, a@).1;
            let al2 = spec_resolve(al1, b@).1;
            lemma_resolve_preserves(al, a@, k);
            lemma_resolve_preserves(al1, b@, k);
            lemma_resolve_preserves(al2, c@, k);
        },
        Gate::Eq(a, b, out) => {
            let al1 = spec_resolve(al, a@).1;
            let al2 = spec_resolve(al1, b@).1;
            lemma_resolve_preserves(al, a@, k);
            lemma_resolve_preserves(al1, b@, k);
            lemma_resolve_preserves(al2, out@, k);
        },
        Gate::Hash(input, output) => {
            let al1 = spec_resolve(al, input@).1;
            lemma_resolve_preserves(al, input@, k);
            lemma_resolve_preserves(al1, output@, k);
        },
        Gate::Const(name, _) => {
            lemma_resolve_preserves(al, name@, k);
        },
        Gate::Xor(a, b, c) => {
            let al1 = spec_resolve(al, a@).1;
            let al2 = spec_resolve(al1, b@).1;
            let al3 = spec_resolve(al2, a@ + "_"@ + b@).1;
            lemma_resolve_preserves(al, a@, k);
            lemma_resolve_preserves(al1, b@, k);
            lemma_resolve_preserves(al2, a@ + "_"@ + b@, k);
            lemma_resolve_preserves(al3, c@, k);
        },
    }
}

/// An allocator that binds the constant wire `"1"` to index 0 before any
/// gate is processed still binds it to 0 after compiling every gate.
pub proof fn lemma_one_wire_stays(al: AllocState, gates: Seq<Gate>)
    requires
        al.map.contains_key("1"@),
        al.map["1"@] == 0,
    ensures
        spec_compile(al, gates).1.map.contains_key("1"@),
        spec_compile(al, gates).1.map["1"@] == 0,
    decreases gates.len(),
{
    if gates.len() > 0 {
        lemma_one_wire_stays(al, gates.drop_last());
        lemma_gate_preserves(spec_compile(al, gates.drop_last()).1, gates.last(), "1"@);
    }
}

/// Returns the wire index of `var`, binding it to the next free index on
/// first sight; a later call with the same name returns the same index.
pub fn get_index(var: &str, var_index: &mut NameMap<usize>, next_index: &mut usize) -> (idx: usize)
    requires
        old(var_index).wf(),
        old(var_index)@.contains_key(var@) || *old(next_index) < usize::MAX,
    ensures
        final(var_index).wf(),
        ({
            let (i, al) = spec_resolve(
                AllocState { map: old(var_index)@, next: *old(next_index) },
                var@,
            );
            idx == i && final(var_index)@ == al.map && *final(next_index) == al.next
        }),
        *final(next_index) <= *old(next_index) + 1,
{
    match var_index.get(var) {
        Some(i) => i,
        None => {
            let i = *next_index;
            var_index.insert(var.to_owned(), i);
            *next_index = *next_index + 1;
            i
        },
    }
}

proof fn lemma_row_set_found(s: Seq<(usize, i32)>, i: int, k: usize, v: i32)
    requires
        0 <= i < s.len(),
        s[i].0 == k,
        forall|j: int| 0 <= j < i ==> s[j].0 != k,
    ensures
        row_set(s, k, v) == s.update(i, (k, v)),
    decreases s.len(),
{
    if i == 0 {
        assert(seq![(k, v)] + s.drop_first() =~= s.update(0, (k, v)));
    } else {
        let t = s.drop_first();
        assert forall|j: int| 0 <= j < i - 1 implies t[j].0 != k by {
            assert(s[j + 1].0 != k);
        }
        lemma_row_set_found(t, i - 1, k, v);
        assert(seq![s[0]] + t.update(i - 1, (k, v)) =~= s.update(i, (k, v)));
    }
}

proof fn lemma_row_set_missing(s: Seq<(usize, i32)>, k: usize, v: i32)
    requires
        forall|j: int| 0 <= j < s.len() ==> s[j].0 != k,
    ensures
        row_set(s, k, v) == s.push((k, v)),
    decreases s.len(),
{
    if s.len() == 0 {
        assert(seq![(k, v)] =~= s.push((k, v)));
    } else {
        let t = s.drop_first();
        assert forall|j: int| 0 <= j < t.len() implies t[j].0 != k by {
            assert(s[j + 1].0 != k);
        }
        lemma_row_set_missing(t, k, v);
        assert(seq![s[0]] + t.push((k, v)) =~= s.push((k, v)));
    }
}

/// Writes coefficient `v` for wire `k` into a sparse row, replacing the
/// term with that index if one is present.
fn push_term(row: &mut Vec<(usize, i32)>, k: usize, v: i32)
    ensures
        final(row)@ == row_set(old(row)@, k, v),
{
    let n = row.len();
    let mut i: usize = 0;
    while i < n
        invariant
            n == row@.len(),
            i <= n,
            row@ == old(row)@,
            forall|j: int| 0 <= j < i ==> old(row)@[j].0 != k,
        decreases n - i,
    {
        if row[i].0 == k {
            row[i] = (k, v);
            proof {
                lemma_row_set_found(old(row)@, i as int, k, v);
            }
            return;
        }
        i = i + 1;
    }
    row.push((k, v));
    proof {
        lemma_row_set_missing(old(row)@, k, v);
    }
}

/// A freshly built one-term sparse row.
fn single_row(k: usize, v: i32) -> (r: Vec<(usize, i32)>)
    ensures
        r@ == row1(k, v),
{
    let mut r: Vec<(usize, i32)> = Vec::new();
    push_term(&mut r, k, v);
    r
}

impl Circuit {
    /// Compiles the circuit's gates, in declared order, into an ordered
    /// list of rank-1 constraints, binding the constant wire `"1"` to
    /// index 0 before any gate is processed.
    pub fn to_r1cs_constraints(&self, var_index: &mut NameMap<usize>, next_index: &mut usize) -> (r:
        R1CSSystem)
        requires
            old(var_index).wf(),
            *old(next_index) + 4 * self.gates@.len() <= usize::MAX,
        ensures
            final(var_index).wf(),
            ({
                let al0 = AllocState {
                    map: old(var_index)@.insert("1"@, 0),
                    next: *old(next_index),
                };
                let (cs, al) = spec_compile(al0, self.gates@);
                &&& r.constraints@.len() == cs.len()
                &&& (forall|i: int|
                    0 <= i < cs.len() ==> con_matches(#[trigger] r.constraints@[i], cs[i]))
                &&& final(var_index)@ == al.map
                &&& *final(next_index) == al.next
            }),
            final(var_index)@.contains_key("1"@),
            final(var_index)@["1"@] == 0,
    {
        let mut constraints: Vec<R1CSConstraint> = Vec::new();
        var_index.insert("1".to_owned(), 0);
        let ghost al0 = AllocState { map: var_index@, next: *next_index };
        let n = self.gates.len();
        let mut i: usize = 0;
        while i < n
            invariant
                n == self.gates@.len(),
                i <= n,
                var_index.wf(),
                var_index@.contains_key("1"@),
                var_index@["1"@] == 0,
                *old(next_index) + 4 * (n as int) <= usize::MAX,
                *next_index <= *old(next_index) + 4 * (i as int),
                ({
                    let (cs, al) = spec_compile(al0, self.gates@.take(i as int));
                    &&& constraints@.len() == cs.len()
                    &&& (forall|j: int|
                        0 <= j < cs.len() ==> con_matches(#[trigger] constraints@[j], cs[j]))
                    &&& var_index@ == al.map
                    &&& *next_index == al.next
                }),
            decreases n - i,
        {
            proof {
                assert(self.gates@.take(i as int + 1).drop_last() =~= self.gates@.take(i as int));
                assert(self.gates@.take(i as int + 1).last() == self.gates@[i as int]);
            }
            let one_idx = match var_index.get("1") {
                Some(v) => v,
                None => {
                    proof {
                        assert(false);
                    }
                    0
                },
            };
            match &self.gates[i] {
                Gate::Add(a, b, c, _) => {
                    let a_idx = get_index(a.as_str(), var_index, next_index);
                    let b_idx = get_index(b.as_str(), var_index, next_index);
                    let c_idx = get_index(c.as_str(), var_index, next_index);
                    let mut ra: Vec<(usize, i32)> = Vec::new();
                    push_term(&mut ra, a_idx, 1);
                    push_term(&mut ra, b_idx, 1);
                    constraints.push(
                        R1CSConstraint { a: ra, b: single_row(one_idx, 1), c: single_row(c_idx, 1) },
                    );
                },
                Gate::Mul(a, b, c, _) => {
                    let a_idx = get_index(a.as_str(), var_index, next_index);
                    let b_idx = get_index(b.as_str(), var_index, next_index);
                    let c_idx = get_index(c.as_str(), var_index, next_index);
                    constraints.push(
                        R1CSConstraint {
                            a: single_row(a_idx, 1),
                            b: single_row(b_idx, 1),
                            c: single_row(c_idx, 1),
                        },
                    );
                },
                Gate::Sub(a, b, c, _) => {
                    let a_idx = get_index(a.as_str(), var_index, next_index);
                    let b_idx = get_index(b.as_str(), var_index, next_index);
                    let c_idx = get_index(c.as_str(), var_index, next_index);
                    let mut ra: Vec<(usize, i32)> = Vec::new();
                    push_term(&mut ra, a_idx, 1);
                    push_term(&mut ra, b_idx, -1);
                    constraints.push(
                        R1CSConstraint { a: ra, b: single_row(one_idx, 1), c: single_row(c_idx, 1) },
                    );
                },
                Gate::Eq(a, b, out) => {
                    let a_idx = get_index(a.as_str(), var_index, next_index);
                    let b_idx = get_index(b.as_str(), var_index, next_index);
                    let out_idx = get_index(out.as_str(), var_index, next_index);
                    let mut ra: Vec<(usize, i32)> = Vec::new();
                    push_term(&mut ra, a_idx, 1);
                    push_term(&mut ra, b_idx, -1);
                    constraints.push(
                        R1CSConstraint {
                            a: ra,
                            b: single_row(one_idx, 1),
                            c: single_row(out_idx, 1),
                        },
                    );
                },
                Gate::Hash(input, output) => {
                    let input_idx = get_index(input.as_str(), var_index, next_index);
                    let output_idx = get_index(output.as_str(), var_index, next_index);
                    constraints.push(
                        R1CSConstraint {
                            a: single_row(input_idx, 1),
                            b: single_row(one_idx, 7),
                            c: single_row(output_idx, 1),
                        },
                    );
                },
                Gate::Const(name, val) => {
                    let idx = get_index(name.as_str(), var_index, next_index);
                    constraints.push(
                        R1CSConstraint {
                            a: single_row(one_idx, 1),
                            b: single_row(one_idx, 1),
                            c: single_row(idx, *val),
                        },
                    );
                },
                Gate::Xor(a, b, c) => {
                    let a_idx = get_index(a.as_str(), var_index, next_index);
                    let b_idx = get_index(b.as_str(), var_index, next_index);
                    let ab_name = a.clone().concat("_").concat(b.as_str());
                    let ab_idx = get_index(ab_name.as_str(), var_index, next_index);
                    let c_idx = get_index(c.as_str(), var_index, next_index);
                    constraints.push(
                        R1CSConstraint {
                            a: single_row(a_idx, 1),
                            b: single_row(b_idx, 1),
                            c: single_row(ab_idx, 1),
                        },
                    );
                    let mut ra: Vec<(usize, i32)> = Vec::new();
                    push_term(&mut ra, a_idx, 1);
                    push_term(&mut ra, b_idx, 1);
                    push_term(&mut ra, ab_idx, -2);
                    constraints.push(
                        R1CSConstraint { a: ra, b: single_row(one_idx, 1), c: single_row(c_idx, 1) },
                    );
                },
            }
            i = i + 1;
        }
        proof {
            assert(self.gates@.take(n as int) =~= self.gates@);
        }
        R1CSSystem { constraints }
    }
}

/// A copy of a sparse row.
fn copy_row(row: &Vec<(usize, i32)>) -> (r: Vec<(usize, i32)>)
    ensures
        r@ == row@,
{
    let mut out: Vec<(usize, i32)> = Vec::new();
    let n = row.len();
    let mut i: usize = 0;
    while i < n
        invariant
            n == row@.len(),
            i <= n,
            out@ =~= row@.take(i as int),
        decreases n - i,
    {
        out.push(row[i]);
        assert(out@ =~= row@.take(i as int + 1));
        i = i + 1;
    }
    proof {
        assert(row@.take(n as int) =~= row@);
    }
    out
}

impl R1CSSystem {
    /// Exports the constraints as three parallel matrices: row `i` of each
    /// is a copy of constraint `i`'s A, B, and C linear combination.
    pub fn to_matrices(&self, _var_index: &mut NameMap<usize>, _next_index: &mut usize) -> (m: (
        Vec<Vec<(usize, i32)>>,
        Vec<Vec<(usize, i32)>>,
        Vec<Vec<(usize, i32)>>,
    ))
        ensures
            m.0@.len() == self.constraints@.len(),
            m.1@.len() == self.constraints@.len(),
            m.2@.len() == self.constraints@.len(),
            forall|i: int|
                0 <= i < self.constraints@.len() ==> (#[trigger] m.0@[i])@
                    == self.constraints@[i].a@ && m.1@[i]@ == self.constraints@[i].b@ && m.2@[i]@
                    == self.constraints@[i].c@,
            *final(_var_index) == *old(_var_index),
            *final(_next_index) == *old(_next_index),
    {
        let mut a_matrix: Vec<Vec<(usize, i32)>> = Vec::new();
        let mut b_matrix: Vec<Vec<(usize, i32)>> = Vec::new();
        let mut c_matrix: Vec<Vec<(usize, i32)>> = Vec::new();
        let n = self.constraints.len();
        let mut i: usize = 0;
        while i < n
            invariant
                n == self.constraints@.len(),
                i <= n,
                a_matrix@.len() == i,
                b_matrix@.len() == i,
                c_matrix@.len() == i,
                forall|j: int|
                    0 <= j < i ==> (#[trigger] a_matrix@[j])@ == self.constraints@[j].a@
                        && b_matrix@[j]@ == self.constraints@[j].b@ && c_matrix@[j]@
                        == self.constraints@[j].c@,
            decreases n - i,
        {
            a_matrix.push(copy_row(&self.constraints[i].a));
            b_matrix.push(copy_row(&self.constraints[i].b));
            c_matrix.push(copy_row(&self.constraints[i].c));
            i = i + 1;
        }
        (a_matrix, b_matrix, c_matrix)
    }
}

} // verus!
