//! The range-membership gate: its row layout and the constraints a verifier
//! checks on an assignment of its cells.
//!
//! One custom gate, enabled on every planned row, with `q_a = -1`:
//!
//! ```text
//! prod_{i = from}^{to - 1} (i - v)  +  q_a * a  +  instance  ==  0
//! ```
//!
//! Row 0 holds the witness in `v` and the threshold as a constrained constant
//! in `a`; rows 1 and 2 hold an in-range filler in `v` and copies of the
//! account halves from the instance column in `a`.
use crate::bytes::{lemma_le_value_bound, lemma_le_value_injective, lemma_pow256_16};
use crate::public_input::{account_high, account_low};
use vstd::arithmetic::div_mod::lemma_fundamental_div_mod;
use vstd::prelude::*;

verus! {

/// The half-open range `[range_from, range_to)` that the witness must lie in.
#[derive(Clone, Copy, Debug, PartialEq, Eq, Structural)]
pub struct RangePolicy {
    pub range_from: u64,
    pub range_to: u64,
}

impl RangePolicy {
    /// The range holds at least one value.
    pub open spec fn valid(self) -> bool {
        self.range_from < self.range_to
    }

    /// `v` lies in the range.
    pub open spec fn contains(self, v: int) -> bool {
        self.range_from <= v < self.range_to
    }
}

/// What the value cell `v` of a row holds.
#[derive(Clone, Copy, Debug, PartialEq, Eq, Structural)]
pub enum ValueCell {
    /// The private witness.
    Witness,
    /// A filler constant.
    Filler(u64),
}

/// What the auxiliary cell `a` of a row holds, and how it is constrained.
#[derive(Clone, Copy, Debug, PartialEq, Eq, Structural)]
pub enum AuxCell {
    /// A constant, fixed by the circuit.
    Constant(u64),
    /// A copy of the instance cell at this index.
    InstanceCopy(usize),
}

/// One gated row of the layout.
#[derive(Clone, Copy, Debug, PartialEq, Eq, Structural)]
pub struct GateRow {
    pub value: ValueCell,
    pub aux: AuxCell,
}

/// The prime modulus of the scalar field (pasta's `Fp`).
pub open spec fn field_modulus() -> int {
    0x40000000000000000000000000000000224698fc094cf91b992d30ed00000001int
}

/// `prod_{i = from}^{to - 1} (i - v)`, over the integers.
pub open spec fn range_poly(from: int, to: int, v: int) -> int
    decreases to - from,
{
    if from >= to {
        1
    } else {
        (from - v) * range_poly(from + 1, to, v)
    }
}

/// The three gated rows, in order.
pub open spec fn gate_layout(policy: RangePolicy) -> Seq<GateRow> {
    seq![
        GateRow { value: ValueCell::Witness, aux: AuxCell::Constant(policy.range_from) },
        GateRow { value: ValueCell::Filler(policy.range_from), aux: AuxCell::InstanceCopy(1) },
        GateRow { value: ValueCell::Filler(policy.range_from), aux: AuxCell::InstanceCopy(2) },
    ]
}

/// The public-input vector of a policy and an account, as field values.
pub open spec fn instance_of(policy: RangePolicy, account: Seq<u8>) -> Seq<int> {
    seq![policy.range_from as int, account_low(account) as int, account_high(account) as int]
}

/// The `(v, a)` cells an honest prover assigns to a row, given the witness and
/// the instance it proves against.
pub open spec fn honest_cells(row: GateRow, witness: int, instance: Seq<int>) -> (int, int) {
    let v = match row.value {
        ValueCell::Witness => witness,
        ValueCell::Filler(c) => c as int,
    };
    let a = match row.aux {
        AuxCell::Constant(c) => c as int,
        AuxCell::InstanceCopy(i) => instance[i as int],
    };
    (v, a)
}

/// The honest assignment of every row of `policy`'s layout.
pub open spec fn honest_assignment(policy: RangePolicy, witness: int, instance: Seq<int>) -> Seq<(int, int)> {
    gate_layout(policy).map_values(|row: GateRow| honest_cells(row, witness, instance))
}

/// `x` and `y` are one field element.
pub open spec fn field_eq(x: int, y: int) -> bool {
    (x - y) % field_modulus() == 0
}

/// The constraints on row `r` with cells `(v, a)`: the polynomial identity
/// and the constraint on `a`.
pub open spec fn row_holds(policy: RangePolicy, row: GateRow, cells: (int, int), instance: Seq<int>, r: int) -> bool {
    &&& field_eq(range_poly(policy.range_from as int, policy.range_to as int, cells.0) - cells.1 + instance[r], 0)
    &&& match row.aux {
        AuxCell::Constant(c) => field_eq(cells.1, c as int),
        AuxCell::InstanceCopy(i) => field_eq(cells.1, instance[i as int]),
    }
}

/// The circuit of `policy` accepts the assignment `cells` against `instance`.
pub open spec fn accepts(policy: RangePolicy, cells: Seq<(int, int)>, instance: Seq<int>) -> bool {
    &&& cells.len() == 3
    &&& instance.len() == 3
    &&& forall|r: int| 0 <= r < 3 ==> row_holds(policy, #[trigger] gate_layout(policy)[r], cells[r], instance, r)
}

/// Builds the gated rows of `policy`'s layout.
pub fn gate_rows(policy: RangePolicy) -> (r: Vec<GateRow>)
    ensures
        r@ == gate_layout(policy),
{
    let rows = vec![
        GateRow { value: ValueCell::Witness, aux: AuxCell::Constant(policy.range_from) },
        GateRow { value: ValueCell::Filler(policy.range_from), aux: AuxCell::InstanceCopy(1) },
        GateRow { value: ValueCell::Filler(policy.range_from), aux: AuxCell::InstanceCopy(2) },
    ];
    assert(rows@ =~= gate_layout(policy));
    rows
}

/// The constants `i` of the factors `(i - v)` of the range polynomial, in order.
pub fn gate_factors(policy: RangePolicy) -> (r: Vec<u64>)
    ensures
        r@.len() == if policy.valid() { policy.range_to - policy.range_from } else { 0 },
        forall|i: int| 0 <= i < r@.len() ==> r@[i] == policy.range_from + i,
{
    let mut out: Vec<u64> = Vec::new();
    let mut c: u64 = policy.range_from;
    while c < policy.range_to
        invariant
            policy.range_from <= c,
            c <= policy.range_to || c == policy.range_from,
            out@.len() == c - policy.range_from,
            forall|i: int| 0 <= i < out@.len() ==> out@[i] == policy.range_from + i,
        decreases policy.range_to - c,
    {
        out.push(c);
        c = c + 1;
    }
    out
}

/// The range polynomial vanishes exactly on the range.
pub proof fn lemma_range_poly_zero_iff(from: int, to: int, v: int)
    ensures
        (range_poly(from, to, v) == 0) <==> (from <= v < to),
    decreases to - from,
{
    if from < to {
        lemma_range_poly_zero_iff(from + 1, to, v);
        let rest = range_poly(from + 1, to, v);
        assert(((from - v) * rest == 0) <==> (from - v == 0 || rest == 0)) by (nonlinear_arith);
    }
}

/// A nonzero integer smaller in size than the modulus is a nonzero field element.
pub proof fn lemma_small_nonzero(d: int)
    requires
        d != 0,
        -field_modulus() < d < field_modulus(),
    ensures
        !field_eq(d, 0),
{
    let p = field_modulus();
    lemma_fundamental_div_mod(d, p);
    if d % p == 0 {
        let q = d / p;
        assert(d == p * q);
        assert(false) by (nonlinear_arith)
            requires
                d == p * q,
                d != 0,
                -p < d < p,
                p > 0,
        ;
    }
}

/// An account half is below `2^128`, so below the modulus.
proof fn lemma_half_bounds(account: Seq<u8>)
    requires
        account.len() == 32,
    ensures
        account_low(account) < 0x1_0000_0000_0000_0000_0000_0000_0000_0000nat,
        account_high(account) < 0x1_0000_0000_0000_0000_0000_0000_0000_0000nat,
{
    lemma_le_value_bound(account.subrange(0, 16));
    lemma_le_value_bound(account.subrange(16, 32));
    lemma_pow256_16();
}

/// Two accounts with equal halves are equal.
proof fn lemma_halves_determine_account(x: Seq<u8>, y: Seq<u8>)
    requires
        x.len() == 32,
        y.len() == 32,
        account_low(x) == account_low(y),
        account_high(x) == account_high(y),
    ensures
        x == y,
{
    lemma_le_value_injective(x.subrange(0, 16), y.subrange(0, 16));
    lemma_le_value_injective(x.subrange(16, 32), y.subrange(16, 32));
    assert(x =~= x.subrange(0, 16) + x.subrange(16, 32));
    assert(y =~= y.subrange(0, 16) + y.subrange(16, 32));
}

/// Completeness: for a witness in range, the honest assignment for any account
/// satisfies every constraint of the circuit against that account's public
/// input.
pub proof fn lemma_completeness(policy: RangePolicy, age: int, account: Seq<u8>)
    requires
        policy.valid(),
        policy.contains(age),
        account.len() == 32,
    ensures
        accepts(policy, honest_assignment(policy, age, instance_of(policy, account)), instance_of(policy, account)),
{
    let inst = instance_of(policy, account);
    let cells = honest_assignment(policy, age, inst);
    let from = policy.range_from as int;
    let to = policy.range_to as int;
    lemma_range_poly_zero_iff(from, to, age);
    lemma_range_poly_zero_iff(from, to, from);
    assert(0int % field_modulus() == 0);
    assert forall|r: int| 0 <= r < 3 implies row_holds(policy, #[trigger] gate_layout(policy)[r], cells[r], inst, r) by {
        assert(cells[r] == honest_cells(gate_layout(policy)[r], age, inst));
    }
}

/// Identity binding: the honest assignment made for account `x` fails against
/// the public input of any other account `y`, for every witness.
pub proof fn lemma_identity_binding(policy: RangePolicy, age: int, x: Seq<u8>, y: Seq<u8>)
    requires
        x.len() == 32,
        y.len() == 32,
        x != y,
    ensures
        !accepts(policy, honest_assignment(policy, age, instance_of(policy, x)), instance_of(policy, y)),
{
    lemma_account_copies_bind(policy, policy, age, x, y);
}

/// The copies of the account halves in rows 1 and 2 tie an honest assignment
/// made for account `x` to `x`, whatever policy it was made under.
proof fn lemma_account_copies_bind(prover: RangePolicy, verifier: RangePolicy, age: int, x: Seq<u8>, y: Seq<u8>)
    requires
        x.len() == 32,
        y.len() == 32,
        x != y,
    ensures
        !accepts(verifier, honest_assignment(prover, age, instance_of(prover, x)), instance_of(verifier, y)),
{
    let cells = honest_assignment(prover, age, instance_of(prover, x));
    let inst = instance_of(verifier, y);
    lemma_half_bounds(x);
    lemma_half_bounds(y);
    if account_low(x) != account_low(y) {
        lemma_small_nonzero(account_low(x) - account_low(y));
        assert(!row_holds(verifier, gate_layout(verifier)[1], cells[1], inst, 1));
    } else {
        if account_high(x) == account_high(y) {
            lemma_halves_determine_account(x, y);
        }
        lemma_small_nonzero(account_high(x) - account_high(y));
        assert(!row_holds(verifier, gate_layout(verifier)[2], cells[2], inst, 2));
    }
}

/// Policy binding: an honest assignment made under threshold `p1` fails
/// against the circuit of any other threshold `p2` with its public input, for
/// every witness; and, for a witness in `p1`'s range, it fails against `p1`'s
/// own circuit given the public input of `p2`.
pub proof fn lemma_policy_binding(p1: RangePolicy, p2: RangePolicy, age: int, account: Seq<u8>)
    requires
        p1.range_from != p2.range_from,
        account.len() == 32,
    ensures
        !accepts(p2, honest_assignment(p1, age, instance_of(p1, account)), instance_of(p2, account)),
        p1.contains(age) ==> !accepts(p1, honest_assignment(p1, age, instance_of(p1, account)), instance_of(p2, account)),
{
    let cells = honest_assignment(p1, age, instance_of(p1, account));
    let d = p1.range_from - p2.range_from;
    lemma_small_nonzero(d);
    lemma_small_nonzero(-d);
    assert(!row_holds(p2, gate_layout(p2)[0], cells[0], instance_of(p2, account), 0));
    if p1.contains(age) {
        lemma_range_poly_zero_iff(p1.range_from as int, p1.range_to as int, age);
        assert(!row_holds(p1, gate_layout(p1)[0], cells[0], instance_of(p2, account), 0));
    }
}

/// Non-malleability: an honest assignment made for one threshold and account
/// fails against the circuit and public input of another threshold or
/// account, whatever the two witnesses.
pub proof fn lemma_non_malleability(p1: RangePolicy, age1: int, x: Seq<u8>, p2: RangePolicy, y: Seq<u8>)
    requires
        x.len() == 32,
        y.len() == 32,
        p1.range_from != p2.range_from || x != y,
    ensures
        !accepts(p2, honest_assignment(p1, age1, instance_of(p1, x)), instance_of(p2, y)),
{
    if x != y {
        lemma_account_copies_bind(p1, p2, age1, x, y);
    } else {
        lemma_policy_binding(p1, p2, age1, x);
    }
}

} // verus!
