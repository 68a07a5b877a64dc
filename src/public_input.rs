//! The public-input vector of a proof: the policy threshold and the two
//! 128-bit halves of the account, in that order, and its wire form.
use crate::bytes::{le_bytes, le_u128_at, le_value, push_le_bytes};
use halo2_proofs::pasta::Fp;
use vstd::prelude::*;

verus! {

/// An on-chain account identifier.
pub type Account = [u8; 32];

/// Number of bytes of one field element in the wire form.
pub const FIELD_BYTES: usize = 32;

#[verifier::external_type_specification]
#[verifier::external_body]
pub struct ExFp(Fp);

/// The low 128 bits of an account: its first 16 bytes, little-endian.
pub open spec fn account_low(account: Seq<u8>) -> nat {
    le_value(account.subrange(0, 16))
}

/// The high 128 bits of an account: its last 16 bytes, little-endian.
pub open spec fn account_high(account: Seq<u8>) -> nat {
    le_value(account.subrange(16, 32))
}

/// The public-input vector `[threshold, account low, account high]`.
pub open spec fn public_input_of(threshold: nat, account: Seq<u8>) -> Seq<nat> {
    seq![threshold, account_low(account), account_high(account)]
}

/// The wire form: each element as 32 little-endian bytes, in vector order.
pub open spec fn wire_form(values: Seq<nat>) -> Seq<u8>
    decreases values.len(),
{
    if values.len() == 0 {
        Seq::empty()
    } else {
        le_bytes(values[0], FIELD_BYTES as nat) + wire_form(values.subrange(1, values.len() as int))
    }
}

/// The field element that `PrimeField::from_u128` gives for `x`.
pub uninterp spec fn field_from_u128(x: u128) -> Fp;

/// Relies on `PrimeField::from_u128` of pasta's `Fp`: the element `x`, which is
/// below the modulus.
#[verifier::external_body]
fn fp_from_u128(x: u128) -> (r: Fp)
    ensures
        r == field_from_u128(x),
{
    <Fp as halo2_proofs::pasta::group::ff::PrimeField>::from_u128(x)
}

/// Splits an account into its two 128-bit halves, low half first.
pub fn account_halves(account: &Account) -> (r: (u128, u128))
    ensures
        r.0 as nat == account_low(account@),
        r.1 as nat == account_high(account@),
{
    (le_u128_at(account, 0), le_u128_at(account, 16))
}

/// The public-input vector for a policy threshold and an account.
pub fn public_input_values(threshold: u128, account: &Account) -> (r: [u128; 3])
    ensures
        r@.map_values(|x: u128| x as nat) == public_input_of(threshold as nat, account@),
{
    let (low, high) = account_halves(account);
    let r = [threshold, low, high];
    assert(r@.map_values(|x: u128| x as nat) =~= public_input_of(threshold as nat, account@));
    r
}

/// The public-input vector as field elements, in the same order.
pub fn public_input_fields(values: &[u128; 3]) -> (r: [Fp; 3])
    ensures
        forall|i: int| 0 <= i < 3 ==> r@[i] == field_from_u128(values@[i]),
{
    [fp_from_u128(values[0]), fp_from_u128(values[1]), fp_from_u128(values[2])]
}

/// Encodes a public-input vector in its wire form.
pub fn public_input_bytes(values: &[u128; 3]) -> (r: Vec<u8>)
    ensures
        r@ == wire_form(values@.map_values(|x: u128| x as nat)),
        r@.len() == 3 * FIELD_BYTES,
{
    let mut out: Vec<u8> = Vec::new();
    push_le_bytes(&mut out, values[0], FIELD_BYTES);
    push_le_bytes(&mut out, values[1], FIELD_BYTES);
    push_le_bytes(&mut out, values[2], FIELD_BYTES);
    proof {
        let vs = values@.map_values(|x: u128| x as nat);
        let b0 = le_bytes(vs[0], 32);
        let b1 = le_bytes(vs[1], 32);
        let b2 = le_bytes(vs[2], 32);
        lemma_le_bytes_len(vs[0], 32);
        lemma_le_bytes_len(vs[1], 32);
        lemma_le_bytes_len(vs[2], 32);
        let t1 = vs.subrange(1, 3);
        let t2 = t1.subrange(1, 2);
        let t3 = t2.subrange(1, 1);
        assert(t3.len() == 0);
        assert(wire_form(t3) =~= Seq::<u8>::empty());
        assert(wire_form(t2) =~= b2) by {
            assert(t2[0] == vs[2]);
        }
        assert(wire_form(t1) =~= b1 + b2) by {
            assert(t1[0] == vs[1]);
        }
        assert(wire_form(vs) =~= b0 + (b1 + b2));
        assert(out@ =~= b0 + (b1 + b2));
    }
    out
}

/// `le_bytes(v, n)` has `n` bytes.
pub proof fn lemma_le_bytes_len(v: nat, n: nat)
    ensures
        le_bytes(v, n).len() == n,
    decreases n,
{
    if n > 0 {
        lemma_le_bytes_len(v / 256, (n - 1) as nat);
    }
}

} // verus!
