//! The minimum-age proof engine: a fixed range policy `[RANGE_FROM, RANGE_TO)`
//! and the values its prover and verifier must agree on.
use crate::gate::{gate_factors, gate_layout, gate_rows, GateRow, RangePolicy};
use crate::public_input::{
    account_high, account_low, field_from_u128, public_input_bytes, public_input_fields,
    public_input_of, public_input_values, wire_form, Account,
};
use crate::setup::{check_setup_blob, check_shape, header_k, ConfigError, SetupBlobError, K_BYTES};
use halo2_proofs::pasta::Fp;
use vstd::prelude::*;

verus! {

/// Exclusive upper end of the age range.
pub const RANGE_TO: u64 = 120;

/// Circuit size parameter: the circuit has `2^CIRCUIT_MAX_K` rows.
pub const CIRCUIT_MAX_K: u32 = 4;

/// Proof that an age is at least `RANGE_FROM` (and below `RANGE_TO`), bound to
/// an account.
#[derive(Debug, Clone, Copy)]
pub struct MinAgeProof<const RANGE_FROM: usize> {}

impl<const RANGE_FROM: usize> MinAgeProof<RANGE_FROM> {
    /// The policy of this engine.
    pub open spec fn spec_policy() -> RangePolicy {
        RangePolicy { range_from: RANGE_FROM as u64, range_to: RANGE_TO }
    }

    pub fn new() -> Self {
        Self {  }
    }

    /// The range policy `[RANGE_FROM, RANGE_TO)`.
    pub fn policy(&self) -> (r: RangePolicy)
        ensures
            r == Self::spec_policy(),
    {
        RangePolicy { range_from: RANGE_FROM as u64, range_to: RANGE_TO }
    }

    /// Checks that the policy and circuit size admit a setup.
    pub fn check_setup_shape(&self) -> (r: Result<(), ConfigError>)
        ensures
            r is Ok <==> Self::spec_policy().valid(),
            !Self::spec_policy().valid() ==> r == Err::<(), ConfigError>(
                ConfigError::EmptyRange { range_from: RANGE_FROM as u64, range_to: RANGE_TO },
            ),
    {
        check_shape(self.policy(), CIRCUIT_MAX_K)
    }

    /// Checks that setup bytes were made for this engine's circuit size.
    pub fn check_setup_bytes(&self, buffer: &[u8]) -> (r: Result<(), SetupBlobError>)
        ensures
            r is Ok <==> buffer@.len() >= K_BYTES && header_k(buffer@) == CIRCUIT_MAX_K,
            buffer@.len() < K_BYTES ==> r == Err::<(), SetupBlobError>(SetupBlobError::Truncated { len: buffer@.len() as usize }),
            buffer@.len() >= K_BYTES && header_k(buffer@) != CIRCUIT_MAX_K ==> r == Err::<(), SetupBlobError>(
                SetupBlobError::ShapeMismatch { expected: CIRCUIT_MAX_K, found: header_k(buffer@) as u32 },
            ),
    {
        check_setup_blob(buffer, CIRCUIT_MAX_K)
    }

    /// The gated rows of this engine's circuit.
    pub fn rows(&self) -> (r: Vec<GateRow>)
        ensures
            r@ == gate_layout(Self::spec_policy()),
    {
        gate_rows(self.policy())
    }

    /// The constants `i` of the range polynomial's factors `(i - v)`.
    pub fn factors(&self) -> (r: Vec<u64>)
        ensures
            r@.len() == if Self::spec_policy().valid() { RANGE_TO - RANGE_FROM } else { 0 },
            forall|i: int| 0 <= i < r@.len() ==> r@[i] == RANGE_FROM + i,
    {
        gate_factors(self.policy())
    }

    /// The public-input vector `[RANGE_FROM, account low, account high]`.
    pub fn public_input_values(&self, account: Account) -> (r: [u128; 3])
        ensures
            r@.map_values(|x: u128| x as nat) == public_input_of(RANGE_FROM as nat, account@),
    {
        public_input_values(RANGE_FROM as u128, &account)
    }

    /// The public-input vector as field elements.
    pub fn public_input(&self, account: Account) -> (r: [Fp; 3])
        ensures
            r@[0] == field_from_u128(RANGE_FROM as u128),
            r@[1] == field_from_u128(account_low(account@) as u128),
            r@[2] == field_from_u128(account_high(account@) as u128),
    {
        let values = self.public_input_values(account);
        assert(values@.map_values(|x: u128| x as nat)[1] == values@[1] as nat);
        assert(values@.map_values(|x: u128| x as nat)[2] == values@[2] as nat);
        public_input_fields(&values)
    }

    /// The public-input vector in its wire form, as a ledger hands it to the
    /// verifier.
    pub fn public_input_bytes(&self, account: Account) -> (r: Vec<u8>)
        ensures
            r@ == wire_form(public_input_of(RANGE_FROM as nat, account@)),
    {
        let values = self.public_input_values(account);
        public_input_bytes(&values)
    }
}

} // verus!
