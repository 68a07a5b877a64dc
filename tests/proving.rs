//! End-to-end proofs with the proof system, over a circuit assembled from the
//! library's row layout and range factors.
use std::convert::Infallible;

use halo2_proofs::arithmetic::Field;
use halo2_proofs::circuit::{Layouter, SimpleFloorPlanner, Value};
use halo2_proofs::dev::MockProver;
use halo2_proofs::pasta::{EqAffine, Fp};
use halo2_proofs::plonk::{
    create_proof, keygen_pk, keygen_vk, verify_proof, Advice, Circuit, Column, ConstraintSystem,
    Constraints, Error, Expression, Fixed, Instance, ProvingKey, Selector, SingleVerifier,
    VerifyingKey,
};
use halo2_proofs::poly::commitment::Params;
use halo2_proofs::poly::Rotation;
use halo2_proofs::transcript::{Blake2bRead, Blake2bWrite, Challenge255};
use rand::rand_core::{TryRng, UnwrapErr};
use rand::rngs::SysRng;
use subscription_proofs::gate::{AuxCell, ValueCell};
use subscription_proofs::proofs::{MinAgeProof, CIRCUIT_MAX_K};
use subscription_proofs::setup::check_setup_blob;

#[derive(Clone, Debug)]
struct InRangeConfig {
    selector: Selector,
    value: Column<Advice>,
    a: Column<Advice>,
    q_a: Column<Fixed>,
    instance: Column<Instance>,
}

#[derive(Clone)]
struct InRangeCircuit<const RANGE_FROM: usize> {
    value: Value<Fp>,
}

impl<const RANGE_FROM: usize> Circuit<Fp> for InRangeCircuit<RANGE_FROM> {
    type Config = InRangeConfig;
    type FloorPlanner = SimpleFloorPlanner;

    fn without_witnesses(&self) -> Self {
        Self { value: Value::unknown() }
    }

    fn configure(meta: &mut ConstraintSystem<Fp>) -> InRangeConfig {
        let value = meta.advice_column();
        let instance = meta.instance_column();
        let selector = meta.selector();
        let a = meta.advice_column();
        let q_a = meta.fixed_column();
        let constants = meta.fixed_column();
        meta.enable_equality(value);
        meta.enable_equality(a);
        meta.enable_equality(instance);
        meta.enable_constant(constants);
        let factors = MinAgeProof::<RANGE_FROM>::new().factors();
        meta.create_gate("in range", |meta| {
            let s = meta.query_selector(selector);
            let v = meta.query_advice(value, Rotation::cur());
            let a = meta.query_advice(a, Rotation::cur());
            let q_a = meta.query_fixed(q_a);
            let instance = meta.query_instance(instance, Rotation::cur());
            let range = factors.iter().fold(Expression::Constant(Fp::ONE), |e, &i| {
                e * (Expression::Constant(Fp::from(i)) - v.clone())
            });
            Constraints::with_selector(s, [("in range", range + q_a * a + instance)])
        });
        InRangeConfig { selector, value, a, q_a, instance }
    }

    fn synthesize(&self, config: InRangeConfig, mut layouter: impl Layouter<Fp>) -> Result<(), Error> {
        let rows = MinAgeProof::<RANGE_FROM>::new().rows();
        layouter.assign_region(
            || "in range",
            |mut region| {
                for (offset, row) in rows.iter().enumerate() {
                    config.selector.enable(&mut region, offset)?;
                    let v = match row.value {
                        ValueCell::Witness => self.value,
                        ValueCell::Filler(c) => Value::known(Fp::from(c)),
                    };
                    region.assign_advice(|| "value", config.value, offset, || v)?;
                    match row.aux {
                        AuxCell::Constant(c) => {
                            region.assign_advice_from_constant(|| "a", config.a, offset, Fp::from(c))?;
                        }
                        AuxCell::InstanceCopy(i) => {
                            region.assign_advice_from_instance(|| "a", config.instance, i, config.a, offset)?;
                        }
                    }
                    region.assign_fixed(|| "q_a", config.q_a, offset, || Value::known(-Fp::ONE))?;
                }
                Ok(())
            },
        )
    }
}

/// A fixed-seed generator, so that two proofs can draw the same blinding.
struct CountingRng(u64);

impl TryRng for CountingRng {
    type Error = Infallible;

    fn try_next_u32(&mut self) -> Result<u32, Infallible> {
        Ok(self.try_next_u64()? as u32)
    }

    fn try_next_u64(&mut self) -> Result<u64, Infallible> {
        self.0 = self.0.wrapping_mul(6364136223846793005).wrapping_add(1442695040888963407);
        Ok(self.0)
    }

    fn try_fill_bytes(&mut self, dst: &mut [u8]) -> Result<(), Infallible> {
        for chunk in dst.chunks_mut(8) {
            let word = self.try_next_u64()?.to_le_bytes();
            chunk.copy_from_slice(&word[..chunk.len()]);
        }
        Ok(())
    }
}

struct TestSetup {
    params: Params<EqAffine>,
    pk: ProvingKey<EqAffine>,
}

fn keys_from_params<const R: usize>(params: Params<EqAffine>) -> TestSetup {
    let empty = InRangeCircuit::<R> { value: Value::unknown() };
    let vk = keygen_vk(&params, &empty).unwrap();
    let pk = keygen_pk(&params, vk, &empty).unwrap();
    TestSetup { params, pk }
}

fn generate_setup<const R: usize>() -> TestSetup {
    assert_eq!(MinAgeProof::<R>::new().check_setup_shape(), Ok(()));
    keys_from_params::<R>(Params::new(CIRCUIT_MAX_K))
}

fn prove_with<const R: usize>(setup: &TestSetup, age: u64, account: [u8; 32], rng: impl rand::Rng) -> Vec<u8> {
    let circuit = InRangeCircuit::<R> { value: Value::known(Fp::from(age)) };
    let instances = MinAgeProof::<R>::new().public_input(account);
    let mut transcript = Blake2bWrite::<_, _, Challenge255<_>>::init(vec![]);
    create_proof(&setup.params, &setup.pk, &[circuit], &[&[&instances]], rng, &mut transcript).unwrap();
    transcript.finalize()
}

fn prove<const R: usize>(setup: &TestSetup, age: u64, account: [u8; 32]) -> Vec<u8> {
    prove_with::<R>(setup, age, account, UnwrapErr(SysRng))
}

fn verifies(params: &Params<EqAffine>, vk: &VerifyingKey<EqAffine>, instances: [Fp; 3], proof: &[u8]) -> bool {
    let strategy = SingleVerifier::new(params);
    let mut transcript = Blake2bRead::<_, _, Challenge255<_>>::init(proof);
    verify_proof(params, vk, strategy, &[&[&instances]], &mut transcript).is_ok()
}

const ACCOUNT: [u8; 32] = [1u8; 32];
const INVALID_ACCOUNT: [u8; 32] = [2u8; 32];

fn proof_verifies_for_age<const R: usize>(setup: &TestSetup, age: u64, account: [u8; 32]) -> bool {
    let proof = prove::<R>(setup, age, account);
    verifies(&setup.params, setup.pk.get_vk(), MinAgeProof::<R>::new().public_input(account), &proof)
}

#[test]
fn test_valid_proof() {
    let setup = generate_setup::<18>();
    assert!(proof_verifies_for_age::<18>(&setup, 19, ACCOUNT));
}

#[test]
fn test_invalid_proof() {
    let setup = generate_setup::<18>();
    assert!(!proof_verifies_for_age::<18>(&setup, 6, ACCOUNT));
}

#[test]
fn boundary_ages() {
    let setup = generate_setup::<18>();
    assert!(proof_verifies_for_age::<18>(&setup, 18, ACCOUNT));
    assert!(proof_verifies_for_age::<18>(&setup, 119, ACCOUNT));
    assert!(!proof_verifies_for_age::<18>(&setup, 120, ACCOUNT));
    assert!(!proof_verifies_for_age::<18>(&setup, 17, ACCOUNT));
}

#[test]
fn completeness_over_several_accounts() {
    let setup = generate_setup::<18>();
    let mut other = [0u8; 32];
    other[0] = 0xff;
    other[31] = 0x80;
    for (age, account) in [(18, [0u8; 32]), (65, other), (119, [0xffu8; 32])] {
        assert!(proof_verifies_for_age::<18>(&setup, age, account));
    }
}

#[test]
fn test_invalid_account() {
    let setup = generate_setup::<18>();
    let proof = prove::<18>(&setup, 21, ACCOUNT);
    let instances = MinAgeProof::<18>::new().public_input(INVALID_ACCOUNT);
    assert!(!verifies(&setup.params, setup.pk.get_vk(), instances, &proof));
}

#[test]
fn account_differing_in_one_byte_fails() {
    let setup = generate_setup::<18>();
    let proof = prove::<18>(&setup, 30, ACCOUNT);
    let mut other = ACCOUNT;
    other[20] ^= 1;
    let instances = MinAgeProof::<18>::new().public_input(other);
    assert!(!verifies(&setup.params, setup.pk.get_vk(), instances, &proof));
}

#[test]
fn test_invalid_public_params() {
    let setup = generate_setup::<18>();
    let proof = prove::<18>(&setup, 21, ACCOUNT);
    let instances = MinAgeProof::<21>::new().public_input(ACCOUNT);
    assert!(!verifies(&setup.params, setup.pk.get_vk(), instances, &proof));
}

#[test]
fn proof_fails_against_other_policy_key() {
    let setup = generate_setup::<18>();
    let other = generate_setup::<21>();
    let proof = prove::<18>(&setup, 30, ACCOUNT);
    let instances = MinAgeProof::<21>::new().public_input(ACCOUNT);
    assert!(!verifies(&other.params, other.pk.get_vk(), instances, &proof));
}

#[test]
fn test_replaced_proof() {
    let setup = generate_setup::<18>();
    let another_setup = generate_setup::<21>();
    let another_proof = prove::<21>(&another_setup, 32, ACCOUNT);
    let instances = MinAgeProof::<18>::new().public_input(ACCOUNT);
    assert!(!verifies(&setup.params, setup.pk.get_vk(), instances, &another_proof));
}

#[test]
fn test_serialization() {
    let setup = generate_setup::<18>();
    let mut bytes = vec![];
    setup.params.write(&mut bytes).unwrap();
    assert_eq!(check_setup_blob(&bytes, CIRCUIT_MAX_K), Ok(()));
    let loaded = keys_from_params::<18>(Params::read(&mut bytes.as_slice()).unwrap());

    assert_eq!(setup.params.k(), loaded.params.k());
    let mut again = vec![];
    loaded.params.write(&mut again).unwrap();
    assert_eq!(bytes, again);
    assert_eq!(
        format!("{:?}", setup.pk.get_vk().pinned()),
        format!("{:?}", loaded.pk.get_vk().pinned())
    );
    let first = prove_with::<18>(&setup, 40, ACCOUNT, UnwrapErr(CountingRng(7)));
    let second = prove_with::<18>(&loaded, 40, ACCOUNT, UnwrapErr(CountingRng(7)));
    assert_eq!(first, second);
}

fn mock_verifies<const R: usize>(age: u64, account: [u8; 32]) -> bool {
    let circuit = InRangeCircuit::<R> { value: Value::known(Fp::from(age)) };
    let instances = MinAgeProof::<R>::new().public_input(account).to_vec();
    let prover = MockProver::run(CIRCUIT_MAX_K, &circuit, vec![instances]).unwrap();
    prover.verify().is_ok()
}

#[test]
fn in_range_test_in_range() {
    for i in 18..119 {
        assert!(mock_verifies::<18>(i, [2u8; 32]));
    }
}

#[test]
fn in_range_test_out_of_range() {
    for i in 1..17 {
        assert!(!mock_verifies::<18>(i, [2u8; 32]));
    }
}

#[test]
fn in_range1_test_in_range() {
    for i in 18..119 {
        assert!(mock_verifies::<18>(i, [1u8; 32]));
    }
}

#[test]
fn in_range1_test_out_of_range() {
    for i in 2..17 {
        assert!(!mock_verifies::<18>(i, [1u8; 32]));
    }
}
