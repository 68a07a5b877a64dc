//! Shape checks and byte framing of the trusted setup.
//!
//! The prover's setup blob is the commitment parameters as the proof system
//! writes them, which begin with the size parameter `k` as four little-endian
//! bytes. The verification-key publication blob is `k` as four little-endian
//! bytes followed by the verifying key's bytes.
use crate::bytes::{le_bytes, le_value, pow256, push_le_bytes};
use crate::gate::RangePolicy;
use vstd::prelude::*;

verus! {

/// The commitment parameters support sizes `k` below this bound.
pub const K_LIMIT: u32 = 32;

/// Bytes of the `k` header.
pub const K_BYTES: usize = 4;

/// A shape that no setup can be made for.
#[derive(Clone, Copy, Debug, PartialEq, Eq, Structural)]
pub enum ConfigError {
    /// `range_from >= range_to`: the range is empty.
    EmptyRange { range_from: u64, range_to: u64 },
    /// `k` is beyond what the commitment parameters support.
    SizeTooLarge { k: u32 },
}

/// Setup bytes that cannot be loaded.
#[derive(Clone, Copy, Debug, PartialEq, Eq, Structural)]
pub enum SetupBlobError {
    /// Fewer bytes than the `k` header.
    Truncated { len: usize },
    /// The blob was made for another circuit size.
    ShapeMismatch { expected: u32, found: u32 },
}

/// The `k` that a blob's header holds.
pub open spec fn header_k(blob: Seq<u8>) -> nat {
    le_value(blob.subrange(0, K_BYTES as int))
}

/// The verification-key publication blob of `k` and the key's bytes.
pub open spec fn vk_blob_of(k: u32, vk_bytes: Seq<u8>) -> Seq<u8> {
    le_bytes(k as nat, K_BYTES as nat) + vk_bytes
}

/// Checks that a setup of `k` can be made for `policy`.
pub fn check_shape(policy: RangePolicy, k: u32) -> (r: Result<(), ConfigError>)
    ensures
        r is Ok <==> policy.valid() && k < K_LIMIT,
        !policy.valid() ==> r == Err::<(), ConfigError>(
            ConfigError::EmptyRange { range_from: policy.range_from, range_to: policy.range_to },
        ),
        policy.valid() && k >= K_LIMIT ==> r == Err::<(), ConfigError>(ConfigError::SizeTooLarge { k }),
{
    if policy.range_from >= policy.range_to {
        Err(ConfigError::EmptyRange { range_from: policy.range_from, range_to: policy.range_to })
    } else if k >= K_LIMIT {
        Err(ConfigError::SizeTooLarge { k })
    } else {
        Ok(())
    }
}

/// Reads the `k` header of a blob.
pub fn read_k(blob: &[u8]) -> (r: Result<u32, SetupBlobError>)
    ensures
        r is Err <==> blob@.len() < K_BYTES,
        r is Err ==> r == Err::<u32, SetupBlobError>(SetupBlobError::Truncated { len: blob@.len() as usize }),
        r is Ok ==> r->Ok_0 as nat == header_k(blob@),
{
    if blob.len() < K_BYTES {
        return Err(SetupBlobError::Truncated { len: blob.len() });
    }
    let k: u32 = blob[0] as u32 + 256 * (blob[1] as u32 + 256 * (blob[2] as u32 + 256 * blob[3] as u32));
    proof {
        let h = blob@.subrange(0, 4);
        reveal_with_fuel(le_value, 5);
        assert(h.subrange(1, 4) =~= blob@.subrange(1, 4));
        assert(h.subrange(1, 4).subrange(1, 3) =~= blob@.subrange(2, 4));
        assert(h.subrange(1, 4).subrange(1, 3).subrange(1, 2) =~= blob@.subrange(3, 4));
        assert(h.subrange(1, 4).subrange(1, 3).subrange(1, 2).subrange(1, 1) =~= Seq::<u8>::empty());
    }
    Ok(k)
}

/// Checks that setup bytes are long enough to hold their header and were made
/// for circuit size `expected_k`.
pub fn check_setup_blob(blob: &[u8], expected_k: u32) -> (r: Result<(), SetupBlobError>)
    ensures
        r is Ok <==> blob@.len() >= K_BYTES && header_k(blob@) == expected_k,
        blob@.len() < K_BYTES ==> r == Err::<(), SetupBlobError>(SetupBlobError::Truncated { len: blob@.len() as usize }),
        blob@.len() >= K_BYTES && header_k(blob@) != expected_k ==> r == Err::<(), SetupBlobError>(
            SetupBlobError::ShapeMismatch { expected: expected_k, found: header_k(blob@) as u32 },
        ),
{
    let k = read_k(blob)?;
    if k != expected_k {
        return Err(SetupBlobError::ShapeMismatch { expected: expected_k, found: k });
    }
    Ok(())
}

/// Builds the verification-key publication blob of `k` and the key's bytes.
pub fn vk_blob(k: u32, vk_bytes: &[u8]) -> (r: Vec<u8>)
    ensures
        r@ == vk_blob_of(k, vk_bytes@),
{
    let mut out: Vec<u8> = Vec::new();
    push_le_bytes(&mut out, k as u128, K_BYTES);
    let mut i: usize = 0;
    while i < vk_bytes.len()
        invariant
            i <= vk_bytes@.len(),
            out@ == le_bytes(k as nat, K_BYTES as nat) + vk_bytes@.subrange(0, i as int),
        decreases vk_bytes@.len() - i,
    {
        out.push(vk_bytes[i]);
        i = i + 1;
        assert(out@ =~= le_bytes(k as nat, K_BYTES as nat) + vk_bytes@.subrange(0, i as int));
    }
    assert(vk_bytes@.subrange(0, vk_bytes@.len() as int) =~= vk_bytes@);
    out
}

/// Splits a verification-key publication blob into `k` and the key's bytes.
pub fn split_vk_blob(blob: &[u8]) -> (r: Option<(u32, Vec<u8>)>)
    ensures
        r is None <==> blob@.len() < K_BYTES,
        r is Some ==> r->Some_0.0 as nat == header_k(blob@),
        r is Some ==> r->Some_0.1@ == blob@.subrange(K_BYTES as int, blob@.len() as int),
{
    let k = match read_k(blob) {
        Ok(k) => k,
        Err(_) => {
            return None;
        },
    };
    let mut body: Vec<u8> = Vec::new();
    let mut i: usize = K_BYTES;
    while i < blob.len()
        invariant
            K_BYTES <= i <= blob@.len(),
            body@ == blob@.subrange(K_BYTES as int, i as int),
        decreases blob@.len() - i,
    {
        body.push(blob[i]);
        i = i + 1;
        assert(body@ =~= blob@.subrange(K_BYTES as int, i as int));
    }
    Some((k, body))
}

/// Little-endian bytes read back give the value they were made from.
pub proof fn lemma_le_round_trip(v: nat, n: nat)
    requires
        v < pow256(n),
    ensures
        le_bytes(v, n).len() == n,
        le_value(le_bytes(v, n)) == v,
    decreases n,
{
    if n > 0 {
        let q = v / 256;
        assert(q < pow256((n - 1) as nat)) by (nonlinear_arith)
            requires
                v < 256 * pow256((n - 1) as nat),
                q == v / 256,
        ;
        lemma_le_round_trip(q, (n - 1) as nat);
        let s = le_bytes(v, n);
        assert(s.subrange(1, s.len() as int) =~= le_bytes(q, (n - 1) as nat));
    }
}

/// Splitting the publication blob of `k` and some key bytes gives back `k`
/// and those bytes.
pub proof fn lemma_vk_blob_round_trip(k: u32, vk_bytes: Seq<u8>)
    ensures
        vk_blob_of(k, vk_bytes).len() >= K_BYTES,
        header_k(vk_blob_of(k, vk_bytes)) == k,
        vk_blob_of(k, vk_bytes).subrange(K_BYTES as int, vk_blob_of(k, vk_bytes).len() as int) == vk_bytes,
{
    reveal_with_fuel(pow256, 5);
    lemma_le_round_trip(k as nat, K_BYTES as nat);
    let blob = vk_blob_of(k, vk_bytes);
    assert(blob.subrange(0, K_BYTES as int) =~= le_bytes(k as nat, K_BYTES as nat));
    assert(blob.subrange(K_BYTES as int, blob.len() as int) =~= vk_bytes);
}

} // verus!
