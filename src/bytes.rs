//! Little-endian integer encodings of bytes, with their mathematical meaning.
use vstd::arithmetic::div_mod::lemma_fundamental_div_mod_converse;
use vstd::prelude::*;

verus! {

/// `256^n`.
pub open spec fn pow256(n: nat) -> nat
    decreases n,
{
    if n == 0 {
        1
    } else {
        256 * pow256((n - 1) as nat)
    }
}

/// The number that `s` denotes when read as a little-endian integer.
pub open spec fn le_value(s: Seq<u8>) -> nat
    decreases s.len(),
{
    if s.len() == 0 {
        0
    } else {
        s[0] as nat + 256 * le_value(s.subrange(1, s.len() as int))
    }
}

/// The `n` low-order bytes of `v`, least significant first.
pub open spec fn le_bytes(v: nat, n: nat) -> Seq<u8>
    decreases n,
{
    if n == 0 {
        Seq::empty()
    } else {
        seq![(v % 256) as u8] + le_bytes(v / 256, (n - 1) as nat)
    }
}

pub proof fn lemma_pow256_positive(n: nat)
    ensures
        pow256(n) >= 1,
    decreases n,
{
    if n > 0 {
        lemma_pow256_positive((n - 1) as nat);
    }
}

/// A little-endian value of `n` bytes is below `256^n`.
pub proof fn lemma_le_value_bound(s: Seq<u8>)
    ensures
        le_value(s) < pow256(s.len()),
    decreases s.len(),
{
    if s.len() > 0 {
        let rest = s.subrange(1, s.len() as int);
        lemma_le_value_bound(rest);
        let r = le_value(rest);
        let p = pow256(rest.len());
        assert(s[0] as nat + 256 * r < 256 * p) by (nonlinear_arith)
            requires
                s[0] < 256,
                r < p,
        ;
    }
}

/// Two byte strings of one length with one little-endian value are equal.
pub proof fn lemma_le_value_injective(s: Seq<u8>, t: Seq<u8>)
    requires
        s.len() == t.len(),
        le_value(s) == le_value(t),
    ensures
        s == t,
    decreases s.len(),
{
    if s.len() > 0 {
        let rs = s.subrange(1, s.len() as int);
        let rt = t.subrange(1, t.len() as int);
        let x = le_value(s) as int;
        lemma_fundamental_div_mod_converse(x, 256, le_value(rs) as int, s[0] as int);
        lemma_fundamental_div_mod_converse(x, 256, le_value(rt) as int, t[0] as int);
        lemma_le_value_injective(rs, rt);
        assert(s =~= seq![s[0]] + rs);
        assert(t =~= seq![t[0]] + rt);
    }
}

/// Reads the 16 bytes `bytes[start..start + 16]` as a little-endian `u128`.
pub fn le_u128_at(bytes: &[u8; 32], start: usize) -> (r: u128)
    requires
        start <= 16,
    ensures
        r as nat == le_value(bytes@.subrange(start as int, start + 16)),
{
    let end: usize = start + 16;
    let mut i: usize = end;
    let mut acc: u128 = 0;
    proof {
        assert(bytes@.subrange(end as int, end as int) =~= Seq::<u8>::empty());
    }
    while i > start
        invariant
            start <= i <= end,
            end == start + 16,
            start <= 16,
            acc as nat == le_value(bytes@.subrange(i as int, end as int)),
        decreases i,
    {
        let ghost tail = bytes@.subrange(i as int, end as int);
        i = i - 1;
        let ghost longer = bytes@.subrange(i as int, end as int);
        proof {
            assert(longer.subrange(1, longer.len() as int) =~= tail);
            lemma_le_value_bound(tail);
            let p = pow256(tail.len());
            lemma_pow256_16();
            assert(tail.len() <= 15);
            lemma_pow256_le_16(tail.len());
            assert(bytes@[i as int] + 256 * le_value(tail) < 0x1_0000_0000_0000_0000_0000_0000_0000_0000nat)
                by (nonlinear_arith)
                requires
                    bytes@[i as int] < 256,
                    le_value(tail) < p,
                    256 * p <= 0x1_0000_0000_0000_0000_0000_0000_0000_0000nat,
            ;
        }
        acc = bytes[i] as u128 + 256 * acc;
    }
    acc
}

/// `256^16` is `2^128`, one past the largest `u128`.
pub proof fn lemma_pow256_16()
    ensures
        pow256(16) == 0x1_0000_0000_0000_0000_0000_0000_0000_0000nat,
{
    reveal_with_fuel(pow256, 17);
}

/// `256 * 256^n` stays within `256^16` for `n < 16`.
proof fn lemma_pow256_le_16(n: nat)
    requires
        n <= 15,
    ensures
        256 * pow256(n) <= pow256(16),
    decreases 15 - n,
{
    if n < 15 {
        lemma_pow256_le_16(n + 1);
        lemma_pow256_positive(n);
        assert(pow256(n + 1) == 256 * pow256(n));
    }
}

/// Appends the `n` low-order bytes of `v` to `out`, least significant first.
pub fn push_le_bytes(out: &mut Vec<u8>, v: u128, n: usize)
    ensures
        final(out)@ == old(out)@ + le_bytes(v as nat, n as nat),
{
    let mut x: u128 = v;
    let mut i: usize = 0;
    while i < n
        invariant
            i <= n,
            out@ + le_bytes(x as nat, (n - i) as nat) == old(out)@ + le_bytes(v as nat, n as nat),
        decreases n - i,
    {
        let ghost before = out@;
        let byte: u8 = (x % 256) as u8;
        out.push(byte);
        proof {
            assert(le_bytes(x as nat, (n - i) as nat) == seq![byte] + le_bytes((x / 256) as nat, (n - i - 1) as nat));
            assert(out@ + le_bytes((x / 256) as nat, (n - i - 1) as nat) =~= before + le_bytes(x as nat, (n - i) as nat));
        }
        x = x / 256;
        i = i + 1;
    }
    proof {
        assert(le_bytes(x as nat, 0) =~= Seq::<u8>::empty());
        assert(out@ + Seq::<u8>::empty() =~= out@);
    }
}

} // verus!
