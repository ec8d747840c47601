//! Unsigned integers of 256 bits.

use crate::radix::{
    be_minimal, be_value, lemma_be_minimal_of_value, lemma_be_value_bound,
    lemma_be_value_injective, lemma_be_value_prepend, lemma_be_value_skip_zeros, lemma_pow256_8,
    pow256,
};
use vstd::prelude::*;

verus! {

/// An unsigned integer of 256 bits, held as its 32 big-endian bytes.
#[derive(Clone, Copy, Debug, PartialEq, Eq)]
pub struct U256 {
    pub be_bytes: [u8; 32],
}

/// Two to the power 256: the first number that a `U256` cannot hold.
pub open spec fn u256_limit() -> nat {
    0x1_0000_0000_0000_0000_0000_0000_0000_0000_0000_0000_0000_0000_0000_0000_0000_0000nat
}

impl View for U256 {
    type V = nat;

    /// The number that the value stands for.
    open spec fn view(&self) -> nat {
        be_value(self.be_bytes@)
    }
}

/// 256 to the 32 is two to the 256.
pub proof fn lemma_pow256_32()
    ensures
        pow256(32) == u256_limit(),
{
    lemma_pow256_8();
    assert(pow256(16) == 256 * (256 * (256 * (256 * (256 * (256 * (256 * (256 * pow256(8))))))))) by {
        reveal_with_fuel(pow256, 9);
    }
    assert(pow256(24) == 256 * (256 * (256 * (256 * (256 * (256 * (256 * (256 * pow256(16))))))))) by {
        reveal_with_fuel(pow256, 9);
    }
    assert(pow256(32) == 256 * (256 * (256 * (256 * (256 * (256 * (256 * (256 * pow256(24))))))))) by {
        reveal_with_fuel(pow256, 9);
    }
}

/// Every `U256` stands for a number below two to the 256.
pub proof fn lemma_u256_bound(v: U256)
    ensures
        v@ < u256_limit(),
{
    lemma_be_value_bound(v.be_bytes@);
    lemma_pow256_32();
}

/// Two `U256` that stand for the same number are the same value.
pub proof fn lemma_u256_equal_by_value(a: U256, b: U256)
    requires
        a@ == b@,
    ensures
        a == b,
{
    lemma_be_value_injective(a.be_bytes@, b.be_bytes@);
    assert(a.be_bytes =~= b.be_bytes);
}

/// One step of a carry chain that runs from the last byte to the first:
/// with `t == 256 * carry_out + low`, the digit `low` joins the result and
/// `carry_out` moves on.
proof fn lemma_carry_step(
    src: Seq<u8>,
    dst: Seq<u8>,
    i: int,
    factor: nat,
    carry_in: nat,
    carry_out: nat,
    total: nat,
)
    requires
        0 <= i < src.len(),
        src.len() == dst.len(),
        src[i] as nat * factor + carry_in == 256 * carry_out + dst[i] as nat,
        be_value(dst.skip(i + 1)) + carry_in * pow256((src.len() - i - 1) as nat) == factor
            * be_value(src.skip(i + 1)) + total,
    ensures
        be_value(dst.skip(i)) + carry_out * pow256((src.len() - i) as nat) == factor * be_value(
            src.skip(i),
        ) + total,
{
    let k = (src.len() - i - 1) as nat;
    let p = pow256(k);
    assert(src.skip(i) =~= seq![src[i]] + src.skip(i + 1));
    assert(dst.skip(i) =~= seq![dst[i]] + dst.skip(i + 1));
    lemma_be_value_prepend(src[i], src.skip(i + 1));
    lemma_be_value_prepend(dst[i], dst.skip(i + 1));
    let s = src[i] as nat;
    let d = dst[i] as nat;
    let vs = be_value(src.skip(i + 1));
    let vd = be_value(dst.skip(i + 1));
    assert(d * p + vd + carry_out * (256 * p) == factor * (s * p + vs) + total)
        by (nonlinear_arith)
        requires
            s * factor + carry_in == 256 * carry_out + d,
            vd + carry_in * p == factor * vs + total,
    ;
}

impl U256 {
    /// The number zero.
    pub fn zero() -> (r: U256)
        ensures
            r@ == 0,
    {
        let r = U256 { be_bytes: [0u8; 32] };
        proof {
            lemma_be_value_skip_zeros(r.be_bytes@, 32);
        }
        r
    }

    /// The number `n`.
    pub fn from_u64(n: u64) -> (r: U256)
        ensures
            r@ == n,
    {
        let mut out = [0u8; 32];
        let mut rest: u64 = n;
        let mut i: usize = 32;
        proof {
            assert(pow256(0) == 1);
            assert(rest as nat * pow256(0) == rest as nat);
        }
        while i > 0
            invariant
                i <= 32,
                be_value(out@.skip(i as int)) + rest as nat * pow256((32 - i) as nat) == n,
            decreases i,
        {
            i -= 1;
            let ghost before = out@;
            out[i] = (rest % 256) as u8;
            proof {
                assert(out@.skip(i + 1) =~= before.skip(i + 1));
                let k = (32 - i - 1) as nat;
                let p = pow256(k);
                assert(out@.skip(i as int) =~= seq![out@[i as int]] + out@.skip(i + 1));
                lemma_be_value_prepend(out@[i as int], out@.skip(i + 1));
                let d = (rest % 256) as nat;
                let q = (rest / 256) as nat;
                let r0 = rest as nat;
                assert(d * p + q * (256 * p) == r0 * p) by (nonlinear_arith)
                    requires
                        r0 == 256 * q + d,
                ;
            }
            rest = rest / 256;
        }
        proof {
            assert(out@.skip(0) =~= out@);
            lemma_pow256_32();
            let r0 = rest as nat;
            let p = pow256(32);
            assert(r0 == 0) by (nonlinear_arith)
                requires
                    r0 * p <= n,
                    p > n,
            ;
        }
        U256 { be_bytes: out }
    }

    /// Ten times the number plus `digit`, or `None` where that needs more
    /// than 256 bits.
    pub fn mul10_add(&self, digit: u8) -> (r: Option<U256>)
        ensures
            match r {
                Some(v) => v@ == 10 * self@ + digit,
                None => 10 * self@ + digit >= u256_limit(),
            },
    {
        let mut out = [0u8; 32];
        let mut carry: u16 = digit as u16;
        let mut i: usize = 32;
        proof {
            assert(pow256(0) == 1);
            assert(carry as nat * pow256(0) == carry as nat);
        }
        while i > 0
            invariant
                i <= 32,
                carry <= 255,
                be_value(out@.skip(i as int)) + carry as nat * pow256((32 - i) as nat) == 10
                    * be_value(self.be_bytes@.skip(i as int)) + digit,
            decreases i,
        {
            i -= 1;
            let t: u16 = self.be_bytes[i] as u16 * 10 + carry;
            let ghost before = out@;
            out[i] = (t % 256) as u8;
            proof {
                assert(out@.skip(i + 1) =~= before.skip(i + 1));
                lemma_carry_step(
                    self.be_bytes@,
                    out@,
                    i as int,
                    10,
                    carry as nat,
                    (t / 256) as nat,
                    digit as nat,
                );
            }
            carry = t / 256;
        }
        proof {
            assert(out@.skip(0) =~= out@);
            assert(self.be_bytes@.skip(0) =~= self.be_bytes@);
            lemma_pow256_32();
            lemma_be_value_bound(out@);
            let c = carry as nat;
            let p = pow256(32);
            if c > 0 {
                assert(c * p >= p) by (nonlinear_arith)
                    requires
                        c >= 1,
                ;
            }
        }
        if carry == 0 {
            Some(U256 { be_bytes: out })
        } else {
            None
        }
    }

    /// The shortest big-endian byte string for the number: the 32 bytes
    /// without their leading zero bytes, and no byte at all for zero.
    pub fn minimal_be_bytes(&self) -> (r: Vec<u8>)
        ensures
            r@ == be_minimal(self@),
            r@.len() <= 32,
    {
        let mut start: usize = 0;
        while start < 32 && self.be_bytes[start] == 0
            invariant
                start <= 32,
                forall|j: int| 0 <= j < start ==> self.be_bytes@[j] == 0,
            decreases 32 - start,
        {
            start += 1;
        }
        let mut out: Vec<u8> = Vec::new();
        let mut j: usize = start;
        while j < 32
            invariant
                start <= j <= 32,
                out@ == self.be_bytes@.subrange(start as int, j as int),
            decreases 32 - j,
        {
            out.push(self.be_bytes[j]);
            j += 1;
        }
        proof {
            let tail = self.be_bytes@.skip(start as int);
            lemma_be_value_skip_zeros(self.be_bytes@, start as int);
            lemma_be_minimal_of_value(tail);
        }
        out
    }
}

} // verus!
