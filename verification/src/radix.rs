//! Natural numbers as big-endian byte strings.
//!
//! Two readings connect numbers and bytes: `be_value` gives the number that a
//! byte string denotes, and `be_minimal` gives the shortest byte string that
//! denotes a number. The lemmas below show that they are inverse to each
//! other on strings without a leading zero byte.

use vstd::prelude::*;

verus! {

/// 256 to the power `n`.
pub open spec fn pow256(n: nat) -> nat
    decreases n,
{
    if n == 0 {
        1
    } else {
        256 * pow256((n - 1) as nat)
    }
}

/// The number denoted by `s`, read as big-endian base-256 digits.
pub open spec fn be_value(s: Seq<u8>) -> nat
    decreases s.len(),
{
    if s.len() == 0 {
        0
    } else {
        256 * be_value(s.drop_last()) + s.last() as nat
    }
}

/// The shortest big-endian byte string that denotes `n`; empty for zero.
pub open spec fn be_minimal(n: nat) -> Seq<u8>
    decreases n,
{
    if n == 0 {
        Seq::empty()
    } else {
        be_minimal(n / 256).push((n % 256) as u8)
    }
}

/// Whether `s` carries no leading zero byte.
pub open spec fn no_leading_zero(s: Seq<u8>) -> bool {
    s.len() == 0 || s[0] != 0
}

/// A string of `n` bytes denotes a number below 256 to the `n`.
pub proof fn lemma_be_value_bound(s: Seq<u8>)
    ensures
        be_value(s) < pow256(s.len()),
    decreases s.len(),
{
    if s.len() > 0 {
        lemma_be_value_bound(s.drop_last());
    }
}

/// Two strings of one length that denote the same number are the same.
pub proof fn lemma_be_value_injective(s: Seq<u8>, t: Seq<u8>)
    requires
        s.len() == t.len(),
        be_value(s) == be_value(t),
    ensures
        s == t,
    decreases s.len(),
{
    if s.len() > 0 {
        lemma_be_value_injective(s.drop_last(), t.drop_last());
        assert(t =~= t.drop_last().push(t.last()));
    }
}

/// Reading a string with one more byte in front adds that byte, weighted by
/// the length of the rest.
pub proof fn lemma_be_value_prepend(b: u8, s: Seq<u8>)
    ensures
        be_value(seq![b] + s) == b as nat * pow256(s.len()) + be_value(s),
    decreases s.len(),
{
    let t = seq![b] + s;
    if s.len() == 0 {
        assert(t.drop_last() =~= Seq::<u8>::empty());
        assert(be_value(Seq::<u8>::empty()) == 0);
        assert(b as nat * 1 == b as nat);
    } else {
        let init = s.drop_last();
        let p = pow256(init.len());
        assert(t.drop_last() =~= seq![b] + init);
        lemma_be_value_prepend(b, init);
        assert(256 * (b as nat * p) == b as nat * (256 * p)) by (nonlinear_arith);
    }
}

/// Leading zero bytes do not change the number denoted.
pub proof fn lemma_be_value_skip_zeros(s: Seq<u8>, k: int)
    requires
        0 <= k <= s.len(),
        forall|i: int| 0 <= i < k ==> s[i] == 0,
    ensures
        be_value(s) == be_value(s.skip(k)),
    decreases k,
{
    if k == 0 {
        assert(s.skip(0) =~= s);
    } else {
        let rest = s.skip(1);
        assert(s =~= seq![s[0]] + rest);
        lemma_be_value_prepend(s[0], rest);
        lemma_be_value_skip_zeros(rest, k - 1);
        assert(rest.skip(k - 1) =~= s.skip(k));
    }
}

/// A string whose first byte is not zero denotes a positive number.
pub proof fn lemma_be_value_positive(s: Seq<u8>)
    requires
        s.len() > 0,
        s[0] != 0,
    ensures
        be_value(s) > 0,
    decreases s.len(),
{
    if s.len() > 1 {
        lemma_be_value_positive(s.drop_last());
    }
}

/// The shortest string for `n` denotes `n`.
pub proof fn lemma_be_minimal_value(n: nat)
    ensures
        be_value(be_minimal(n)) == n,
    decreases n,
{
    if n > 0 {
        lemma_be_minimal_value(n / 256);
        assert(be_minimal(n).drop_last() =~= be_minimal(n / 256));
    }
}

/// The shortest string for `n` has no leading zero byte.
pub proof fn lemma_be_minimal_canonical(n: nat)
    ensures
        no_leading_zero(be_minimal(n)),
    decreases n,
{
    if n > 0 {
        lemma_be_minimal_canonical(n / 256);
    }
}

/// A string without a leading zero byte is the shortest string for the
/// number that it denotes.
pub proof fn lemma_be_minimal_of_value(s: Seq<u8>)
    requires
        no_leading_zero(s),
    ensures
        be_minimal(be_value(s)) == s,
    decreases s.len(),
{
    if s.len() > 0 {
        lemma_be_value_positive(s);
        lemma_be_minimal_of_value(s.drop_last());
    }
}

/// A number below 256 to the `k` needs at most `k` bytes.
pub proof fn lemma_be_minimal_len(n: nat, k: nat)
    requires
        n < pow256(k),
    ensures
        be_minimal(n).len() <= k,
    decreases n,
{
    if n > 0 {
        lemma_be_minimal_len(n / 256, (k - 1) as nat);
    }
}

/// 256 to the 8 is 2 to the 64.
pub proof fn lemma_pow256_8()
    ensures
        pow256(8) == 0x1_0000_0000_0000_0000,
{
    reveal_with_fuel(pow256, 9);
}

} // verus!
