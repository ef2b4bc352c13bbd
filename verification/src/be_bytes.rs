//! Big-endian byte strings and the natural numbers they denote.

use vstd::arithmetic::div_mod::lemma_breakdown;
use vstd::prelude::*;

verus! {

/// `256^n`.
pub open spec fn pow256(n: nat) -> nat
    decreases n,
{
    if n == 0 {
        1
    } else {
        256 * pow256((n - 1) as nat)
    }
}

/// The number that the byte string `s` denotes when read big-endian.
pub open spec fn be_to_nat(s: Seq<u8>) -> nat
    decreases s.len(),
{
    if s.len() == 0 {
        0
    } else {
        be_to_nat(s.drop_last()) * 256 + s.last() as nat
    }
}

/// The `len` low-order base-256 digits of `n`, most significant first.
pub open spec fn nat_to_be(n: nat, len: nat) -> Seq<u8>
    decreases len,
{
    if len == 0 {
        Seq::empty()
    } else {
        nat_to_be(n / 256, (len - 1) as nat).push((n % 256) as u8)
    }
}

pub proof fn lemma_pow256_positive(n: nat)
    ensures
        pow256(n) > 0,
    decreases n,
{
    if n > 0 {
        lemma_pow256_positive((n - 1) as nat);
    }
}

pub proof fn lemma_nat_to_be_len(n: nat, len: nat)
    ensures
        nat_to_be(n, len).len() == len,
    decreases len,
{
    if len > 0 {
        lemma_nat_to_be_len(n / 256, (len - 1) as nat);
    }
}

/// A byte string of length `k` denotes a number below `256^k`.
pub proof fn lemma_be_to_nat_bound(s: Seq<u8>)
    ensures
        be_to_nat(s) < pow256(s.len()),
    decreases s.len(),
{
    if s.len() > 0 {
        lemma_be_to_nat_bound(s.drop_last());
    }
}

/// Encoding the number a byte string denotes, at the string's own length,
/// gives the string back.
pub proof fn lemma_nat_to_be_of_be_to_nat(s: Seq<u8>)
    ensures
        nat_to_be(be_to_nat(s), s.len()) == s,
    decreases s.len(),
{
    if s.len() > 0 {
        let init = s.drop_last();
        lemma_nat_to_be_of_be_to_nat(init);
        let n = be_to_nat(s);
        assert(n / 256 == be_to_nat(init));
        assert(n % 256 == s.last() as nat);
        assert(nat_to_be(n, s.len()) =~= s);
    } else {
        assert(nat_to_be(be_to_nat(s), s.len()) =~= s);
    }
}

/// Decoding the `len`-byte encoding of `n` gives `n` reduced modulo `256^len`.
pub proof fn lemma_be_to_nat_of_nat_to_be(n: nat, len: nat)
    ensures
        be_to_nat(nat_to_be(n, len)) == n % pow256(len),
    decreases len,
{
    if len > 0 {
        let rest = (len - 1) as nat;
        let s = nat_to_be(n, len);
        assert(s.drop_last() =~= nat_to_be(n / 256, rest));
        lemma_be_to_nat_of_nat_to_be(n / 256, rest);
        lemma_pow256_positive(rest);
        lemma_breakdown(n as int, 256, pow256(rest) as int);
    }
}

/// Reading a concatenation: the left part is shifted by the length of the right part.
pub proof fn lemma_be_to_nat_concat(a: Seq<u8>, b: Seq<u8>)
    ensures
        be_to_nat(a + b) == be_to_nat(a) * pow256(b.len()) + be_to_nat(b),
    decreases b.len(),
{
    if b.len() == 0 {
        assert(a + b =~= a);
        assert(pow256(0) == 1);
    } else {
        let init = b.drop_last();
        assert((a + b).drop_last() =~= a + init);
        lemma_be_to_nat_concat(a, init);
        let x = be_to_nat(a);
        let p = pow256(init.len());
        let y = be_to_nat(init);
        assert((x * p + y) * 256 == x * (256 * p) + y * 256) by (nonlinear_arith);
        assert((a + b).last() == b.last());
        assert(be_to_nat(a + b) == be_to_nat(a + init) * 256 + b.last() as nat);
        assert(pow256(b.len()) == 256 * p);
    }
}

/// A byte string denotes zero exactly when all of its bytes are zero.
pub proof fn lemma_be_to_nat_zero(s: Seq<u8>)
    ensures
        be_to_nat(s) == 0 <==> forall|i: int| 0 <= i < s.len() ==> s[i] == 0,
    decreases s.len(),
{
    if s.len() > 0 {
        let init = s.drop_last();
        lemma_be_to_nat_zero(init);
        if be_to_nat(s) == 0 {
            assert forall|i: int| 0 <= i < s.len() implies s[i] == 0 by {
                if i < s.len() - 1 {
                    assert(s[i] == init[i]);
                }
            }
        }
        if forall|i: int| 0 <= i < s.len() ==> s[i] == 0 {
            assert forall|i: int| 0 <= i < init.len() implies init[i] == 0 by {
                assert(init[i] == s[i]);
            }
        }
    }
}

/// Two byte strings of one length that denote the same number are the same string.
pub proof fn lemma_be_to_nat_injective(a: Seq<u8>, b: Seq<u8>)
    requires
        a.len() == b.len(),
        be_to_nat(a) == be_to_nat(b),
    ensures
        a == b,
{
    lemma_nat_to_be_of_be_to_nat(a);
    lemma_nat_to_be_of_be_to_nat(b);
}

/// Reading a suffix: its first byte weighs `256` to the number of bytes after it.
pub proof fn lemma_be_to_nat_suffix(s: Seq<u8>, i: int)
    requires
        0 <= i < s.len(),
    ensures
        be_to_nat(s.subrange(i, s.len() as int)) == s[i] as nat * pow256((s.len() - i - 1) as nat)
            + be_to_nat(s.subrange(i + 1, s.len() as int)),
{
    let head = seq![s[i]];
    let rest = s.subrange(i + 1, s.len() as int);
    assert(s.subrange(i, s.len() as int) =~= head + rest);
    lemma_be_to_nat_concat(head, rest);
    assert(head.drop_last().len() == 0);
    assert(be_to_nat(head.drop_last()) == 0);
    assert(head.last() == s[i]);
    assert(be_to_nat(head) == s[i] as nat);
    assert(pow256(rest.len()) == pow256((s.len() - i - 1) as nat));
}

/// Whether two byte arrays hold the same bytes.
pub fn bytes_equal<const N: usize>(a: &[u8; N], b: &[u8; N]) -> (same: bool)
    ensures
        same == (a@ == b@),
{
    let mut i: usize = 0;
    while i < N
        invariant
            i <= N,
            forall|j: int| 0 <= j < i ==> a@[j] == b@[j],
        decreases N - i,
    {
        if a[i] != b[i] {
            return false;
        }
        i += 1;
    }
    assert(a@ =~= b@);
    true
}

/// Whether every byte of the array is zero.
pub fn bytes_all_zero<const N: usize>(a: &[u8; N]) -> (zero: bool)
    ensures
        zero == (forall|j: int| 0 <= j < N ==> a@[j] == 0),
{
    let mut i: usize = 0;
    while i < N
        invariant
            i <= N,
            forall|j: int| 0 <= j < i ==> a@[j] == 0,
        decreases N - i,
    {
        if a[i] != 0 {
            return false;
        }
        i += 1;
    }
    true
}

} // verus!
