//! Fixed-width little-endian integers, as byte sequences.
use vstd::prelude::*;

verus! {

/// `256` raised to the power `n`.
pub open spec fn pow256(n: nat) -> nat
    decreases n,
{
    if n == 0 {
        1
    } else {
        256 * pow256((n - 1) as nat)
    }
}

/// The `n` little-endian bytes of `x` (only the low `8 * n` bits of `x` are kept).
pub open spec fn le_bytes(x: nat, n: nat) -> Seq<u8>
    decreases n,
{
    if n == 0 {
        Seq::empty()
    } else {
        seq![(x % 256) as u8] + le_bytes(x / 256, (n - 1) as nat)
    }
}

/// The number whose little-endian bytes are `b`.
pub open spec fn le_value(b: Seq<u8>) -> nat
    decreases b.len(),
{
    if b.len() == 0 {
        0
    } else {
        b[0] as nat + 256 * le_value(b.drop_first())
    }
}

pub proof fn lemma_le_bytes_len(x: nat, n: nat)
    ensures
        le_bytes(x, n).len() == n,
    decreases n,
{
    if n > 0 {
        lemma_le_bytes_len(x / 256, (n - 1) as nat);
    }
}

pub proof fn lemma_pow256_positive(n: nat)
    ensures
        pow256(n) >= 1,
    decreases n,
{
    if n > 0 {
        lemma_pow256_positive((n - 1) as nat);
    }
}

/// Sixteen bytes hold exactly the values of a `u128`.
pub proof fn lemma_pow256_le16(n: nat)
    requires
        n <= 16,
    ensures
        pow256(n) <= pow256(16),
        pow256(16) == u128::MAX + 1,
    decreases 16 - n,
{
    reveal_with_fuel(pow256, 17);
    if n < 16 {
        lemma_pow256_le16(n + 1);
        lemma_pow256_positive(n);
    }
}

/// A value read from `b` is below `256` to the power of its length.
pub proof fn lemma_le_value_bound(b: Seq<u8>)
    ensures
        le_value(b) < pow256(b.len()),
    decreases b.len(),
{
    if b.len() > 0 {
        lemma_le_value_bound(b.drop_first());
        let r = le_value(b.drop_first());
        let p = pow256((b.len() - 1) as nat);
        assert(b[0] as nat + 256 * r < 256 * p) by (nonlinear_arith)
            requires
                r < p,
                b[0] < 256,
        ;
    }
}

/// Reading the bytes of `x` gives back `x`, when `x` fits in `n` bytes.
pub proof fn lemma_le_value_of_bytes(x: nat, n: nat)
    requires
        x < pow256(n),
    ensures
        le_value(le_bytes(x, n)) == x,
    decreases n,
{
    if n > 0 {
        let p = pow256((n - 1) as nat);
        assert(x / 256 < p) by (nonlinear_arith)
            requires
                x < 256 * p,
        ;
        lemma_le_value_of_bytes(x / 256, (n - 1) as nat);
        let b = le_bytes(x, n);
        assert(b.drop_first() =~= le_bytes(x / 256, (n - 1) as nat));
        assert(x == x % 256 + 256 * (x / 256)) by (nonlinear_arith);
    }
}

/// Writing the value read from `b` gives back `b`.
pub proof fn lemma_le_bytes_of_value(b: Seq<u8>)
    ensures
        le_bytes(le_value(b), b.len()) == b,
    decreases b.len(),
{
    if b.len() > 0 {
        let r = le_value(b.drop_first());
        lemma_le_bytes_of_value(b.drop_first());
        let v = b[0] as nat + 256 * r;
        assert(v % 256 == b[0] as nat && v / 256 == r) by (nonlinear_arith)
            requires
                v == b[0] as nat + 256 * r,
                b[0] < 256,
        ;
        assert(le_bytes(v, b.len()) =~= b);
    }
}

/// Two values below `256^n` with the same `n` bytes are equal.
pub proof fn lemma_le_bytes_injective(x: nat, y: nat, n: nat)
    requires
        x < pow256(n),
        y < pow256(n),
        le_bytes(x, n) == le_bytes(y, n),
    ensures
        x == y,
{
    lemma_le_value_of_bytes(x, n);
    lemma_le_value_of_bytes(y, n);
}

/// Appends the `n` little-endian bytes of `x` to `out`.
pub fn push_le(out: &mut Vec<u8>, x: u128, n: usize)
    requires
        n <= 16,
    ensures
        final(out)@ == old(out)@ + le_bytes(x as nat, n as nat),
{
    let ghost start = out@;
    let mut v: u128 = x;
    let mut k: usize = 0;
    while k < n
        invariant
            k <= n,
            start + le_bytes(x as nat, n as nat) == out@ + le_bytes(v as nat, (n - k) as nat),
        decreases n - k,
    {
        let ghost rest = le_bytes(v as nat / 256, (n - k - 1) as nat);
        assert(le_bytes(v as nat, (n - k) as nat) == seq![(v as nat % 256) as u8] + rest);
        let ghost before = out@;
        out.push((v % 256) as u8);
        assert(out@ + rest =~= before + (seq![(v as nat % 256) as u8] + rest));
        v = v / 256;
        k = k + 1;
    }
    assert(out@ + le_bytes(v as nat, 0) =~= out@);
}

/// Reads the number stored little-endian in `buf[start .. start + n]`.
pub fn read_le(buf: &[u8], start: usize, n: usize) -> (r: u128)
    requires
        n <= 16,
        start + n <= buf@.len(),
    ensures
        r as nat == le_value(buf@.subrange(start as int, start + n)),
{
    let len = buf.len();
    let mut acc: u128 = 0;
    let mut k: usize = n;
    while k > 0
        invariant
            k <= n <= 16,
            start + n <= buf@.len() == len,
            acc as nat == le_value(buf@.subrange(start + k, start + n)),
        decreases k,
    {
        let ghost tail = buf@.subrange(start + k, start + n);
        let ghost s = buf@.subrange(start + k - 1, start + n);
        assert(s.drop_first() =~= tail);
        proof {
            lemma_le_value_bound(s);
            lemma_pow256_le16((n - k + 1) as nat);
        }
        let b = buf[start + (k - 1)];
        acc = acc * 256 + b as u128;
        k = k - 1;
    }
    acc
}

} // verus!
