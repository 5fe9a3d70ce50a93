use vstd::prelude::*;

verus! {

/// 256 to the power `k`.
pub open spec fn pow256(k: nat) -> nat
    decreases k,
{
    if k == 0 {
        1
    } else {
        256 * pow256((k - 1) as nat)
    }
}

/// The `n` least significant bytes of `v`, least significant first.
pub open spec fn le_bytes(v: nat, n: nat) -> Seq<u8>
    decreases n,
{
    if n == 0 {
        seq![]
    } else {
        seq![(v % 256) as u8] + le_bytes(v / 256, (n - 1) as nat)
    }
}

/// The number that bytes hold, least significant byte first.
pub open spec fn le_value(b: Seq<u8>) -> nat
    decreases b.len(),
{
    if b.len() == 0 {
        0
    } else {
        b[0] as nat + 256 * le_value(b.drop_first())
    }
}

pub proof fn lemma_pow256_values()
    ensures
        pow256(1) == 0x100,
        pow256(2) == 0x1_0000,
        pow256(4) == 0x1_0000_0000,
        pow256(8) == 0x1_0000_0000_0000_0000,
{
    reveal_with_fuel(pow256, 9);
}

pub proof fn lemma_pow256_monotone(a: nat, b: nat)
    requires
        a <= b,
    ensures
        pow256(a) <= pow256(b),
    decreases b,
{
    if a < b {
        lemma_pow256_monotone(a, (b - 1) as nat);
    }
}

pub proof fn lemma_le_bytes_len(v: nat, n: nat)
    ensures
        le_bytes(v, n).len() == n,
    decreases n,
{
    if n > 0 {
        lemma_le_bytes_len(v / 256, (n - 1) as nat);
    }
}

pub proof fn lemma_le_value_bound(b: Seq<u8>)
    ensures
        le_value(b) < pow256(b.len()),
    decreases b.len(),
{
    if b.len() > 0 {
        lemma_le_value_bound(b.drop_first());
        let r = le_value(b.drop_first());
        let p = pow256((b.len() - 1) as nat);
        assert(b[0] as nat + 256 * r < 256 * p) by (nonlinear_arith)
            requires
                r < p,
                b[0] < 256,
        ;
    }
}

/// Bytes written for a number that fits give the number back.
pub proof fn lemma_le_roundtrip(v: nat, n: nat)
    requires
        v < pow256(n),
    ensures
        le_value(le_bytes(v, n)) == v,
    decreases n,
{
    if n == 0 {
    } else {
        let p = pow256((n - 1) as nat);
        assert(v / 256 < p) by (nonlinear_arith)
            requires
                v < 256 * p,
        ;
        lemma_le_roundtrip(v / 256, (n - 1) as nat);
        let b = le_bytes(v, n);
        assert(b.drop_first() =~= le_bytes(v / 256, (n - 1) as nat));
        assert(v == v % 256 + 256 * (v / 256)) by (nonlinear_arith);
    }
}

/// Bytes give back the bytes they were read from.
pub proof fn lemma_value_le_roundtrip(b: Seq<u8>)
    ensures
        le_bytes(le_value(b), b.len()) == b,
    decreases b.len(),
{
    if b.len() > 0 {
        lemma_value_le_roundtrip(b.drop_first());
        let r = le_value(b.drop_first());
        let v = le_value(b);
        assert(v % 256 == b[0] as nat && v / 256 == r) by (nonlinear_arith)
            requires
                v == b[0] as nat + 256 * r,
                b[0] < 256,
        ;
        assert(le_bytes(v, b.len()) =~= b);
    }
}

/// Appends the `n` least significant bytes of `v`, least significant first.
pub fn push_le(out: &mut Vec<u8>, v: u64, n: usize)
    requires
        n <= 8,
    ensures
        final(out)@ == old(out)@ + le_bytes(v as nat, n as nat),
{
    let mut x: u64 = v;
    let mut i: usize = 0;
    while i < n
        invariant
            i <= n,
            old(out)@ + le_bytes(v as nat, n as nat) == out@ + le_bytes(x as nat, (n - i) as nat),
        decreases n - i,
    {
        let ghost before = out@;
        out.push((x % 256) as u8);
        assert(le_bytes(x as nat, (n - i) as nat) == seq![(x % 256) as u8] + le_bytes(
            (x / 256) as nat,
            (n - i - 1) as nat,
        ));
        assert(before + le_bytes(x as nat, (n - i) as nat) == out@ + le_bytes(
            (x / 256) as nat,
            (n - i - 1) as nat,
        ));
        x = x / 256;
        i = i + 1;
    }
    assert(le_bytes(x as nat, 0) =~= Seq::<u8>::empty());
    assert(out@ + le_bytes(x as nat, 0) =~= out@);
}

/// Reads `n` bytes at `offset` as a number, least significant byte first.
pub fn read_le(bytes: &[u8], offset: usize, n: usize) -> (r: u64)
    requires
        n <= 8,
        offset + n <= bytes@.len(),
    ensures
        r as nat == le_value(bytes@.subrange(offset as int, offset + n)),
{
    let mut v: u64 = 0;
    let mut j: usize = n;
    let len = bytes.len();
    proof {
        lemma_pow256_values();
    }
    while j > 0
        invariant
            j <= n <= 8,
            offset + n <= bytes@.len(),
            len == bytes@.len(),
            v as nat == le_value(bytes@.subrange(offset + j, offset + n)),
            v < pow256((n - j) as nat),
            pow256(8) == 0x1_0000_0000_0000_0000,
        decreases j,
    {
        j = j - 1;
        let b = bytes[offset + j];
        let ghost p = pow256((n - j - 1) as nat);
        proof {
            lemma_pow256_monotone((n - j) as nat, 8);
            assert(v * 256 + b < 256 * p) by (nonlinear_arith)
                requires
                    v < p,
                    b < 256,
            ;
            assert(bytes@.subrange(offset + j, offset + n).drop_first() =~= bytes@.subrange(
                offset + j + 1,
                offset + n,
            ));
        }
        v = v * 256 + b as u64;
    }
    v
}

} // verus!
