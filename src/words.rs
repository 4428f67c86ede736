//! Conversions between integers and little-endian byte sequences.
use vstd::prelude::*;

verus! {

/// 256 raised to the power `n`.
pub open spec fn pow256(n: nat) -> nat
    decreases n,
{
    if n == 0 {
        1
    } else {
        256 * pow256((n - 1) as nat)
    }
}

/// The value of a little-endian byte sequence: the first byte is the least
/// significant.
pub open spec fn le_value(s: Seq<u8>) -> nat
    decreases s.len(),
{
    if s.len() == 0 {
        0
    } else {
        s[0] as nat + 256 * le_value(s.drop_first())
    }
}

/// The `len` least significant bytes of `v`, least significant first.
pub open spec fn le_bytes(v: nat, len: nat) -> Seq<u8>
    decreases len,
{
    if len == 0 {
        Seq::empty()
    } else {
        seq![(v % 256) as u8] + le_bytes(v / 256, (len - 1) as nat)
    }
}

/// A little-endian byte sequence of length `n` holds a value below `256^n`.
pub proof fn lemma_le_value_bound(s: Seq<u8>)
    ensures
        le_value(s) < pow256(s.len()),
    decreases s.len(),
{
    if s.len() > 0 {
        lemma_le_value_bound(s.drop_first());
        let r = le_value(s.drop_first());
        let p = pow256((s.len() - 1) as nat);
        assert(s[0] as nat + 256 * r < 256 * p) by (nonlinear_arith)
            requires
                r < p,
                s[0] < 256,
        ;
    }
}

/// `le_bytes` always yields exactly `len` bytes.
pub proof fn lemma_le_bytes_len(v: nat, len: nat)
    ensures
        le_bytes(v, len).len() == len,
    decreases len,
{
    if len > 0 {
        lemma_le_bytes_len(v / 256, (len - 1) as nat);
    }
}

/// Reads a little-endian group of at most four bytes as one word.
pub fn bin_to_dec(binary: &[u8]) -> (r: u32)
    requires
        binary@.len() <= 4,
    ensures
        r as nat == le_value(binary@),
{
    let n = binary.len();
    let mut acc: u64 = 0;
    let mut j: usize = n;
    proof {
        reveal_with_fuel(pow256, 5);
        assert(binary@.subrange(n as int, n as int) =~= Seq::<u8>::empty());
    }
    while j > 0
        invariant
            n == binary@.len(),
            n <= 4,
            j <= n,
            acc as nat == le_value(binary@.subrange(j as int, n as int)),
            acc < pow256((n - j) as nat),
            pow256(4) == 0x1_0000_0000,
        decreases j,
    {
        let ghost tail = binary@.subrange(j as int, n as int);
        let ghost p = pow256((n - j) as nat);
        j = j - 1;
        let b = binary[j];
        proof {
            let s = binary@.subrange(j as int, n as int);
            assert(s.drop_first() =~= tail);
            assert(pow256((n - j) as nat) == 256 * p);
            assert(n - j <= 4);
            assert(acc * 256 + b < 256 * p) by (nonlinear_arith)
                requires
                    acc < p,
                    b < 256,
            ;
            assert(p <= pow256(3)) by {
                reveal_with_fuel(pow256, 5);
            }
        }
        acc = acc * 256 + b as u64;
    }
    proof {
        assert(binary@.subrange(0, n as int) =~= binary@);
        assert(pow256(n as nat) <= pow256(4)) by {
            reveal_with_fuel(pow256, 5);
        }
    }
    acc as u32
}

/// Writes the `len` least significant bytes of `dec`, least significant
/// first.
pub fn dec_to_bin(dec: u64, len: usize) -> (r: Vec<u8>)
    requires
        len <= 8,
    ensures
        r@ == le_bytes(dec as nat, len as nat),
        r@.len() == len,
{
    let mut r: Vec<u8> = Vec::new();
    let mut x: u64 = dec;
    let mut i: usize = 0;
    while i < len
        invariant
            i <= len,
            r@ + le_bytes(x as nat, (len - i) as nat) == le_bytes(dec as nat, len as nat),
            r@.len() == i,
        decreases len - i,
    {
        let ghost before = r@;
        r.push((x % 256) as u8);
        proof {
            assert(le_bytes(x as nat, (len - i) as nat) == seq![(x % 256) as u8] + le_bytes(
                (x / 256) as nat,
                (len - i - 1) as nat,
            ));
            assert(r@ + le_bytes((x / 256) as nat, (len - i - 1) as nat) =~= before + le_bytes(
                x as nat,
                (len - i) as nat,
            ));
        }
        x = x / 256;
        i = i + 1;
    }
    proof {
        assert(le_bytes(x as nat, 0) =~= Seq::<u8>::empty());
        assert(r@ =~= r@ + le_bytes(x as nat, 0));
    }
    r
}

} // verus!
