//! Padding and length append: turn the input into whole 64-byte blocks.
use vstd::prelude::*;
use crate::words::{dec_to_bin, le_bytes, lemma_le_bytes_len};

verus! {

/// Size of one block, in bytes (512 bits).
pub const BLOCK_BYTES: usize = 64;

/// The number of zero bytes that follow the `0x80` byte for an input of
/// `n` bytes, so that the padded length is 56 modulo 64 (448 modulo 512 in
/// bits).
pub open spec fn zero_count(n: nat) -> nat {
    ((55 + 64 - n % 64) % 64) as nat
}

/// The input followed by a single set bit (the byte `0x80`) and zero bits up
/// to a length of 448 bits modulo 512.
pub open spec fn padded(input: Seq<u8>) -> Seq<u8> {
    input + seq![0x80u8] + Seq::new(zero_count(input.len()), |i: int| 0u8)
}

/// The original length in bits, modulo 2^64, as eight little-endian bytes.
pub open spec fn length_field(input: Seq<u8>) -> Seq<u8> {
    le_bytes(((input.len() * 8) % 0x1_0000_0000_0000_0000) as nat, 8)
}

/// The complete padded message that the compression function consumes.
pub open spec fn message(input: Seq<u8>) -> Seq<u8> {
    padded(input) + length_field(input)
}

/// The padded message is a positive whole number of blocks, one more than the
/// whole blocks of the input when the remainder is under 56 bytes, two more
/// otherwise.
pub proof fn lemma_message_len(input: Seq<u8>)
    ensures
        message(input).len() == input.len() + 1 + zero_count(input.len()) + 8,
        message(input).len() % 64 == 0,
        message(input).len() > input.len(),
        input.len() % 64 < 56 ==> message(input).len() == (input.len() / 64 + 1) * 64,
        input.len() % 64 >= 56 ==> message(input).len() == (input.len() / 64 + 2) * 64,
{
    lemma_le_bytes_len(((input.len() * 8) % 0x1_0000_0000_0000_0000) as nat, 8);
    lemma_zero_count(input.len());
    let n = input.len();
    let q = n % 64;
    assert(n == 64 * (n / 64) + q);
}

/// The padded length is 56 modulo 64, and the zero bytes are fewer than a
/// block.
pub proof fn lemma_zero_count(n: nat)
    ensures
        (n + 1 + zero_count(n)) % 64 == 56,
        zero_count(n) < 64,
        n % 64 == 55 ==> zero_count(n) == 0,
        n % 64 == 0 ==> zero_count(n) == 55,
{
    let q = n % 64;
    assert(n == 64 * (n / 64) + q);
    if q <= 55 {
        assert(zero_count(n) == 55 - q);
        assert(n + 1 + zero_count(n) == 64 * (n / 64) + 56);
    } else {
        assert(zero_count(n) == 119 - q);
        assert(n + 1 + zero_count(n) == 64 * (n / 64 + 1) + 56);
    }
}

/// Appends padding to `input`: one set bit, then zero bits until the length is
/// 448 modulo 512 bits. An input already at 440 bits modulo 512 gets the set
/// bit alone.
pub fn step_one(input: &[u8]) -> (r: Vec<u8>)
    requires
        input@.len() + 64 <= usize::MAX,
    ensures
        r@ == padded(input@),
        r@.len() % 64 == 56,
{
    let n = input.len();
    let mut r: Vec<u8> = Vec::new();
    let mut i: usize = 0;
    while i < n
        invariant
            i <= n,
            n == input@.len(),
            r@ == input@.subrange(0, i as int),
        decreases n - i,
    {
        r.push(input[i]);
        i = i + 1;
        proof {
            assert(r@ =~= input@.subrange(0, i as int));
        }
    }
    r.push(0x80);
    let ghost target = n + 1 + zero_count(n as nat);
    proof {
        lemma_zero_count(n as nat);
    }
    while r.len() % BLOCK_BYTES != 56
        invariant
            n == input@.len(),
            n + 64 <= usize::MAX,
            n + 1 <= r@.len() <= target,
            target % 64 == 56,
            target == n + 1 + zero_count(n as nat),
            zero_count(n as nat) < 64,
            r@ == input@ + seq![0x80u8] + Seq::new((r@.len() - n - 1) as nat, |i: int| 0u8),
        decreases target - r@.len(),
    {
        assert(r@.len() != target);
        r.push(0);
        proof {
            assert(r@ =~= input@ + seq![0x80u8] + Seq::new(
                (r@.len() - n - 1) as nat,
                |i: int| 0u8,
            ));
        }
    }
    proof {
        let m = r@.len();
        assert(m % 64 == 56);
        assert(target - m < 64);
        assert(m == 64 * (m / 64) + 56);
        assert(target == 64 * (target / 64) + 56);
        assert(m == target);
        assert(r@ =~= padded(input@));
    }
    r
}

/// Appends the original length of `input` in bits, modulo 2^64, as a 64-bit
/// little-endian integer. The length counts bytes, whatever they encode.
pub fn step_two(padded_input: Vec<u8>, input: &[u8]) -> (r: Vec<u8>)
    requires
        padded_input@.len() + 8 <= usize::MAX,
    ensures
        r@ == padded_input@ + length_field(input@),
{
    let length: u64 = (input.len() as u64).wrapping_mul(8);
    let bytes = dec_to_bin(length, 8);
    let mut r = padded_input;
    let ghost start = r@;
    let mut i: usize = 0;
    while i < 8
        invariant
            i <= 8,
            bytes@.len() == 8,
            start.len() + 8 <= usize::MAX,
            r@ == start + bytes@.subrange(0, i as int),
        decreases 8 - i,
    {
        r.push(bytes[i]);
        i = i + 1;
        proof {
            assert(r@ =~= start + bytes@.subrange(0, i as int));
        }
    }
    proof {
        assert(bytes@.subrange(0, 8) =~= bytes@);
        assert(length as nat == ((input@.len() * 8) % 0x1_0000_0000_0000_0000) as nat);
    }
    r
}

} // verus!
