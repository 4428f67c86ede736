//! The whole digest, and the laws it obeys.
use vstd::prelude::*;
use crate::buffer::{initial_buffer, step_three};
use crate::compress::{StepFour, digest_blocks};
use crate::padding::{lemma_message_len, lemma_zero_count, message, padded, step_one, step_two};
use crate::render::{buffer_bytes, hex_of_bytes, is_lower_hex, lemma_hex_of_bytes_is_hex, step_five};

verus! {

/// The number of 64-byte blocks that the digest of `input` compresses.
pub open spec fn block_count(input: Seq<u8>) -> nat {
    message(input).len() / 64
}

/// The MD5 digest of `input`, in lowercase hex.
pub open spec fn md5_of(input: Seq<u8>) -> Seq<char> {
    hex_of_bytes(
        buffer_bytes(digest_blocks(initial_buffer(), message(input), block_count(input))),
    )
}

/// Computes the MD5 digest of `input` as 32 lowercase hex characters.
pub fn md5_hex(input: &[u8]) -> (r: String)
    requires
        input@.len() + 128 <= usize::MAX,
    ensures
        r@ == md5_of(input@),
        r@.len() == 32,
        forall|k: int| 0 <= k < 32 ==> is_lower_hex(#[trigger] r@[k]),
{
    let padded_input = step_one(input);
    proof {
        lemma_zero_count(input@.len());
    }
    let msg = step_two(padded_input, input);
    proof {
        lemma_message_len(input@);
    }
    let buffer = StepFour::step_four(step_three(), msg);
    step_five(buffer)
}

/// Every digest is exactly 32 characters, each in `0-9` or `a-f`.
pub proof fn digest_is_lower_hex(input: Seq<u8>)
    ensures
        md5_of(input).len() == 32,
        forall|k: int| 0 <= k < 32 ==> is_lower_hex(#[trigger] md5_of(input)[k]),
{
    let st = digest_blocks(initial_buffer(), message(input), block_count(input));
    crate::words::lemma_le_bytes_len(st.a as nat, 4);
    crate::words::lemma_le_bytes_len(st.b as nat, 4);
    crate::words::lemma_le_bytes_len(st.c as nat, 4);
    crate::words::lemma_le_bytes_len(st.d as nat, 4);
    lemma_hex_of_bytes_is_hex(buffer_bytes(st));
}

/// The digest depends on the bytes alone: equal inputs give equal digests.
pub proof fn digest_is_deterministic(first: Seq<u8>, second: Seq<u8>)
    requires
        first == second,
    ensures
        md5_of(first) == md5_of(second),
{
}

/// The padded message is a positive whole number of 512-bit blocks and ends
/// with the input's length in bits.
pub proof fn message_is_whole_blocks(input: Seq<u8>)
    ensures
        message(input).len() % 64 == 0,
        block_count(input) >= 1,
        message(input).subrange(0, input.len() as int) == input,
        message(input)[input.len() as int] == 0x80u8,
        message(input).subrange(message(input).len() - 8, message(input).len() as int)
            == crate::padding::length_field(input),
{
    lemma_message_len(input);
    let m = message(input);
    assert(m.subrange(0, input.len() as int) =~= input);
    assert(m.subrange(m.len() - 8, m.len() as int) =~= crate::padding::length_field(input));
}

/// An input of 55 bytes modulo 64 (440 bits modulo 512) takes the set bit
/// and its length in the same block: no zero bytes, no extra block.
pub proof fn padding_fits_last_block(input: Seq<u8>)
    requires
        input.len() % 64 == 55,
    ensures
        padded(input) == input + seq![0x80u8],
        message(input).len() == input.len() + 9,
        block_count(input) == input.len() / 64 + 1,
{
    lemma_zero_count(input.len());
    lemma_message_len(input);
    assert(padded(input) =~= input + seq![0x80u8]);
}

/// An input of a whole number of blocks needs one more block, for the
/// padding and the length alone.
pub proof fn padding_adds_whole_block(input: Seq<u8>)
    requires
        input.len() % 64 == 0,
    ensures
        message(input).len() == input.len() + 64,
        block_count(input) == input.len() / 64 + 1,
{
    lemma_zero_count(input.len());
    lemma_message_len(input);
}

} // verus!
