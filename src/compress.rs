//! The compression function: 64 rounds of mixing over each 512-bit block.
use vstd::prelude::*;
use vstd::slice::slice_subrange;
use crate::buffer::{Md5Buffer, accumulate, add32, add_buffers};
use crate::words::{bin_to_dec, le_value};

verus! {

/// The three words handed to an auxiliary function: B, C and D of the
/// current working state.
#[derive(Clone, Copy, Debug)]
pub struct AuxInput {
    pub x: u32,
    pub y: u32,
    pub z: u32,
}

/// F(x, y, z) = (x and y) or (not x and z).
#[verifier::opaque]
pub open spec fn aux_f(x: u32, y: u32, z: u32) -> u32 {
    (x & y) | (!x & z)
}

/// G(x, y, z) = (x and z) or (y and not z).
#[verifier::opaque]
pub open spec fn aux_g(x: u32, y: u32, z: u32) -> u32 {
    (x & z) | (y & !z)
}

/// H(x, y, z) = x xor y xor z.
#[verifier::opaque]
pub open spec fn aux_h(x: u32, y: u32, z: u32) -> u32 {
    x ^ y ^ z
}

/// I(x, y, z) = y xor (x or not z).
#[verifier::opaque]
pub open spec fn aux_i(x: u32, y: u32, z: u32) -> u32 {
    y ^ (x | !z)
}

/// The auxiliary function of round `i`: F, G, H and I for each quarter of
/// sixteen rounds in turn.
pub open spec fn aux(i: int, x: u32, y: u32, z: u32) -> u32 {
    if i < 16 {
        aux_f(x, y, z)
    } else if i < 32 {
        aux_g(x, y, z)
    } else if i < 48 {
        aux_h(x, y, z)
    } else {
        aux_i(x, y, z)
    }
}

/// The index of the message word that round `i` reads.
pub open spec fn word_index(i: int) -> int {
    if i < 16 {
        i
    } else if i < 32 {
        (5 * i + 1) % 16
    } else if i < 48 {
        (3 * i + 5) % 16
    } else {
        (7 * i) % 16
    }
}

/// The rotation of round `i`, cycling every four rounds within a quarter.
pub open spec fn shift_amount(i: int) -> u32 {
    if i < 16 {
        seq![7u32, 12, 17, 22][i % 4]
    } else if i < 32 {
        seq![5u32, 9, 14, 20][i % 4]
    } else if i < 48 {
        seq![4u32, 11, 16, 23][i % 4]
    } else {
        seq![6u32, 10, 15, 21][i % 4]
    }
}

/// The table T: entry `i` is floor(2^32 * |sin(i + 1)|), `i + 1` in radians.
pub open spec fn round_constants() -> Seq<u32> {
    seq![
        0xd76aa478u32, 0xe8c7b756, 0x242070db, 0xc1bdceee,
        0xf57c0faf, 0x4787c62a, 0xa8304613, 0xfd469501,
        0x698098d8, 0x8b44f7af, 0xffff5bb1, 0x895cd7be,
        0x6b901122, 0xfd987193, 0xa679438e, 0x49b40821,
        0xf61e2562, 0xc040b340, 0x265e5a51, 0xe9b6c7aa,
        0xd62f105d, 0x02441453, 0xd8a1e681, 0xe7d3fbc8,
        0x21e1cde6, 0xc33707d6, 0xf4d50d87, 0x455a14ed,
        0xa9e3e905, 0xfcefa3f8, 0x676f02d9, 0x8d2a4c8a,
        0xfffa3942, 0x8771f681, 0x6d9d6122, 0xfde5380c,
        0xa4beea44, 0x4bdecfa9, 0xf6bb4b60, 0xbebfbc70,
        0x289b7ec6, 0xeaa127fa, 0xd4ef3085, 0x04881d05,
        0xd9d4d039, 0xe6db99e5, 0x1fa27cf8, 0xc4ac5665,
        0xf4292244, 0x432aff97, 0xab9423a7, 0xfc93a039,
        0x655b59c3, 0x8f0ccc92, 0xffeff47d, 0x85845dd1,
        0x6fa87e4f, 0xfe2ce6e0, 0xa3014314, 0x4e0811a1,
        0xf7537e82, 0xbd3af235, 0x2ad7d2bb, 0xeb86d391,
    ]
}

/// Circular left rotation of a word by `n` bits.
#[verifier::opaque]
pub open spec fn rotl(x: u32, n: u32) -> u32 {
    (x << n) | (x >> ((32 - n) as u32))
}

/// One round: mix B, C and D with the auxiliary function, add the message
/// word, the table entry and A, rotate, add B; then shift the registers
/// (A takes D, D takes C, C takes B, B takes the new value).
pub open spec fn round(st: Md5Buffer, x: Seq<u32>, i: int) -> Md5Buffer {
    let sum = add32(
        add32(add32(aux(i, st.b, st.c, st.d), x[word_index(i)]), round_constants()[i]),
        st.a,
    );
    Md5Buffer { a: st.d, b: add32(rotl(sum, shift_amount(i)), st.b), c: st.b, d: st.c }
}

/// The working state after the first `n` rounds over the words `x`.
pub open spec fn rounds(st: Md5Buffer, x: Seq<u32>, n: nat) -> Md5Buffer
    decreases n,
{
    if n == 0 {
        st
    } else {
        round(rounds(st, x, (n - 1) as nat), x, n - 1)
    }
}

/// One block's compression: 64 rounds, then the saved state added back.
pub open spec fn compress(st: Md5Buffer, x: Seq<u32>) -> Md5Buffer {
    add_buffers(st, rounds(st, x, 64))
}

/// The sixteen little-endian words of block `blk` of `msg`.
pub open spec fn block_words(msg: Seq<u8>, blk: int) -> Seq<u32> {
    Seq::new(16, |j: int| le_value(msg.subrange(64 * blk + 4 * j, 64 * blk + 4 * j + 4)) as u32)
}

/// The state after compressing the first `n` blocks of `msg` in order,
/// starting from `st`.
pub open spec fn digest_blocks(st: Md5Buffer, msg: Seq<u8>, n: nat) -> Md5Buffer
    decreases n,
{
    if n == 0 {
        st
    } else {
        compress(digest_blocks(st, msg, (n - 1) as nat), block_words(msg, n - 1))
    }
}

/// The functions of the block compression stage.
pub struct StepFour {}

impl StepFour {
    /// Processes `message`, a whole number of 64-byte blocks, block by block
    /// in order, starting from `buffer`.
    pub fn step_four(buffer: Md5Buffer, message: Vec<u8>) -> (r: Md5Buffer)
        requires
            message@.len() % 64 == 0,
        ensures
            r == digest_blocks(buffer, message@, message@.len() / 64),
    {
        let mut saved = buffer;
        let len = message.len();
        let n = len / 64;
        let t = StepFour::t_table();
        let mut chunk: usize = 0;
        while chunk < n
            invariant
                n == message@.len() / 64,
                len == message@.len(),
                message@.len() % 64 == 0,
                chunk <= n,
                t@ == round_constants(),
                saved == digest_blocks(buffer, message@, chunk as nat),
            decreases n - chunk,
        {
            proof {
                assert(chunk * 64 + 64 <= len) by (nonlinear_arith)
                    requires
                        chunk < n,
                        n == len / 64,
                        len % 64 == 0,
                ;
            }
            let begin = chunk * 64;
            let mut x: Vec<u32> = Vec::new();
            let mut j: usize = 0;
            while j < 16
                invariant
                    begin == chunk * 64,
                    begin + 64 <= len,
                    len == message@.len(),
                    chunk < n,
                    n == message@.len() / 64,
                    message@.len() % 64 == 0,
                    j <= 16,
                    x@.len() == j,
                    forall|m: int| 0 <= m < j ==> x@[m] == block_words(message@, chunk as int)[m],
                decreases 16 - j,
            {
                let word = bin_to_dec(
                    slice_subrange(message.as_slice(), begin + 4 * j, begin + 4 * j + 4),
                );
                x.push(word);
                j = j + 1;
            }
            proof {
                assert(x@ =~= block_words(message@, chunk as int));
            }
            let mut work = saved;
            let mut i: usize = 0;
            while i < 64
                invariant
                    i <= 64,
                    x@.len() == 16,
                    t@ == round_constants(),
                    work == rounds(saved, x@, i as nat),
                decreases 64 - i,
            {
                work = StepFour::round_step(work, &x, &t, i);
                i = i + 1;
            }
            saved = accumulate(saved, work);
            chunk = chunk + 1;
        }
        saved
    }

    /// Round `i` over the message words `x`, with `t` the table of round
    /// constants.
    fn round_step(work: Md5Buffer, x: &Vec<u32>, t: &Vec<u32>, i: usize) -> (r: Md5Buffer)
        requires
            i < 64,
            x@.len() == 16,
            t@ == round_constants(),
        ensures
            r == round(work, x@, i as int),
    {
        let input = AuxInput { x: work.b, y: work.c, z: work.d };
        let k: usize;
        let s: [u32; 4];
        let mixed: u32;
        if i <= 15 {
            k = i;
            s = [7, 12, 17, 22];
            mixed = StepFour::f(input);
        } else if i <= 31 {
            k = (5 * i + 1) % 16;
            s = [5, 9, 14, 20];
            mixed = StepFour::g(input);
        } else if i <= 47 {
            k = (3 * i + 5) % 16;
            s = [4, 11, 16, 23];
            mixed = StepFour::h(input);
        } else {
            k = (7 * i) % 16;
            s = [6, 10, 15, 21];
            mixed = StepFour::i(input);
        }
        assert(mixed == aux(i as int, work.b, work.c, work.d));
        assert(k == word_index(i as int));
        let shift = s[i % 4];
        assert(shift == shift_amount(i as int));
        let w = x[k];
        let c = t[i];
        let s1 = mixed.wrapping_add(w);
        assert(s1 == add32(mixed, w));
        let s2 = s1.wrapping_add(c);
        assert(s2 == add32(s1, c));
        let s3 = s2.wrapping_add(work.a);
        assert(s3 == add32(s2, work.a));
        let rotated = StepFour::rotate_left(s3, shift);
        let temp = rotated.wrapping_add(work.b);
        assert(temp == add32(rotated, work.b));
        Md5Buffer { a: work.d, b: temp, c: work.b, d: work.c }
    }

    /// F(x, y, z) = (x and y) or (not x and z).
    pub fn f(input: AuxInput) -> (r: u32)
        ensures
            r == aux_f(input.x, input.y, input.z),
    {
        reveal(aux_f);
        (input.x & input.y) | (!input.x & input.z)
    }

    /// G(x, y, z) = (x and z) or (y and not z).
    pub fn g(input: AuxInput) -> (r: u32)
        ensures
            r == aux_g(input.x, input.y, input.z),
    {
        reveal(aux_g);
        (input.x & input.z) | (input.y & !input.z)
    }

    /// H(x, y, z) = x xor y xor z.
    pub fn h(input: AuxInput) -> (r: u32)
        ensures
            r == aux_h(input.x, input.y, input.z),
    {
        reveal(aux_h);
        input.x ^ input.y ^ input.z
    }

    /// I(x, y, z) = y xor (x or not z).
    pub fn i(input: AuxInput) -> (r: u32)
        ensures
            r == aux_i(input.x, input.y, input.z),
    {
        reveal(aux_i);
        input.y ^ (input.x | !input.z)
    }

    /// Rotates `x` left by `n` bits; `n` must lie in 1..=31.
    pub fn rotate_left(x: u32, n: u32) -> (r: u32)
        requires
            0 < n < 32,
        ensures
            r == rotl(x, n),
            forall|j: u32| #![auto] j < 32 ==> (r >> j) & 1 == (x >> (((j + 32 - n) % 32) as u32)) & 1,
    {
        reveal(rotl);
        let r = (x << n) | (x >> (32 - n));
        assert(forall|j: u32| #![auto] j < 32 ==> (r >> j) & 1 == (x >> (((j + 32 - n) % 32) as u32)) & 1)
            by (bit_vector)
            requires
                0 < n < 32,
                r == (x << n) | (x >> ((32 - n) as u32)),
        ;
        r
    }

    /// The 64 round constants, T[1] to T[64], in order.
    pub fn t_table() -> (r: Vec<u32>)
        ensures
            r@ == round_constants(),
    {
        let r: Vec<u32> = vec![
            0xd76aa478u32, 0xe8c7b756, 0x242070db, 0xc1bdceee,
            0xf57c0faf, 0x4787c62a, 0xa8304613, 0xfd469501,
            0x698098d8, 0x8b44f7af, 0xffff5bb1, 0x895cd7be,
            0x6b901122, 0xfd987193, 0xa679438e, 0x49b40821,
            0xf61e2562, 0xc040b340, 0x265e5a51, 0xe9b6c7aa,
            0xd62f105d, 0x02441453, 0xd8a1e681, 0xe7d3fbc8,
            0x21e1cde6, 0xc33707d6, 0xf4d50d87, 0x455a14ed,
            0xa9e3e905, 0xfcefa3f8, 0x676f02d9, 0x8d2a4c8a,
            0xfffa3942, 0x8771f681, 0x6d9d6122, 0xfde5380c,
            0xa4beea44, 0x4bdecfa9, 0xf6bb4b60, 0xbebfbc70,
            0x289b7ec6, 0xeaa127fa, 0xd4ef3085, 0x04881d05,
            0xd9d4d039, 0xe6db99e5, 0x1fa27cf8, 0xc4ac5665,
            0xf4292244, 0x432aff97, 0xab9423a7, 0xfc93a039,
            0x655b59c3, 0x8f0ccc92, 0xffeff47d, 0x85845dd1,
            0x6fa87e4f, 0xfe2ce6e0, 0xa3014314, 0x4e0811a1,
            0xf7537e82, 0xbd3af235, 0x2ad7d2bb, 0xeb86d391,
        ];
        proof {
            assert(r@ =~= round_constants());
        }
        r
    }
}

} // verus!
