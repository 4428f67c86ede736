//! Output rendering: the final state as 32 lowercase hex characters.
use vstd::prelude::*;
use crate::buffer::Md5Buffer;
use crate::words::{dec_to_bin, le_bytes};

verus! {

/// The sixteen lowercase hex digits, by value.
pub open spec fn hex_digits() -> Seq<char> {
    seq!['0', '1', '2', '3', '4', '5', '6', '7', '8', '9', 'a', 'b', 'c', 'd', 'e', 'f']
}

/// Whether `c` is one of `0-9` or `a-f`.
pub open spec fn is_lower_hex(c: char) -> bool {
    ('0' <= c && c <= '9') || ('a' <= c && c <= 'f')
}

/// Two hex digits per byte, the most significant nibble first.
pub open spec fn hex_of_bytes(s: Seq<u8>) -> Seq<char> {
    Seq::new(
        2 * s.len(),
        |k: int|
            if k % 2 == 0 {
                hex_digits()[(s[k / 2] / 16) as int]
            } else {
                hex_digits()[(s[k / 2] % 16) as int]
            },
    )
}

/// The sixteen output bytes: A, B, C and D in order, each little-endian.
pub open spec fn buffer_bytes(buffer: Md5Buffer) -> Seq<u8> {
    le_bytes(buffer.a as nat, 4) + le_bytes(buffer.b as nat, 4) + le_bytes(buffer.c as nat, 4)
        + le_bytes(buffer.d as nat, 4)
}

/// Every character of `hex_of_bytes` is a lowercase hex digit.
pub proof fn lemma_hex_of_bytes_is_hex(s: Seq<u8>)
    ensures
        hex_of_bytes(s).len() == 2 * s.len(),
        forall|k: int| 0 <= k < 2 * s.len() ==> is_lower_hex(#[trigger] hex_of_bytes(s)[k]),
{
    assert forall|k: int| 0 <= k < 2 * s.len() implies is_lower_hex(#[trigger] hex_of_bytes(s)[k]) by {
        let b = s[k / 2];
        let n = if k % 2 == 0 { b / 16 } else { b % 16 };
        assert(0 <= n < 16);
        assert(hex_of_bytes(s)[k] == hex_digits()[n as int]);
    }
}

/// The hex digit of the value `n`, as a one-character string.
fn hex_digit(n: u8) -> (r: &'static str)
    requires
        n < 16,
    ensures
        r@ == seq![hex_digits()[n as int]],
{
    let digits = "0123456789abcdef";
    proof {
        reveal_strlit("0123456789abcdef");
        assert(digits@ =~= hex_digits());
    }
    let r = digits.substring_ascii(n as usize, n as usize + 1);
    proof {
        assert(r@ =~= seq![hex_digits()[n as int]]);
    }
    r
}

/// Renders the state as 32 lowercase hex characters: A, B, C and D in order,
/// each as four little-endian bytes, two digits per byte with the most
/// significant nibble first.
pub fn step_five(buffer: Md5Buffer) -> (r: String)
    ensures
        r@ == hex_of_bytes(buffer_bytes(buffer)),
        r@.len() == 32,
        forall|k: int| 0 <= k < 32 ==> is_lower_hex(#[trigger] r@[k]),
{
    let words: [u32; 4] = [buffer.a, buffer.b, buffer.c, buffer.d];
    let mut bytes: Vec<u8> = Vec::new();
    let mut w: usize = 0;
    while w < 4
        invariant
            w <= 4,
            words@ == seq![buffer.a, buffer.b, buffer.c, buffer.d],
            bytes@.len() == 4 * w,
            w == 0 ==> bytes@ == Seq::<u8>::empty(),
            w == 1 ==> bytes@ == le_bytes(buffer.a as nat, 4),
            w == 2 ==> bytes@ == le_bytes(buffer.a as nat, 4) + le_bytes(buffer.b as nat, 4),
            w == 3 ==> bytes@ == le_bytes(buffer.a as nat, 4) + le_bytes(buffer.b as nat, 4)
                + le_bytes(buffer.c as nat, 4),
            w == 4 ==> bytes@ == buffer_bytes(buffer),
        decreases 4 - w,
    {
        let part = dec_to_bin(words[w] as u64, 4);
        let ghost start = bytes@;
        let mut j: usize = 0;
        while j < 4
            invariant
                j <= 4,
                part@.len() == 4,
                start.len() == 4 * w,
                w < 4,
                bytes@ == start + part@.subrange(0, j as int),
            decreases 4 - j,
        {
            bytes.push(part[j]);
            j = j + 1;
            proof {
                assert(bytes@ =~= start + part@.subrange(0, j as int));
            }
        }
        proof {
            assert(part@.subrange(0, 4) =~= part@);
            if w == 0 {
                assert(bytes@ =~= le_bytes(buffer.a as nat, 4));
            }
        }
        w = w + 1;
    }
    let mut out = String::new();
    let mut i: usize = 0;
    while i < 16
        invariant
            i <= 16,
            bytes@.len() == 16,
            bytes@ == buffer_bytes(buffer),
            out@ == hex_of_bytes(bytes@.subrange(0, i as int)),
        decreases 16 - i,
    {
        let b = bytes[i];
        out.append(hex_digit(b / 16));
        out.append(hex_digit(b % 16));
        i = i + 1;
        proof {
            assert(out@ =~= hex_of_bytes(bytes@.subrange(0, i as int)));
        }
    }
    proof {
        assert(bytes@.subrange(0, 16) =~= bytes@);
        lemma_hex_of_bytes_is_hex(bytes@);
    }
    out
}

} // verus!
