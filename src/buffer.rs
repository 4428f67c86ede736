//! The four-word digest state.
use vstd::prelude::*;

verus! {

/// The running digest: four 32-bit words, A, B, C and D. All arithmetic on
/// them wraps modulo 2^32.
#[derive(Clone, Copy, Debug, PartialEq, Eq, Structural)]
pub struct Md5Buffer {
    pub a: u32,
    pub b: u32,
    pub c: u32,
    pub d: u32,
}

/// Addition of two words modulo 2^32.
pub open spec fn add32(x: u32, y: u32) -> u32 {
    ((x as int + y as int) % 0x1_0000_0000) as u32
}

/// The state that every digest starts from.
pub open spec fn initial_buffer() -> Md5Buffer {
    Md5Buffer { a: 0x67452301, b: 0xefcdab89, c: 0x98badcfe, d: 0x10325476 }
}

/// Component-wise sum of two states modulo 2^32.
pub open spec fn add_buffers(x: Md5Buffer, y: Md5Buffer) -> Md5Buffer {
    Md5Buffer { a: add32(x.a, y.a), b: add32(x.b, y.b), c: add32(x.c, y.c), d: add32(x.d, y.d) }
}

/// Creates the initial state A = 0x67452301, B = 0xEFCDAB89, C = 0x98BADCFE,
/// D = 0x10325476.
pub fn step_three() -> (r: Md5Buffer)
    ensures
        r == initial_buffer(),
{
    Md5Buffer { a: 0x67452301, b: 0xEFCDAB89, c: 0x98BADCFE, d: 0x10325476 }
}

/// Adds `y` into `x`, word by word, modulo 2^32.
pub fn accumulate(x: Md5Buffer, y: Md5Buffer) -> (r: Md5Buffer)
    ensures
        r == add_buffers(x, y),
{
    Md5Buffer {
        a: x.a.wrapping_add(y.a),
        b: x.b.wrapping_add(y.b),
        c: x.c.wrapping_add(y.c),
        d: x.d.wrapping_add(y.d),
    }
}

} // verus!
