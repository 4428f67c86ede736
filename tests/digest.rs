use md5_digest::buffer::{step_three, Md5Buffer};
use md5_digest::compress::{AuxInput, StepFour};
use md5_digest::digest::md5_hex;
use md5_digest::padding::{step_one, step_two};
use md5_digest::render::step_five;
use md5_digest::words::{bin_to_dec, dec_to_bin};

fn test_hash(input: &String, expect: String) {
    let bytes = input.as_bytes();
    assert_eq!(
        step_five(StepFour::step_four(step_three(), step_two(step_one(bytes), bytes))),
        expect
    );
}

#[test]
fn test_testcases() {
    test_hash(&"".to_string(), "d41d8cd98f00b204e9800998ecf8427e".to_string());
    test_hash(&"a".to_string(), "0cc175b9c0f1b6a831c399e269772661".to_string());
    test_hash(&"abc".to_string(), "900150983cd24fb0d6963f7d28e17f72".to_string());
    test_hash(&"message digest".to_string(), "f96b697d7cb7938d525a2f31aaf161d0".to_string());
    test_hash(&"abcdefghijklmnopqrstuvwxyz".to_string(), "c3fcd3d76192e4007dfb496cca67e13b".to_string());
    test_hash(
        &"ABCDEFGHIJKLMNOPQRSTUVWXYZabcdefghijklmnopqrstuvwxyz0123456789".to_string(),
        "d174ab98d277d9f5a5611c2c9f419d9f".to_string(),
    );
}

#[test]
fn known_answers_through_md5_hex() {
    assert_eq!(md5_hex(b""), "d41d8cd98f00b204e9800998ecf8427e");
    assert_eq!(md5_hex(b"a"), "0cc175b9c0f1b6a831c399e269772661");
    assert_eq!(md5_hex(b"abc"), "900150983cd24fb0d6963f7d28e17f72");
    assert_eq!(md5_hex(b"message digest"), "f96b697d7cb7938d525a2f31aaf161d0");
    assert_eq!(md5_hex(b"abcdefghijklmnopqrstuvwxyz"), "c3fcd3d76192e4007dfb496cca67e13b");
    assert_eq!(
        md5_hex(b"ABCDEFGHIJKLMNOPQRSTUVWXYZabcdefghijklmnopqrstuvwxyz0123456789"),
        "d174ab98d277d9f5a5611c2c9f419d9f"
    );
}

#[test]
fn eighty_byte_input_spans_two_blocks() {
    let input = "1234567890".repeat(8);
    assert_eq!(md5_hex(input.as_bytes()), "57edf4a22be3c955ac49da2e2107b67a");
}

#[test]
fn output_is_32_lowercase_hex() {
    for input in ["", "a", "hello world", "\u{e9}t\u{e9}"] {
        let out = md5_hex(input.as_bytes());
        assert_eq!(out.len(), 32);
        assert!(out.chars().all(|c| c.is_ascii_digit() || ('a'..='f').contains(&c)));
    }
}

#[test]
fn same_input_same_digest() {
    let input = b"The quick brown fox jumps over the lazy dog";
    assert_eq!(md5_hex(input), md5_hex(input));
    assert_eq!(md5_hex(input), "9e107d9d372bb6826bd81d3542a419d6");
}

#[test]
fn one_changed_byte_changes_digest() {
    assert_ne!(md5_hex(b"abc"), md5_hex(b"abd"));
    assert_ne!(
        md5_hex(b"The quick brown fox jumps over the lazy dog"),
        md5_hex(b"The quick brown fox jumps over the lazy dog.")
    );
    assert_eq!(
        md5_hex(b"The quick brown fox jumps over the lazy dog."),
        "e4d909c290d0fb1ca068ffaddf22cbd0"
    );
}

#[test]
fn fifty_five_bytes_pad_within_one_block() {
    let input = vec![b'x'; 55];
    let padded = step_one(&input);
    assert_eq!(padded.len(), 56);
    assert_eq!(padded[55], 0x80);
    let message = step_two(padded, &input);
    assert_eq!(message.len(), 64);
    assert_eq!(message.len() / 64, 1);
}

#[test]
fn fifty_six_bytes_need_a_second_block() {
    let input = vec![b'x'; 56];
    let message = step_two(step_one(&input), &input);
    assert_eq!(message.len(), 128);
}

#[test]
fn whole_blocks_get_an_extra_block() {
    for n in [0usize, 64, 128] {
        let input = vec![7u8; n];
        let padded = step_one(&input);
        assert_eq!(padded.len(), n + 56);
        assert_eq!(padded[n], 0x80);
        assert!(padded[n + 1..].iter().all(|b| *b == 0));
        let message = step_two(padded, &input);
        assert_eq!(message.len(), n + 64);
        assert_eq!(message.len() / 64, n / 64 + 1);
    }
}

#[test]
fn length_field_counts_bytes_little_endian() {
    let message = step_two(step_one(b"abc"), b"abc");
    assert_eq!(&message[56..], &[24, 0, 0, 0, 0, 0, 0, 0]);
    // a two-byte character counts as 16 bits, not 8
    let accented = "\u{e9}";
    let message = step_two(step_one(accented.as_bytes()), accented.as_bytes());
    assert_eq!(&message[56..], &[16, 0, 0, 0, 0, 0, 0, 0]);
    let long = vec![0u8; 300];
    let message = step_two(step_one(&long), &long);
    assert_eq!(&message[message.len() - 8..], &[0x60, 0x09, 0, 0, 0, 0, 0, 0]);
}

#[test]
fn round_constants_follow_the_sine_formula() {
    let t = StepFour::t_table();
    assert_eq!(t.len(), 64);
    for (i, value) in t.iter().enumerate() {
        let expected = (2f64.powi(32) * ((i + 1) as f64).sin().abs()) as u32;
        assert_eq!(*value, expected);
    }
    assert_eq!(t[0], 0xD76AA478);
    assert_eq!(t[15], 0x49B40821);
    assert_eq!(t[63], 0xEB86D391);
}

#[test]
fn initial_buffer_words() {
    let b = step_three();
    assert_eq!(b, Md5Buffer { a: 0x67452301, b: 0xEFCDAB89, c: 0x98BADCFE, d: 0x10325476 });
}

#[test]
fn auxiliary_functions() {
    let input = AuxInput { x: 0xF0F0F0F0, y: 0xFF00FF00, z: 0x12345678 };
    assert_eq!(StepFour::f(input), 0xF204F608);
    assert_eq!(StepFour::g(input), 0xFD30F970);
    assert_eq!(StepFour::h(input), 0x1DC45988);
    assert_eq!(StepFour::i(input), 0x02FB06F7);
}

#[test]
fn rotation_wraps_high_bits() {
    assert_eq!(StepFour::rotate_left(0x80000001, 1), 0x00000003);
    assert_eq!(StepFour::rotate_left(0x12345678, 8), 0x34567812);
    assert_eq!(StepFour::rotate_left(0x12345678, 31), 0x091A2B3C);
}

#[test]
fn little_endian_conversions() {
    assert_eq!(bin_to_dec(&[0x78, 0x56, 0x34, 0x12]), 0x12345678);
    assert_eq!(bin_to_dec(&[0x01]), 1);
    assert_eq!(bin_to_dec(&[]), 0);
    assert_eq!(dec_to_bin(0x0102, 2), vec![0x02, 0x01]);
    assert_eq!(dec_to_bin(0x1122334455667788, 8), vec![0x88, 0x77, 0x66, 0x55, 0x44, 0x33, 0x22, 0x11]);
    assert_eq!(dec_to_bin(0x1234, 0), Vec::<u8>::new());
}

#[test]
fn rendering_orders_bytes_little_endian() {
    let b = Md5Buffer { a: 0x01234567, b: 0x89abcdef, c: 0x00000000, d: 0xffffffff };
    assert_eq!(step_five(b), "67452301efcdab8900000000ffffffff");
}

#[test]
fn compressing_no_blocks_keeps_the_state() {
    let b = step_three();
    assert_eq!(StepFour::step_four(b, Vec::new()), b);
}
