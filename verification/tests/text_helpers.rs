use cursor_clip::fixed::{Fixed, Geometry};
use cursor_clip::text::{
    append_decimal, append_padded, append_repeated, append_signed, chars_of, contains,
    describe_failure, find_char, is_text_le, join_path, starts_with, trim, white_space,
};
use cursor_clip::wire::{contains_u32, decode_u32s, encode_u32s, ByteOrder};
use std::path::Path;

#[test]
fn white_space_agrees_with_std_on_every_character() {
    let mut code: u32 = 0;
    while code <= 0x10FFFF {
        if let Some(c) = char::from_u32(code) {
            assert_eq!(white_space(c), c.is_whitespace(), "U+{:04X}", code);
        }
        code += 1;
    }
}

#[test]
fn trim_agrees_with_std() {
    let cases = [
        "", " ", "abc", "  abc", "abc  ", " \t a b \n", "\u{00a0}x\u{3000}", "\u{200b}x", "\n\r\n",
    ];
    for case in cases {
        assert_eq!(trim(case), case.trim());
    }
}

#[test]
fn contains_agrees_with_std() {
    let hays = ["", "a", "aab", "terminal", "gnome-terminal", "héllo wörld", "日本語"];
    let needles = ["", "a", "ab", "terminal", "wör", "本", "x", "terminals"];
    for hay in hays {
        for needle in needles {
            assert_eq!(contains(hay, needle), hay.contains(needle), "{} in {}", needle, hay);
            assert_eq!(starts_with(hay, needle), hay.starts_with(needle));
        }
    }
}

#[test]
fn characters_are_counted_one_by_one() {
    assert_eq!(chars_of("aé日"), vec!['a', 'é', '日']);
    assert_eq!(find_char("aé:b:", ':'), Some(2));
    assert_eq!(find_char("abc", ':'), None);
}

#[test]
fn numbers_are_written_as_std_writes_them() {
    for n in [0u128, 1, 9, 10, 99, 100, 4294967296, u64::MAX as u128, u128::MAX] {
        let mut out = String::from("n=");
        append_decimal(&mut out, n);
        assert_eq!(out, format!("n={}", n));
    }
    for n in [0i64, 5, -5, i64::MAX, i64::MIN] {
        let mut out = String::new();
        append_signed(&mut out, n);
        assert_eq!(out, n.to_string());
    }
}

#[test]
fn columns_are_padded_by_characters() {
    let mut out = String::new();
    append_padded(&mut out, "é", 3);
    assert_eq!(out, format!("{:<3}", "é"));
    let mut wide = String::new();
    append_padded(&mut wide, "abcdef", 3);
    assert_eq!(wide, "abcdef");
    let mut line = String::new();
    append_repeated(&mut line, "-", 4);
    assert_eq!(line, "----");
}

#[test]
fn texts_are_ordered_as_std_orders_them() {
    let texts = ["", "A", "B", "a", "aa", "ab", "b", "é", "日", "\u{ffff}", "\u{10000}"];
    for a in texts {
        for b in texts {
            assert_eq!(is_text_le(a, b), a <= b, "{} <= {}", a, b);
        }
    }
}

#[test]
fn paths_are_joined_as_std_joins_them() {
    for base in ["", ".", "/", "/home/me", "/home/me/", "rel", "rel/"] {
        for name in [".config", "cursor-clip", "overlay.sock"] {
            let expected = Path::new(base).join(name);
            assert_eq!(join_path(base, name), expected.to_str().unwrap());
        }
    }
}

#[test]
fn a_failure_names_what_failed_and_why() {
    assert_eq!(describe_failure("Failed to flush V up", "broken pipe"), "Failed to flush V up: broken pipe");
}

#[test]
fn packed_arrays_decode_four_bytes_at_a_time() {
    let bytes = [1u8, 0, 0, 0, 2, 0, 0, 0, 9, 9];
    assert_eq!(decode_u32s(&bytes, ByteOrder::LittleEndian), vec![1, 2]);
    assert_eq!(decode_u32s(&bytes, ByteOrder::BigEndian), vec![0x0100_0000, 0x0200_0000]);
    assert_eq!(decode_u32s(&[1, 2, 3], ByteOrder::LittleEndian), Vec::<u32>::new());
    let expected: Vec<u32> = bytes.chunks_exact(4).map(|c| u32::from_le_bytes([c[0], c[1], c[2], c[3]])).collect();
    assert_eq!(decode_u32s(&bytes, ByteOrder::LittleEndian), expected);
}

#[test]
fn encoding_is_undone_by_decoding() {
    let values = vec![0, 1, 0xFF00_E5FF, u32::MAX];
    for order in [ByteOrder::LittleEndian, ByteOrder::BigEndian] {
        let bytes = encode_u32s(&values, order);
        assert_eq!(bytes.len(), 16);
        assert_eq!(decode_u32s(&bytes, order), values);
    }
    let bytes = vec![1u8, 2, 3, 4, 250, 251, 252, 253];
    for order in [ByteOrder::LittleEndian, ByteOrder::BigEndian] {
        assert_eq!(encode_u32s(&decode_u32s(&bytes, order), order), bytes);
    }
    assert_eq!(encode_u32s(&vec![0xFF00_E5FF], ByteOrder::LittleEndian), vec![0xFF, 0xE5, 0x00, 0xFF]);
    assert!(contains_u32(&values, u32::MAX));
    assert!(!contains_u32(&values, 2));
}

#[test]
fn coordinates_are_rounded_as_std_rounds_them() {
    for raw in [0, 1, 64, 127, 128, 129, 255, 256, 384, 640, 641, -1, -127, -128, -129, -384, -640, i32::MAX, i32::MIN] {
        let mut out = String::new();
        Fixed { raw }.append_rounded(&mut out);
        assert_eq!(out, format!("{:.0}", raw as f64 / 256.0), "raw {}", raw);
    }
}

#[test]
fn coordinates_are_truncated_and_compared() {
    for raw in [0, 1, 255, 256, 511, -1, -255, -256, -257, i32::MAX, i32::MIN] {
        let x = raw as f64 / 256.0;
        assert_eq!(Fixed { raw }.truncated(), x as i32);
        for n in [i64::MIN, -2, -1, 0, 1, 2, i64::MAX] {
            assert_eq!(Fixed { raw }.at_least(n), x >= n as f64);
        }
    }
}

#[test]
fn a_rectangle_holds_its_upper_left_edges_only() {
    let r = Geometry { x: 10, y: 20, width: 5, height: 6 };
    let at = |x: i32, y: i32| r.contains(Fixed { raw: x * 256 }, Fixed { raw: y * 256 });
    assert!(at(10, 20));
    assert!(at(14, 25));
    assert!(!at(15, 20));
    assert!(!at(10, 26));
    assert!(!at(9, 20));
    assert!(r.contains(Fixed { raw: 15 * 256 - 1 }, Fixed { raw: 26 * 256 - 1 }));
    assert_eq!(r.area(), 30);
    assert_eq!(Geometry { x: 0, y: 0, width: i32::MIN, height: i32::MIN }.area(), 1i64 << 62);
}
