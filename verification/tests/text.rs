use apob::text::{
    dec, hex, hex_digit_char, hex_padded, hex_with_prefix, hex_with_prefix_padded, pad_left,
    pad_right, printable_char, push_dec, push_hex, push_repeat,
};

const SAMPLES: [u64; 14] = [
    0,
    1,
    9,
    10,
    15,
    16,
    0xab,
    0xff,
    0x100,
    0x1234,
    0xdead_beef,
    0x1_0000_0000,
    u64::MAX - 1,
    u64::MAX,
];

#[test]
fn hex_digits_are_lowercase() {
    let all: String = (0..16u8).map(hex_digit_char).collect();
    assert_eq!(all, "0123456789abcdef");
}

#[test]
fn hex_has_no_leading_zeros() {
    assert_eq!(hex(0), "0");
    assert_eq!(hex(0x1f), "1f");
    assert_eq!(hex(0xdead_beef), "deadbeef");
    for n in SAMPLES {
        assert_eq!(hex(n), format!("{:x}", n));
    }
}

#[test]
fn dec_has_no_leading_zeros() {
    assert_eq!(dec(0), "0");
    assert_eq!(dec(65535), "65535");
    for n in SAMPLES {
        assert_eq!(dec(n), format!("{}", n));
    }
}

#[test]
fn hex_padded_fills_with_zeros() {
    assert_eq!(hex_padded(0xab, 4), "00ab");
    assert_eq!(hex_padded(0x12345, 4), "12345");
    assert_eq!(hex_padded(0, 2), "00");
    for n in SAMPLES {
        assert_eq!(hex_padded(n, 2), format!("{:02x}", n));
        assert_eq!(hex_padded(n, 4), format!("{:04x}", n));
        assert_eq!(hex_padded(n, 5), format!("{:05x}", n));
        assert_eq!(hex_padded(n, 6), format!("{:06x}", n));
    }
}

#[test]
fn hex_with_prefix_starts_with_0x() {
    assert_eq!(hex_with_prefix(0), "0x0");
    assert_eq!(hex_with_prefix(0x4001), "0x4001");
    for n in SAMPLES {
        assert_eq!(hex_with_prefix(n), format!("{:#x}", n));
    }
}

#[test]
fn hex_with_prefix_padded_counts_digits_only() {
    assert_eq!(hex_with_prefix_padded(9, 2), "0x09");
    assert_eq!(hex_with_prefix_padded(0x40, 5), "0x00040");
    for n in SAMPLES {
        assert_eq!(hex_with_prefix_padded(n, 2), format!("{:#04x}", n));
        assert_eq!(hex_with_prefix_padded(n, 5), format!("{:#07x}", n));
        assert_eq!(hex_with_prefix_padded(n, 10), format!("0x{:0>10x}", n));
        assert_eq!(hex_with_prefix_padded(n, 8), format!("0x{:0>8x}", n));
    }
}

#[test]
fn padding_keeps_longer_text() {
    assert_eq!(pad_left("abc", 5, ' '), "  abc");
    assert_eq!(pad_left("abc", 3, ' '), "abc");
    assert_eq!(pad_left("abcdef", 3, ' '), "abcdef");
    assert_eq!(pad_left("", 2, '0'), "00");
    assert_eq!(pad_right("abc", 5, ' '), "abc  ");
    assert_eq!(pad_right("abcdef", 3, '.'), "abcdef");
    assert_eq!(pad_right("", 0, ' '), "");
    for s in ["", "MEMORY", "TRAIN_ERROR (0x4001)", "a much longer piece of text"] {
        assert_eq!(pad_left(s, 12, ' '), format!("{:>12}", s));
        assert_eq!(pad_right(s, 20, ' '), format!("{:<20}", s));
        assert_eq!(pad_right(s, 8, ' '), format!("{:<8}", s));
    }
}

#[test]
fn prefixed_number_in_a_field_of_spaces() {
    for n in SAMPLES {
        assert_eq!(pad_left(&hex_with_prefix(n), 10, ' '), format!("{:#10x}", n));
        assert_eq!(pad_left(&hex(n), 9, ' '), format!("{:>9x}", n));
    }
}

#[test]
fn pushes_append_to_what_is_there() {
    let mut s = String::from("n=");
    push_hex(&mut s, 0x2a);
    push_repeat(&mut s, '-', 3);
    push_dec(&mut s, 42);
    push_repeat(&mut s, '!', 0);
    assert_eq!(s, "n=2a---42");
}

#[test]
fn printable_bytes_show_as_themselves() {
    for b in 0..=255u8 {
        let expected = if b.is_ascii() && !b.is_ascii_control() { b as char } else { '.' };
        assert_eq!(printable_char(b), expected);
    }
    assert_eq!(printable_char(b' '), ' ');
    assert_eq!(printable_char(b'~'), '~');
    assert_eq!(printable_char(0x7f), '.');
    assert_eq!(printable_char(0x1f), '.');
}
