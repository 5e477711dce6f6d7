use zaps::util::binary::{to_binary, truncate};
use zaps::util::decimal::{parse_usize, to_decimal};
use zaps::util::text::{chars_of, cut_at, find_char, lowered_is, string_of, to_lower};
use zaps::util::{byte_to_hex_string, byte_to_string};

#[test]
fn bytes_as_characters() {
    assert_eq!("0200", byte_to_string("0200".as_bytes()));
    assert_eq!("", byte_to_string(&[]));
    assert_eq!("\u{0}\u{7f}\u{80}\u{ff}", byte_to_string(&[0, 0x7f, 0x80, 0xff]));
}

#[test]
fn bytes_as_hexadecimal() {
    assert_eq!("0x", byte_to_hex_string(&[]));
    assert_eq!("0x00ff1a", byte_to_hex_string(&[0x00, 0xff, 0x1a]));
    assert_eq!("0x30323030", byte_to_hex_string("0200".as_bytes()));
}

#[test]
fn decimal_numbers() {
    assert_eq!(Some(0), parse_usize("0"));
    assert_eq!(Some(13), parse_usize("013"));
    assert_eq!(Some(321), parse_usize("+321"));
    assert_eq!(Some(usize::MAX), parse_usize(&usize::MAX.to_string()));
    assert_eq!(None, parse_usize(""));
    assert_eq!(None, parse_usize("+"));
    assert_eq!(None, parse_usize("-1"));
    assert_eq!(None, parse_usize("1a"));
    assert_eq!(None, parse_usize(" 1"));
    assert_eq!(None, parse_usize("１"));
    assert_eq!(None, parse_usize(&format!("{}1", usize::MAX)));
    for text in ["", "+", "0", "+0", "00012", "99999999999999999999999", "12x", "-3", "+-3", "é"] {
        assert_eq!(text.parse::<usize>().ok(), parse_usize(text));
    }
    assert_eq!("0", to_decimal(0));
    assert_eq!("9", to_decimal(9));
    assert_eq!("10", to_decimal(10));
    assert_eq!("1234567890", to_decimal(1234567890));
    assert_eq!(usize::MAX.to_string(), to_decimal(usize::MAX));
}

#[test]
fn binary_numbers() {
    assert_eq!("0", to_binary(0));
    assert_eq!("1", to_binary(1));
    assert_eq!("10", to_binary(2));
    assert_eq!("10000001", to_binary(0x81));
    assert_eq!(format!("{:b}", u64::MAX), to_binary(u64::MAX));
    assert_eq!("100", truncate("10000001".to_string(), 3));
    assert_eq!("10000001", truncate("10000001".to_string(), 8));
    assert_eq!("10000001", truncate("10000001".to_string(), 64));
    assert_eq!("", truncate("10000001".to_string(), 0));
}

fn chars(text: &str) -> Vec<char> {
    text.chars().collect()
}

#[test]
fn text_helpers() {
    assert_eq!(chars("é(x"), chars_of("é(x"));
    assert_eq!(Vec::<char>::new(), chars_of(""));
    assert_eq!("é(x", string_of(&chars("é(x")));
    assert_eq!("", string_of(&[]));
    assert_eq!(Some(5), find_char(&chars("Fixed(16:a)"), '('));
    assert_eq!(None, find_char(&chars("Fixed"), '('));
    assert_eq!(Some(1), find_char(&chars("é(x("), '('));
    let text = chars("Fixed(16:a)");
    let (before, after) = cut_at(&text, '(').unwrap();
    assert_eq!("Fixed", string_of(before));
    assert_eq!("16:a)", string_of(after));
    let text = chars("é(ü(");
    let (before, after) = cut_at(&text, '(').unwrap();
    assert_eq!("é", string_of(before));
    assert_eq!("ü(", string_of(after));
    let text = chars("(");
    let (before, after) = cut_at(&text, '(').unwrap();
    assert!(before.is_empty() && after.is_empty());
    assert!(cut_at(&[], '(').is_none());
    assert_eq!('a', to_lower('A'));
    assert_eq!('z', to_lower('Z'));
    assert_eq!('a', to_lower('a'));
    assert_eq!('[', to_lower('['));
    assert_eq!('É', to_lower('É'));
    assert!(lowered_is(&chars("FiXeD"), "fixed"));
    assert!(!lowered_is(&chars("fixed"), "FIXED"));
    assert!(!lowered_is(&chars("fixe"), "fixed"));
    assert!(lowered_is(&[], ""));
}

#[test]
fn decimal_text_reads_back() {
    for n in [0usize, 1, 9, 10, 99, 100, 12345, usize::MAX - 1, usize::MAX] {
        assert_eq!(Some(n), parse_usize(&to_decimal(n)));
    }
}
