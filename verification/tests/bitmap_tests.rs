use zaps::util::hexadecimal::HexError;
use zaps::util::{decode_ascii_bitmap, decode_bitmap, DecodeBitmapError};

fn assert_marks(bitmap: u64, marked: &[usize]) {
    for i in 0..64 {
        let bitpos = 63 - i;
        if marked.contains(&i) {
            assert!(1 & (bitmap >> bitpos) == 1);
        } else {
            assert!(1 & (bitmap >> bitpos) == 0);
        }
    }
}

#[test]
fn test_ascii_bitmap() {
    let raw_bitmap = "8080000000400001".as_bytes();
    let bitmap = decode_ascii_bitmap(&raw_bitmap, raw_bitmap.len()).unwrap();

    for i in 0..64 {
        let bitpos = 63 - i;
        match i {
            0 | 8 | 41 | 63 => assert!(1 & (bitmap >> bitpos) == 1),
            _ => assert!(1 & (bitmap >> bitpos) == 0),
        }
    }
}

#[test]
fn test_bitmap() {
    let raw_bitmap = [0x80, 0x80, 0x00, 0x00, 0x00, 0x40, 0x00, 0x01];
    let bitmap = decode_bitmap(&raw_bitmap, raw_bitmap.len()).unwrap();

    for i in 0..64 {
        let bitpos = 63 - i;
        match i {
            0 | 8 | 41 | 63 => assert!(1 & (bitmap >> bitpos) == 1),
            _ => assert!(1 & (bitmap >> bitpos) == 0),
        }
    }
}

#[test]
fn standard_size() {
    let raw_bitmap = "8080000000400001".as_bytes();
    let bitmap = decode_ascii_bitmap(&raw_bitmap, raw_bitmap.len()).unwrap();

    for i in 0..64 {
        let bitpos = 63 - i;
        match i {
            0 | 8 | 41 | 63 => assert!(1 & (bitmap >> bitpos) == 1),
            _ => assert!(1 & (bitmap >> bitpos) == 0),
        }
    }
}

#[test]
fn minimum_size() {
    let raw_bitmap = "82".as_bytes();
    let bitmap = decode_ascii_bitmap(&raw_bitmap, raw_bitmap.len()).unwrap();

    for i in 0..64 {
        let bitpos = 63 - i;
        match i {
            0 | 6 => assert!(1 & (bitmap >> bitpos) == 1),
            _ => assert!(1 & (bitmap >> bitpos) == 0),
        }
    }
}

#[test]
fn odd_size_err() {
    let raw_bitmap = "820".as_bytes();
    let bitmap = decode_ascii_bitmap(&raw_bitmap, raw_bitmap.len());

    assert_eq!(Err(DecodeBitmapError::OddLength), bitmap);
}

#[test]
fn too_small_err() {
    let raw_bitmap = "82".as_bytes();
    let bitmap = decode_ascii_bitmap(&raw_bitmap, 4);

    assert_eq!(
        Err(DecodeBitmapError::BitmapTooShort {
            actual: 2,
            expected: 4,
        }),
        bitmap
    );
}

#[test]
fn too_large_err() {
    let raw_bitmap = "8200".as_bytes();
    let bitmap = decode_ascii_bitmap(&raw_bitmap, 2);

    assert_eq!(
        Err(DecodeBitmapError::BitmapTooLarge {
            actual: 4,
            expected: 2,
        }),
        bitmap
    );
}

#[test]
fn bitmap_standard_size() {
    let raw_bitmap = [0x80, 0x80, 0x00, 0x00, 0x00, 0x40, 0x00, 0x01];
    let bitmap = decode_bitmap(&raw_bitmap, raw_bitmap.len()).unwrap();

    for i in 0..64 {
        let bitpos = 63 - i;
        match i {
            0 | 8 | 41 | 63 => assert!(1 & (bitmap >> bitpos) == 1),
            _ => assert!(1 & (bitmap >> bitpos) == 0),
        }
    }
}

#[test]
fn bitmap_minimum_size() {
    let raw_bitmap = [0x82];
    let bitmap = decode_bitmap(&raw_bitmap, raw_bitmap.len()).unwrap();

    for i in 0..64 {
        let bitpos = 63 - i;
        match i {
            0 | 6 => assert!(1 & (bitmap >> bitpos) == 1),
            _ => assert!(1 & (bitmap >> bitpos) == 0),
        }
    }
}

#[test]
fn bitmap_too_large_err() {
    let raw_bitmap = [0x82, 0x00];
    let bitmap = decode_bitmap(&raw_bitmap, 1);

    assert_eq!(
        Err(DecodeBitmapError::BitmapTooLarge {
            actual: 2,
            expected: 1,
        }),
        bitmap
    );
}

#[test]
fn bitmap_too_small_err() {
    let raw_bitmap = [0x82, 0x00];
    let bitmap = decode_bitmap(&raw_bitmap, 3);

    assert_eq!(
        Err(DecodeBitmapError::BitmapTooShort {
            actual: 2,
            expected: 3,
        }),
        bitmap
    );
}

#[test]
fn bitmap_exact_value() {
    let raw_bitmap = [0x80, 0x80, 0x00, 0x00, 0x00, 0x40, 0x00, 0x01];
    assert_eq!(Ok(0x8080_0000_0040_0001u64), decode_bitmap(&raw_bitmap, 8));
    assert_eq!(Ok(0x8200_0000_0000_0000u64), decode_bitmap(&[0x82], 1));
    assert_eq!(Ok(0u64), decode_bitmap(&[], 0));
    assert_marks(decode_bitmap(&raw_bitmap, 8).unwrap(), &[0, 8, 41, 63]);
}

#[test]
fn bitmap_bytes_past_the_eighth_mark_nothing() {
    let raw_bitmap = [0x80, 0, 0, 0, 0, 0, 0, 0x01, 0xff];
    assert_eq!(Ok(0x8000_0000_0000_0001u64), decode_bitmap(&raw_bitmap, 9));
}

#[test]
fn ascii_bitmap_matches_binary() {
    let binary = decode_bitmap(&[0x80, 0x80, 0x00, 0x00, 0x00, 0x40, 0x00, 0x01], 8);
    let ascii = decode_ascii_bitmap("8080000000400001".as_bytes(), 16);
    assert_eq!(binary, ascii);
    assert_eq!(Ok(0x8080_0000_0040_0001u64), ascii);
}

#[test]
fn ascii_bitmap_reads_both_cases() {
    assert_eq!(Ok(0xabcd_ef00_0000_0000u64), decode_ascii_bitmap("aBcDeF".as_bytes(), 6));
    assert_eq!(Ok(0xabcd_ef00_0000_0000u64), decode_ascii_bitmap("ABCDEF".as_bytes(), 7));
}

#[test]
fn ascii_bitmap_invalid_char() {
    assert_eq!(
        Err(DecodeBitmapError::InvalidChar { c: 'g', index: 1 }),
        decode_ascii_bitmap("8g0z".as_bytes(), 4)
    );
    assert_eq!(
        Err(DecodeBitmapError::InvalidChar { c: ' ', index: 2 }),
        decode_ascii_bitmap("80 0".as_bytes(), 4)
    );
}

#[test]
fn ascii_bitmap_length_faults() {
    assert_eq!(Err(DecodeBitmapError::OddLength), decode_ascii_bitmap("8".as_bytes(), 16));
    assert_eq!(
        Err(DecodeBitmapError::BitmapTooShort { actual: 4, expected: 16 }),
        decode_ascii_bitmap("8000".as_bytes(), 16)
    );
    assert_eq!(
        Err(DecodeBitmapError::BitmapTooLarge { actual: 18, expected: 16 }),
        decode_ascii_bitmap("800000000000000100".as_bytes(), 16)
    );
    assert_eq!(Err(DecodeBitmapError::OddLength), decode_ascii_bitmap("zzz".as_bytes(), 2));
}

#[test]
fn hex_fault_to_bitmap_error() {
    assert_eq!(
        DecodeBitmapError::InvalidChar { c: 'x', index: 3 },
        DecodeBitmapError::from(HexError::InvalidHexCharacter { c: 'x', index: 3 }, 4, 4)
    );
    assert_eq!(DecodeBitmapError::OddLength, DecodeBitmapError::from(HexError::OddLength, 3, 4));
    assert_eq!(
        DecodeBitmapError::BitmapTooShort { actual: 2, expected: 4 },
        DecodeBitmapError::from(HexError::InvalidStringLength, 2, 4)
    );
    assert_eq!(
        DecodeBitmapError::BitmapTooLarge { actual: 4, expected: 4 },
        DecodeBitmapError::from(HexError::InvalidStringLength, 4, 4)
    );
}

#[test]
fn packed_text_of_bytes_decodes_as_the_bytes() {
    for bytes in [
        vec![],
        vec![0x00],
        vec![0xff],
        vec![0x12, 0x34, 0x56, 0x78, 0x9a, 0xbc, 0xde, 0xf0],
        vec![0x80, 0x80, 0x00, 0x00, 0x00, 0x40, 0x00, 0x01],
        vec![0x01, 0x02, 0x03],
    ] {
        let text = zaps::util::byte_to_hex_string(&bytes);
        let packed = &text.as_bytes()[2..];
        assert_eq!(2 * bytes.len(), packed.len());
        assert_eq!(decode_bitmap(&bytes, bytes.len()), decode_ascii_bitmap(packed, packed.len()));
    }
}
