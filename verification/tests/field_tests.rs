use zaps::iso8583::spec::{DataType, Field, FieldParseError, FieldType};

fn parsed(text: &str) -> Field {
    text.parse::<Field>().unwrap()
}

fn check(text: &str, ftype: FieldType, size: usize, data_type: DataType) {
    let result = parsed(text);
    assert_eq!(ftype, result.ftype);
    assert_eq!(size, result.size);
    assert_eq!(data_type, result.data_type);
}

#[test]
fn parse_fixed() {
    check("Fixed(16:a)", FieldType::Fixed, 16, DataType::Alpha);
}

#[test]
fn parse_lllvar() {
    check("LLLVar(an)", FieldType::LLLVar, 0, DataType::Alphanum);
}

#[test]
fn parse_llvar() {
    check("LLVar(n)", FieldType::LLVar, 0, DataType::Numeric);
}

#[test]
fn parse_lvar() {
    check("LVar(h)", FieldType::LVar, 0, DataType::Hex);
}

#[test]
fn parse_bitmap() {
    check("Bitmap(64)", FieldType::Bitmap, 8, DataType::Binary);
}

#[test]
fn parse_bitmap_adjust_low() {
    check("Bitmap(65)", FieldType::Bitmap, 9, DataType::Binary);
}

#[test]
fn parse_bitmap_adjust_high() {
    check("Bitmap(71)", FieldType::Bitmap, 9, DataType::Binary);
}

#[test]
fn parse_ascii_bitmap() {
    check("AsciiBitmap(64)", FieldType::AsciiBitmap, 16, DataType::Packed);
}

#[test]
fn parse_ascii_bitmap_adjust_low() {
    check("AsciiBitmap(65)", FieldType::AsciiBitmap, 17, DataType::Packed);
}

#[test]
fn parse_ascii_bitmap_adjust_high() {
    check("AsciiBitmap(67)", FieldType::AsciiBitmap, 17, DataType::Packed);
}

#[test]
fn error_format_open_bracket() {
    assert!(matches!("fixed19:an)".parse::<Field>(), Err(FieldParseError::InvalidFormat(_))));
}

#[test]
fn error_format_separator_bracket() {
    assert!(matches!("fixed(19an)".parse::<Field>(), Err(FieldParseError::InvalidFormat(_))));
}

#[test]
fn error_format_close_bracket() {
    assert!(matches!("fixed(19:an".parse::<Field>(), Err(FieldParseError::InvalidFormat(_))));
}

#[test]
fn error_junk_trail() {
    assert!(matches!("fixed(19:an)skflnasf".parse::<Field>(), Err(FieldParseError::JunkTrail(_))));
}

#[test]
fn error_length() {
    assert!(matches!("fixed(weg:an)".parse::<Field>(), Err(FieldParseError::InvalidLength(_))));
}

#[test]
fn error_data_type() {
    assert!(matches!("fixed(19:asgaeg)".parse::<Field>(), Err(FieldParseError::InvalidDataType(_))));
}

#[test]
fn error_type() {
    assert!(matches!("asg(19:an)".parse::<Field>(), Err(FieldParseError::InvalidType(_))));
}

#[test]
fn error_lvar_len() {
    assert!(matches!("lvar(19:an)".parse::<Field>(), Err(FieldParseError::InvalidFormat(_))));
}

#[test]
fn error_llvar_len() {
    assert!(matches!("llvar(19:an)".parse::<Field>(), Err(FieldParseError::InvalidFormat(_))));
}

#[test]
fn error_lllvar_len() {
    assert!(matches!("lllvar(19:an)".parse::<Field>(), Err(FieldParseError::InvalidFormat(_))));
}

#[test]
fn errors_carry_the_text_at_fault() {
    match "fixed19:an)".parse::<Field>() {
        Err(FieldParseError::InvalidFormat(text)) => assert_eq!("fixed19:an)", text),
        other => panic!("unexpected {:?}", other),
    }
    match "asg(19:an)".parse::<Field>() {
        Err(FieldParseError::InvalidType(text)) => assert_eq!("asg", text),
        other => panic!("unexpected {:?}", other),
    }
    match "fixed(19:an)skflnasf".parse::<Field>() {
        Err(FieldParseError::JunkTrail(text)) => assert_eq!("skflnasf", text),
        other => panic!("unexpected {:?}", other),
    }
    match "fixed(weg:an)".parse::<Field>() {
        Err(FieldParseError::InvalidLength(text)) => assert_eq!("weg", text),
        other => panic!("unexpected {:?}", other),
    }
    match "fixed(19:asgaeg)".parse::<Field>() {
        Err(FieldParseError::InvalidDataType(text)) => assert_eq!("asgaeg", text),
        other => panic!("unexpected {:?}", other),
    }
    match "bitmap(6:4)".parse::<Field>() {
        Err(FieldParseError::InvalidFormat(text)) => assert_eq!("bitmap(6:4)", text),
        other => panic!("unexpected {:?}", other),
    }
    match "bitmap()".parse::<Field>() {
        Err(FieldParseError::InvalidLength(text)) => assert_eq!("", text),
        other => panic!("unexpected {:?}", other),
    }
    match "fixed(1:a:n)".parse::<Field>() {
        Err(FieldParseError::InvalidDataType(text)) => assert_eq!("a:n", text),
        other => panic!("unexpected {:?}", other),
    }
}

#[test]
fn a_trail_is_refused_before_the_body_is_read() {
    match "fixed(weg:an)x".parse::<Field>() {
        Err(FieldParseError::JunkTrail(text)) => assert_eq!("x", text),
        other => panic!("unexpected {:?}", other),
    }
    match "fixed(1:a))".parse::<Field>() {
        Err(FieldParseError::JunkTrail(text)) => assert_eq!(")", text),
        other => panic!("unexpected {:?}", other),
    }
}

#[test]
fn keywords_ignore_case() {
    assert_eq!(parsed("FIXED(16:ALPHA)"), parsed("fixed(16:alpha)"));
    assert_eq!(parsed("AsciiBitMap(64)"), parsed("asciibitmap(64)"));
    assert_eq!(parsed("lLLvAR(HexaDecimal)"), parsed("LLLVar(h)"));
}

#[test]
fn encoding_aliases() {
    for (text, data_type) in [
        ("alpha", DataType::Alpha),
        ("a", DataType::Alpha),
        ("alphanum", DataType::Alphanum),
        ("alphanumeric", DataType::Alphanum),
        ("an", DataType::Alphanum),
        ("bin", DataType::Binary),
        ("binary", DataType::Binary),
        ("bit", DataType::Binary),
        ("bitmap", DataType::Binary),
        ("hex", DataType::Hex),
        ("hexadecimal", DataType::Hex),
        ("h", DataType::Hex),
        ("numeric", DataType::Numeric),
        ("n", DataType::Numeric),
        ("packed", DataType::Packed),
        ("asciihex", DataType::Packed),
    ] {
        assert_eq!(data_type, text.parse::<DataType>().unwrap());
        assert_eq!(data_type, text.to_uppercase().parse::<DataType>().unwrap());
    }
    assert!(matches!("num".parse::<DataType>(), Err(FieldParseError::InvalidDataType(_))));
    assert!(matches!("".parse::<DataType>(), Err(FieldParseError::InvalidDataType(_))));
}

#[test]
fn kind_keywords() {
    assert_eq!(FieldType::Fixed, "fixed".parse::<FieldType>().unwrap());
    assert_eq!(FieldType::LVar, "LVAR".parse::<FieldType>().unwrap());
    assert_eq!(FieldType::LLVar, "llvar".parse::<FieldType>().unwrap());
    assert_eq!(FieldType::LLLVar, "LllVar".parse::<FieldType>().unwrap());
    assert_eq!(FieldType::Bitmap, "bitmap".parse::<FieldType>().unwrap());
    assert_eq!(FieldType::AsciiBitmap, "asciibitmap".parse::<FieldType>().unwrap());
    assert!(matches!("llllvar".parse::<FieldType>(), Err(FieldParseError::InvalidType(_))));
    assert!(matches!("fixed ".parse::<FieldType>(), Err(FieldParseError::InvalidType(_))));
}

#[test]
fn sizes_are_unsigned_decimals() {
    assert_eq!(12, parsed("fixed(+12:a)").size);
    assert_eq!(7, parsed("fixed(007:a)").size);
    assert_eq!(0, parsed("fixed(0:a)").size);
    assert_eq!(usize::MAX, parsed(&format!("fixed({}:a)", usize::MAX)).size);
    for text in ["fixed(-1:a)", "fixed(:a)", "fixed(+:a)", "fixed(1 :a)", "fixed(1_0:a)", "fixed(++1:a)", "fixed(١:a)"] {
        assert!(matches!(text.parse::<Field>(), Err(FieldParseError::InvalidLength(_))));
    }
    let too_large = format!("fixed({}0:a)", usize::MAX);
    assert!(matches!(too_large.parse::<Field>(), Err(FieldParseError::InvalidLength(_))));
    let one_more = format!("fixed(18446744073709551616:a)");
    if usize::MAX as u128 == u64::MAX as u128 {
        assert!(matches!(one_more.parse::<Field>(), Err(FieldParseError::InvalidLength(_))));
    }
}

#[test]
fn new_derives_the_byte_size() {
    assert_eq!(17, Field::new(FieldType::AsciiBitmap, 65, DataType::Packed).size);
    assert_eq!(17, Field::new(FieldType::AsciiBitmap, 67, DataType::Packed).size);
    assert_eq!(17, Field::new(FieldType::AsciiBitmap, 68, DataType::Packed).size);
    assert_eq!(18, Field::new(FieldType::AsciiBitmap, 69, DataType::Packed).size);
    assert_eq!(9, Field::new(FieldType::Bitmap, 65, DataType::Binary).size);
    assert_eq!(9, Field::new(FieldType::Bitmap, 71, DataType::Binary).size);
    assert_eq!(9, Field::new(FieldType::Bitmap, 72, DataType::Binary).size);
    assert_eq!(8, Field::new(FieldType::Bitmap, 64, DataType::Binary).size);
    assert_eq!(0, Field::new(FieldType::Bitmap, 0, DataType::Binary).size);
    assert_eq!(65, Field::new(FieldType::Fixed, 65, DataType::Alpha).size);
    assert_eq!(65, Field::new(FieldType::LLVar, 65, DataType::Alpha).size);
    let field = Field::new(FieldType::Bitmap, 65, DataType::Binary);
    assert_eq!(65, field.raw_size);
    assert_eq!(FieldType::Bitmap, field.ftype);
    assert_eq!(DataType::Binary, field.data_type);
    assert_eq!(usize::MAX / 8 + 1, Field::new(FieldType::Bitmap, usize::MAX, DataType::Binary).size);
    assert_eq!(usize::MAX / 4 + 1, Field::new(FieldType::AsciiBitmap, usize::MAX, DataType::Packed).size);
}

#[test]
fn var_size_len_by_kind() {
    assert_eq!(Some(1), FieldType::LVar.var_size_len());
    assert_eq!(Some(2), FieldType::LLVar.var_size_len());
    assert_eq!(Some(3), FieldType::LLLVar.var_size_len());
    assert_eq!(None, FieldType::Fixed.var_size_len());
    assert_eq!(None, FieldType::Bitmap.var_size_len());
    assert_eq!(None, FieldType::AsciiBitmap.var_size_len());
}

#[test]
fn rendering_of_parsed_fields() {
    assert_eq!("Fixed:16:Alpha", parsed("Fixed(16:a)").to_string());
    assert_eq!("LLLVar:0:Alphanum", parsed("lllvar(an)").to_string());
    assert_eq!("LLVar:0:Numeric", parsed("LLVAR(n)").to_string());
    assert_eq!("LVar:0:Hex", parsed("LVar(hex)").to_string());
    assert_eq!("Bitmap:9:Binary", parsed("Bitmap(65)").to_string());
    assert_eq!("AsciiBitmap:17:Packed", parsed("AsciiBitmap(67)").to_string());
    assert_eq!("Fixed:1234567890:Packed", parsed("fixed(1234567890:asciihex)").to_string());
    assert_eq!(parsed("Fixed(16:a)").to_string(), parsed("Fixed(16:a)").to_string());
    assert_eq!(parsed("FIXED(016:ALPHA)").to_string(), parsed("fixed(+16:a)").to_string());
    assert_eq!("Binary", DataType::Binary.to_string());
    assert_eq!("AsciiBitmap", FieldType::AsciiBitmap.to_string());
}
