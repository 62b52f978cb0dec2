use dictatord::number::{parse_hex_u8, parse_i32, parse_u32, parse_u64, IntErrorKind};

fn kind(e: &std::num::ParseIntError) -> IntErrorKind {
    match e.kind() {
        std::num::IntErrorKind::Empty => IntErrorKind::Empty,
        std::num::IntErrorKind::InvalidDigit => IntErrorKind::InvalidDigit,
        std::num::IntErrorKind::PosOverflow => IntErrorKind::PosOverflow,
        std::num::IntErrorKind::NegOverflow => IntErrorKind::NegOverflow,
        _ => panic!("unexpected kind"),
    }
}

fn chars(s: &str) -> Vec<char> {
    s.chars().collect()
}

const SAMPLES: &[&str] = &[
    "", "0", "7", "+7", "-7", "-0", "+", "-", "+-1", "-+1", "12a", "a12", " 1", "1 ", "00042",
    "4294967295", "4294967296", "2147483647", "2147483648", "-2147483648", "-2147483649",
    "18446744073709551615", "18446744073709551616", "99999999999999999999x", "1x99999999999999999999",
    "é1", "١", "16000", "0x10",
];

#[test]
fn parse_u32_matches_std() {
    for s in SAMPLES {
        let std_r = s.parse::<u32>().map_err(|e| kind(&e));
        assert_eq!(parse_u32(&chars(s)), std_r, "input {:?}", s);
    }
}

#[test]
fn parse_u64_matches_std() {
    for s in SAMPLES {
        let std_r = s.parse::<u64>().map_err(|e| kind(&e));
        assert_eq!(parse_u64(&chars(s)), std_r, "input {:?}", s);
    }
}

#[test]
fn parse_i32_matches_std() {
    for s in SAMPLES {
        let std_r = s.parse::<i32>().map_err(|e| kind(&e));
        assert_eq!(parse_i32(&chars(s)), std_r, "input {:?}", s);
    }
}

#[test]
fn parse_hex_u8_matches_std() {
    for s in ["00", "ff", "FF", "cC", "+f", "-1", "g0", "", "+", "100", "0100", "7f"] {
        let std_r = u8::from_str_radix(s, 16).map_err(|e| kind(&e));
        assert_eq!(parse_hex_u8(&chars(s)), std_r, "input {:?}", s);
    }
}

#[test]
fn parse_error_kinds() {
    assert_eq!(parse_u32(&chars("")), Err(IntErrorKind::Empty));
    assert_eq!(parse_u32(&chars("x")), Err(IntErrorKind::InvalidDigit));
    assert_eq!(parse_u32(&chars("4294967296")), Err(IntErrorKind::PosOverflow));
    assert_eq!(parse_i32(&chars("-2147483649")), Err(IntErrorKind::NegOverflow));
    assert_eq!(parse_i32(&chars("-12")), Ok(-12));
}
