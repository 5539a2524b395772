use tangram::id::Id;

#[test]
fn test_parse() {
    let s = "00000000000000000000000000000000";
    assert_eq!(s.parse::<Id>().unwrap().to_string(), s);
    let s = "0000000000000000000000000000000z";
    assert!(s.parse::<Id>().is_err());
    let s = "f51a3a61ee9d4731b1b06c816a8ab856";
    assert_eq!(s.parse::<Id>().unwrap().to_string(), s);
    let s = "hello world";
    assert!(s.parse::<Id>().is_err());
}

#[test]
fn test_id_text_round_trip() {
    let id = Id::from_u128(0x0123_4567_89ab_cdef_0011_2233_4455_6677);
    let text = id.to_string();
    assert_eq!(text, "0123456789abcdef0011223344556677");
    assert_eq!(Id::parse(&text).unwrap(), id);
    let zero = Id::from_u128(0);
    assert_eq!(zero.to_string(), "00000000000000000000000000000000");
    let max = Id::from_u128(u128::MAX);
    assert_eq!(max.to_string(), "ffffffffffffffffffffffffffffffff");
    assert_eq!(Id::parse(&max.to_string()).unwrap().as_u128(), u128::MAX);
}

#[test]
fn test_id_parse_accepts_short_upper_case_and_plus() {
    assert_eq!(Id::parse("ff").unwrap().as_u128(), 255);
    assert_eq!(Id::parse("FF").unwrap().as_u128(), 255);
    assert_eq!(Id::parse("+1a").unwrap().as_u128(), 26);
}

#[test]
fn test_id_parse_rejects_bad_text() {
    assert!(Id::parse("").is_err());
    assert!(Id::parse("+").is_err());
    assert!(Id::parse("-1").is_err());
    // One hex digit too many does not fit in 128 bits.
    assert!(Id::parse("100000000000000000000000000000000").is_err());
}

#[test]
fn test_id_new_is_random() {
    let a = Id::new();
    let b = Id::new();
    assert_ne!(a, b);
    assert_eq!(Id::parse(&a.to_string()).unwrap(), a);
}

#[test]
fn test_id_default_is_new() {
    let a = Id::default();
    let b = Id::default();
    assert_ne!(a, b);
}
