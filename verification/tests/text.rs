use plonky2_circom_verifier::text::{
    chars_of, decimal_string, encode_hex, matches_at, replace, starts_with, string_of,
};

fn replaced(s: &str, from: &str, to: &str) -> String {
    string_of(&replace(&chars_of(s), &chars_of(from), &chars_of(to)))
}

#[test]
fn encode_hex_writes_two_lower_case_digits_per_byte() {
    assert_eq!(encode_hex(&[]), "");
    assert_eq!(encode_hex(&[0]), "00");
    assert_eq!(encode_hex(&[0x0f, 0xa0, 0xff, 0x10]), "0fa0ff10");
    assert_eq!(encode_hex(&[0xde, 0xad, 0xbe, 0xef]), "deadbeef");
}

#[test]
fn encode_hex_doubles_the_length() {
    let bytes: Vec<u8> = (0..=255u8).collect();
    let s = encode_hex(&bytes);
    assert_eq!(s.len(), 512);
    assert_eq!(&s[0..8], "00010203");
    assert_eq!(&s[508..512], "feff");
}

#[test]
fn decimal_string_writes_numerals_without_leading_zeros() {
    assert_eq!(decimal_string(0), "0");
    assert_eq!(decimal_string(7), "7");
    assert_eq!(decimal_string(10), "10");
    assert_eq!(decimal_string(1234567890), "1234567890");
    assert_eq!(decimal_string(u64::MAX), "18446744073709551615");
    assert_eq!(decimal_string(18446744069414584321), "18446744069414584321");
}

#[test]
fn chars_and_strings_convert_both_ways() {
    let s = "filter <== GlExt(1, 0)(); \u{e9}\u{4e2d}";
    assert_eq!(string_of(&chars_of(s)), s);
    assert_eq!(chars_of("").len(), 0);
}

#[test]
fn replace_goes_from_left_to_right_without_overlap() {
    assert_eq!(replaced("aaaa", "aa", "b"), "bb");
    assert_eq!(replaced("aaa", "aa", "b"), "ba");
    assert_eq!(replaced("abcabc", "bc", "XYZ"), "aXYZaXYZ");
    assert_eq!(replaced("abc", "d", "e"), "abc");
    assert_eq!(replaced("", "d", "e"), "");
    assert_eq!(replaced("$A $AB $A", "$A", "1"), "1 1B 1");
}

#[test]
fn replace_of_the_empty_pattern_matches_between_all_characters() {
    assert_eq!(replaced("abc", "", "-"), "-a-b-c-");
    assert_eq!(replaced("", "", "-"), "-");
    assert_eq!("abc".replace("", "-"), replaced("abc", "", "-"));
}

#[test]
fn replace_agrees_with_the_standard_library() {
    let cases = [
        ("  $SET_K_IS;\n  x", "  $SET_K_IS;\n", "  k_is[0] = 1;\n"),
        ("$N$N$N", "$N", "12"),
        ("xx$NUM_WIRES_CAPxx", "$NUM_WIRES", "3"),
        ("ababab", "aba", "c"),
        ("mississippi", "issi", "i"),
    ];
    for (s, from, to) in cases.iter() {
        assert_eq!(replaced(s, from, to), s.replace(from, to));
    }
}

#[test]
fn matches_at_and_starts_with_look_at_the_right_place() {
    let s = chars_of("ArithmeticGate { num_ops: 20 }");
    assert!(starts_with(&s, &chars_of("ArithmeticGate")));
    assert!(!starts_with(&s, &chars_of("ArithmeticExtensionGate")));
    assert!(matches_at(&s, 10, &chars_of("Gate")));
    assert!(!matches_at(&s, 11, &chars_of("Gate")));
    assert!(matches_at(&s, s.len(), &chars_of("")));
    assert!(!matches_at(&s, s.len() - 1, &chars_of("};")));
}
