use batch_ocr::numbers::{decimal_chars, parse_u32_chars, push_signed_decimal};
use batch_ocr::numbers::push_decimal_text;
use batch_ocr::split::{join_strings, lines_of, split_chars, trim_chars};
use batch_ocr::text::{
    append_chars, append_str, char_ascii_lower, char_is_whitespace, chars_are, chars_are_blank,
    chars_ascii_lowercase, chars_equal, chars_of, push_text, string_of, sub_chars, to_string,
};

fn cs(s: &str) -> Vec<char> {
    s.chars().collect()
}

fn strings(v: &Vec<Vec<char>>) -> Vec<String> {
    v.iter().map(|p| p.iter().collect()).collect()
}

#[test]
fn chars_and_strings_round_trip() {
    assert_eq!(chars_of("héllo"), vec!['h', 'é', 'l', 'l', 'o']);
    assert_eq!(string_of(&cs("héllo wörld")), "héllo wörld");
    assert_eq!(string_of(&chars_of("")), "");
    assert_eq!(sub_chars(&cs("abcdef"), 2, 4), cs("cd"));
    assert_eq!(sub_chars(&cs("abcdef"), 3, 3), cs(""));
}

#[test]
fn comparing_texts() {
    assert!(chars_equal(&cs("abc"), &cs("abc")));
    assert!(!chars_equal(&cs("abc"), &cs("abd")));
    assert!(!chars_equal(&cs("abc"), &cs("ab")));
    assert!(chars_are(&cs("5"), "5"));
    assert!(!chars_are(&cs("50"), "5"));
}

#[test]
fn whitespace_is_the_unicode_white_space_set() {
    for code in 0u32..=0x10FFFF {
        if let Some(c) = char::from_u32(code) {
            assert_eq!(char_is_whitespace(c), c.is_whitespace(), "U+{:04X}", code);
        }
    }
    assert!(chars_are_blank(&cs(" \t\r\n\u{a0}\u{3000}")));
    assert!(chars_are_blank(&cs("")));
    assert!(!chars_are_blank(&cs("  x ")));
}

#[test]
fn ascii_lower_case() {
    assert_eq!(char_ascii_lower('A'), 'a');
    assert_eq!(char_ascii_lower('Z'), 'z');
    assert_eq!(char_ascii_lower('q'), 'q');
    assert_eq!(char_ascii_lower('É'), 'É');
    assert_eq!(char_ascii_lower('['), '[');
    assert_eq!(char_ascii_lower('@'), '@');
    assert_eq!(chars_ascii_lowercase(&cs("PdF.Ext9")), cs("pdf.ext9"));
}

#[test]
fn splitting_at_a_separator() {
    assert_eq!(strings(&split_chars(&cs("a\tb\tc"), '\t')), vec!["a", "b", "c"]);
    assert_eq!(strings(&split_chars(&cs(""), '\t')), vec![""]);
    assert_eq!(strings(&split_chars(&cs("\t"), '\t')), vec!["", ""]);
    assert_eq!(strings(&split_chars(&cs("a\t\tb\t"), '\t')), vec!["a", "", "b", ""]);
    assert_eq!(strings(&split_chars(&cs("ukr+eng"), '+')), vec!["ukr", "eng"]);
    for s in ["", "+", "a+", "+a", "a++b", "abc"] {
        let expected: Vec<String> = s.split('+').map(|p| p.to_string()).collect();
        assert_eq!(strings(&split_chars(&cs(s), '+')), expected);
    }
}

#[test]
fn lines_follow_std() {
    for s in [
        "", "\n", "a", "a\n", "a\nb", "a\r\nb\r\n", "a\rb", "a\r", "\r\n", "\n\n", "a\n\nb\n",
        "last\r", "x\r\r\ny",
    ] {
        let expected: Vec<String> = s.lines().map(|l| l.to_string()).collect();
        assert_eq!(strings(&lines_of(&cs(s))), expected, "text {:?}", s);
    }
}

#[test]
fn trimming_follows_std() {
    for s in ["", " ", "  a  ", "a", "\t a b \n", "\u{a0}x\u{3000}", " \n\t ", "x ", " x"] {
        assert_eq!(string_of(&trim_chars(&cs(s))), s.trim(), "text {:?}", s);
    }
}

#[test]
fn joining() {
    let parts = vec!["a".to_string(), "bc".to_string(), String::new()];
    assert_eq!(string_of(&join_strings(&parts, ", ")), "a, bc, ");
    assert_eq!(string_of(&join_strings(&vec!["one".to_string()], " ")), "one");
}

#[test]
fn decimal_numerals() {
    assert_eq!(string_of(&decimal_chars(0)), "0");
    assert_eq!(string_of(&decimal_chars(7)), "7");
    assert_eq!(string_of(&decimal_chars(10)), "10");
    assert_eq!(string_of(&decimal_chars(300)), "300");
    assert_eq!(string_of(&decimal_chars(u128::MAX)), u128::MAX.to_string());
    let mut out = cs("n=");
    push_signed_decimal(&mut out, -42);
    assert_eq!(string_of(&out), "n=-42");
    let mut out = Vec::new();
    push_signed_decimal(&mut out, i64::MIN);
    assert_eq!(string_of(&out), i64::MIN.to_string());
    let mut out = Vec::new();
    push_signed_decimal(&mut out, i64::MAX);
    assert_eq!(string_of(&out), i64::MAX.to_string());
}

#[test]
fn reading_unsigned_numbers_follows_std() {
    for s in [
        "", "0", "7", "007", "+5", "+", "-1", "-0", "12a", " 12", "12 ", "4294967295",
        "4294967296", "99999999999999999999", "+4294967295", "3.5", "１２", "1_000", "++1",
    ] {
        assert_eq!(parse_u32_chars(&cs(s)), s.parse::<u32>().ok(), "text {:?}", s);
    }
}

#[test]
fn building_lists_of_strings() {
    let mut list: Vec<String> = Vec::new();
    push_text(&mut list, "alpha");
    push_decimal_text(&mut list, 42);
    push_text(&mut list, "");
    assert_eq!(list, vec!["alpha", "42", ""]);
    assert_eq!(string_of(&join_strings(&list, "+")), "alpha+42+");
    assert_eq!(string_of(&join_strings(&vec![], "+")), "");
    assert_eq!(to_string("déjà vu"), "déjà vu");
    let mut out = cs("ab");
    append_chars(&mut out, &cs("cd"));
    append_str(&mut out, "éf");
    assert_eq!(string_of(&out), "abcdéf");
}
