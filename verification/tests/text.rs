use hyper_mcp_remote::number::{parse_usize, print};
use hyper_mcp_remote::text::{
    fields_of, lower_text_is, same_text, split_at_each, split_at_first, stands_before, starts_with,
    stripped, trimmed, trimmed_end, trimmed_start, white_space, CharClass,
};

#[test]
fn white_space_is_that_of_unicode() {
    for c in 0u32..0x110000 {
        if let Some(c) = char::from_u32(c) {
            assert_eq!(white_space(c), c.is_whitespace(), "{c:?}");
        }
    }
}

#[test]
fn trimming_agrees_with_std() {
    for s in ["", " ", " a b ", "\u{3000}x\u{a0}", "\t\n", "äö "] {
        assert_eq!(trimmed(s, CharClass::WhiteSpace), s.trim());
        assert_eq!(trimmed_start(s, CharClass::WhiteSpace), s.trim_start());
        assert_eq!(trimmed_end(s, CharClass::WhiteSpace), s.trim_end());
    }
    assert_eq!(trimmed("\"a\"", CharClass::Only('"')), "a");
    assert_eq!(trimmed("\"\"", CharClass::Only('"')), "");
}

#[test]
fn splitting_agrees_with_std() {
    for s in ["", ",", "a,b", ",a,,b,", "ä,ö"] {
        let ours = split_at_each(s, CharClass::Only(','));
        let theirs: Vec<&str> = s.split(',').collect();
        assert_eq!(ours, theirs);
        assert_eq!(split_at_first(s, ','), s.split_once(','));
    }
    let fields = fields_of(" a  b\tc ", CharClass::WhiteSpace);
    assert_eq!(fields, vec!["a", "b", "c"]);
    assert_eq!(fields_of(" , ", CharClass::WhiteSpaceOr(',')), Vec::<String>::new());
}

#[test]
fn prefixes_and_equality() {
    assert!(starts_with("abc", "ab"));
    assert!(!starts_with("ab", "abc"));
    assert_eq!(stripped("Bearer x", "Bearer "), "x");
    assert_eq!(stripped("bearer x", "Bearer "), "bearer x");
    assert!(same_text("ä", "ä"));
    assert!(!same_text("a", "ab"));
    assert!(lower_text_is("ScOpE", "scope"));
    assert!(!lower_text_is("scopes", "scope"));
}

#[test]
fn order_is_that_of_strings() {
    let words = ["", "a", "aa", "ab", "b", "x-a", "x-b", "z"];
    for a in words {
        for b in words {
            assert_eq!(stands_before(a, b), a < b, "{a} {b}");
        }
    }
}

#[test]
fn numbers_print_and_parse() {
    for n in [0u64, 7, 10, 99, 100, 65535, u64::MAX] {
        assert_eq!(print(n), n.to_string());
    }
    for s in ["0", "3", "007", "+5", "-1", "", "+", "1x", "18446744073709551615", "18446744073709551616"] {
        assert_eq!(parse_usize(s), s.parse::<usize>().ok(), "{s}");
    }
}
