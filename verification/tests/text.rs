use sqs_replayer_lambda::text::decimal;
use sqs_replayer_lambda::text::lowercase_is;
use sqs_replayer_lambda::text::parse_u32;
use sqs_replayer_lambda::text::starts_with;
use sqs_replayer_lambda::text::str_eq;

#[test]
fn decimal_notation_reads_back() {
    for n in [0, 1, 9, 10, 99, 100, 4711, 1_000_000, u32::MAX - 1, u32::MAX] {
        assert_eq!(decimal(n), n.to_string());
        assert_eq!(parse_u32(&decimal(n)), Some(n));
    }
}

#[test]
fn parsing_agrees_with_the_standard_library() {
    let inputs = [
        "", "0", "+0", "-0", "+", "-", "++1", "1+", "12", "0012", "4294967295", "4294967296",
        "99999999999999999999999999", "00000000000000000000000000000001", "1 ", " 1", "1e3", "0b1",
        "\u{661}", "1\u{301}", "not-a-number",
    ];
    for input in inputs {
        assert_eq!(parse_u32(input), input.parse::<u32>().ok(), "{input:?}");
    }
}

#[test]
fn strings_are_compared_by_content() {
    assert!(str_eq("", ""));
    assert!(str_eq("gr\u{fc}n", "gr\u{fc}n"));
    assert!(!str_eq("abc", "abd"));
    assert!(!str_eq("abc", "ab"));
    assert!(!str_eq("a", "A"));
}

#[test]
fn lower_case_comparison_agrees_with_the_standard_library() {
    for input in ["", "true", "TRUE", "tRue", "trues", "tru", "\u{212a}", "[TRUE"] {
        for word in ["", "true", "k", "[true"] {
            assert_eq!(
                lowercase_is(input, word),
                input.to_ascii_lowercase() == word,
                "{input:?} {word:?}"
            );
        }
    }
}

#[test]
fn prefixes_are_compared_by_character() {
    assert!(starts_with("/a", '/'));
    assert!(!starts_with("a/", '/'));
    assert!(!starts_with("", '/'));
    assert!(starts_with("\u{e4}b", '\u{e4}'));
}
