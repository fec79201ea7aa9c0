use beamcli::text::blank;
use beamcli::text::byte_length;
use beamcli::text::chars_eq;
use beamcli::text::chars_lt;
use beamcli::text::contains;
use beamcli::text::join;
use beamcli::text::leading_word;
use beamcli::text::number_text;
use beamcli::text::parse_number;
use beamcli::text::take_until;
use beamcli::text::text_eq;
use beamcli::text::text_lt;
use beamcli::text::to_chars;
use beamcli::text::word_at;

#[test]
fn order_is_lexicographic() {
    assert!(text_lt("a", "b"));
    assert!(!text_lt("b", "a"));
    assert!(!text_lt("a", "a"));
    assert!(text_lt("", "a"));
    assert!(!text_lt("", ""));
    assert!(text_lt("ab", "b"));
    assert!(text_lt("a", "ab"));
    assert!(text_lt("Z", "a"));
    assert!(text_lt("z", "é"));
    assert!(text_lt("10", "9"));
}

#[test]
fn order_agrees_with_the_order_of_strings() {
    let samples = ["", "a", "A", "ab", "abc", "b", "é", "日本", "~", "z", "0", "10", "9"];
    for a in samples {
        for b in samples {
            assert_eq!(text_lt(a, b), a < b);
            assert_eq!(text_eq(a, b), a == b);
            assert_eq!(chars_lt(&to_chars(a), &to_chars(b)), a < b);
            assert_eq!(chars_eq(&to_chars(a), &to_chars(b)), a == b);
        }
    }
}

#[test]
fn characters_of_a_text() {
    assert_eq!(to_chars("aé日"), vec!['a', 'é', '日']);
    assert_eq!(to_chars(""), Vec::<char>::new());
    assert_eq!(byte_length("aé日"), 6);
    assert_eq!(byte_length(""), 0);
}

#[test]
fn numerals() {
    assert_eq!(number_text(0), "0");
    assert_eq!(number_text(7), "7");
    assert_eq!(number_text(10), "10");
    assert_eq!(number_text(86400), "86400");
    assert_eq!(number_text(1234567890), "1234567890");
    assert_eq!(number_text(u64::MAX), "18446744073709551615");
}

#[test]
fn numbers_are_read() {
    assert_eq!(parse_number("0"), Some(0));
    assert_eq!(parse_number("007"), Some(7));
    assert_eq!(parse_number("86400"), Some(86400));
    assert_eq!(parse_number("+5"), Some(5));
    assert_eq!(parse_number("18446744073709551615"), Some(u64::MAX));
    assert_eq!(parse_number("18446744073709551616"), None);
    assert_eq!(parse_number("99999999999999999999999"), None);
    assert_eq!(parse_number(""), None);
    assert_eq!(parse_number("+"), None);
    assert_eq!(parse_number("-1"), None);
    assert_eq!(parse_number("++1"), None);
    assert_eq!(parse_number("1+"), None);
    assert_eq!(parse_number(" 1"), None);
    assert_eq!(parse_number("1 "), None);
    assert_eq!(parse_number("12a"), None);
    assert_eq!(parse_number("١٢"), None);
}

#[test]
fn reading_agrees_with_the_standard_parser() {
    let samples = [
        "0", "1", "+1", "-0", "", "+", "00", "1e3", "4294967296", "18446744073709551615",
        "18446744073709551616", "0x10", "1_000", " 7",
    ];
    for s in samples {
        assert_eq!(parse_number(s), s.parse::<u64>().ok());
    }
}

#[test]
fn numeral_round_trip() {
    for n in [0u64, 1, 9, 10, 99, 100, 65535, 86400, u64::MAX - 1, u64::MAX] {
        assert_eq!(parse_number(&number_text(n)), Some(n));
        assert_eq!(number_text(n), n.to_string());
    }
}

#[test]
fn runs_of_spaces() {
    assert_eq!(blank(0), "");
    assert_eq!(blank(1), " ");
    assert_eq!(blank(15), "               ");
}

#[test]
fn joining() {
    let parts = vec!["a".to_string(), "".to_string(), "bc".to_string()];
    assert_eq!(join(&parts, ", "), "a, , bc");
    assert_eq!(join(&parts, ""), "abc");
    assert_eq!(join(&vec!["only".to_string()], "\n"), "only");
    assert_eq!(join(&Vec::new(), "\n"), "");
    assert_eq!(join(&vec!["".to_string(), "".to_string()], "-"), "-");
}

#[test]
fn searching() {
    assert!(contains("Valid until: ... [valid for 11h54m0s]", "valid for"));
    assert!(!contains("Valid until: ... [EXPIRED]", "valid for"));
    assert!(contains("abc", ""));
    assert!(contains("", ""));
    assert!(!contains("", "a"));
    assert!(!contains("ab", "abc"));
    assert!(contains("aab", "ab"));
    assert!(contains("ab", "ab"));
    assert!(!contains("aXb", "ab"));
    assert!(contains("日本語", "本"));
}

#[test]
fn first_word_of_a_line() {
    assert_eq!(leading_word("host-1        env:prod"), "host-1");
    assert_eq!(leading_word("host-1"), "host-1");
    assert_eq!(leading_word(""), "");
    assert_eq!(leading_word(" host"), "");
    assert_eq!(leading_word("a\tb"), "a");
    assert_eq!(leading_word("a\nb"), "a");
    assert_eq!(leading_word("a\rb"), "a");
    assert_eq!(leading_word("a\u{c}b"), "a");
    assert_eq!(leading_word("é日 x"), "é日");
}

#[test]
fn words_by_their_place() {
    let line = "> Profile URL:        https://proxy.example.com:443";
    assert_eq!(word_at(line, 0), Some(">"));
    assert_eq!(word_at(line, 1), Some("Profile"));
    assert_eq!(word_at(line, 2), Some("URL:"));
    assert_eq!(word_at(line, 3), Some("https://proxy.example.com:443"));
    assert_eq!(word_at(line, 4), None);
    assert_eq!(word_at("", 0), None);
    assert_eq!(word_at("   \t\n", 0), None);
    assert_eq!(word_at("  a  ", 0), Some("a"));
    assert_eq!(word_at("  a  ", 1), None);
    for (n, word) in "a bb\tccc\n d".split_ascii_whitespace().enumerate() {
        assert_eq!(word_at("a bb\tccc\n d", n), Some(word));
    }
}

#[test]
fn text_before_a_character() {
    assert_eq!(take_until("proxy.example.com:3080", ':'), "proxy.example.com");
    assert_eq!(take_until("proxy.example.com", ':'), "proxy.example.com");
    assert_eq!(take_until(":3080", ':'), "");
    assert_eq!(take_until("", ':'), "");
    assert_eq!(take_until("line one\nline two", '\n'), "line one");
}
