use todoer::decimal::{decimal_text, parse_u32, parse_u64};
use todoer::text::{
    eq_ignoring_case, join_commas, same_text, split_commas, split_trimmed, text_not_after,
    to_lower_char,
};

fn strings(items: &[&str]) -> Vec<String> {
    items.iter().map(|s| s.to_string()).collect()
}

#[test]
fn same_text_compares_characters() {
    assert!(same_text("abc", "abc"));
    assert!(same_text("", ""));
    assert!(!same_text("abc", "abd"));
    assert!(!same_text("abc", "ab"));
    assert!(same_text("héllo", "héllo"));
}

#[test]
fn text_order_is_lexicographic() {
    assert!(text_not_after("a", "z"));
    assert!(!text_not_after("z", "a"));
    assert!(text_not_after("", "a"));
    assert!(!text_not_after("a", ""));
    assert!(text_not_after("ab", "abc"));
    assert!(!text_not_after("abc", "ab"));
    assert!(text_not_after("same", "same"));
    assert!(text_not_after("Z", "a"));
}

#[test]
fn text_order_agrees_with_std() {
    let words = ["", "a", "ab", "b", "B", "é", "zz", "a,b"];
    for a in words.iter() {
        for b in words.iter() {
            assert_eq!(text_not_after(a, b), a <= b);
        }
    }
}

#[test]
fn split_commas_gives_every_piece() {
    assert_eq!(split_commas("a,b"), strings(&["a", "b"]));
    assert_eq!(split_commas("work"), strings(&["work"]));
    assert_eq!(split_commas(""), strings(&[""]));
    assert_eq!(split_commas("a,,b"), strings(&["a", "", "b"]));
    assert_eq!(split_commas(",a,"), strings(&["", "a", ""]));
}

#[test]
fn split_commas_agrees_with_std() {
    for text in ["", ",", "a", "a,b,c", ",,", "x, y ,z"] {
        let want: Vec<String> = text.split(',').map(|s| s.to_string()).collect();
        assert_eq!(split_commas(text), want);
    }
}

#[test]
fn join_commas_puts_commas_between() {
    assert_eq!(join_commas(&strings(&["a", "b", "c"])), "a,b,c");
    assert_eq!(join_commas(&strings(&["only"])), "only");
    assert_eq!(join_commas(&strings(&[])), "");
    assert_eq!(join_commas(&strings(&["", ""])), ",");
}

#[test]
fn split_after_join_gives_the_pieces_back() {
    let tags = strings(&["home", "work", ""]);
    assert_eq!(split_commas(&join_commas(&tags)), tags);
}

#[test]
fn split_trimmed_removes_white_space() {
    assert_eq!(split_trimmed(" a , b "), strings(&["a", "b"]));
    assert_eq!(split_trimmed("x,\ty\n"), strings(&["x", "y"]));
    assert_eq!(split_trimmed(""), strings(&[""]));
}

#[test]
fn decimal_text_writes_digits() {
    assert_eq!(decimal_text(0), "0");
    assert_eq!(decimal_text(7), "7");
    assert_eq!(decimal_text(10), "10");
    assert_eq!(decimal_text(1234567890), "1234567890");
    assert_eq!(decimal_text(u64::MAX), "18446744073709551615");
}

#[test]
fn parse_u64_reads_digits() {
    assert_eq!(parse_u64("0"), Some(0));
    assert_eq!(parse_u64("42"), Some(42));
    assert_eq!(parse_u64("+5"), Some(5));
    assert_eq!(parse_u64("007"), Some(7));
    assert_eq!(parse_u64("18446744073709551615"), Some(u64::MAX));
}

#[test]
fn parse_u64_refuses_what_is_no_number() {
    assert_eq!(parse_u64(""), None);
    assert_eq!(parse_u64("+"), None);
    assert_eq!(parse_u64("-1"), None);
    assert_eq!(parse_u64("12a"), None);
    assert_eq!(parse_u64(" 1"), None);
    assert_eq!(parse_u64("++1"), None);
    assert_eq!(parse_u64("id"), None);
    assert_eq!(parse_u64("18446744073709551616"), None);
    assert_eq!(parse_u64("99999999999999999999999"), None);
}

#[test]
fn parse_u64_agrees_with_std() {
    for text in ["", "+", "-", "0", "+0", "-0", "00012", "1_000", "٣", "4294967295", "18446744073709551615", "18446744073709551616"] {
        assert_eq!(parse_u64(text), text.parse::<u64>().ok());
        assert_eq!(parse_u32(text), text.parse::<u32>().ok());
    }
}

#[test]
fn parse_u32_has_its_own_limit() {
    assert_eq!(parse_u32("4294967295"), Some(u32::MAX));
    assert_eq!(parse_u32("4294967296"), None);
    assert_eq!(parse_u32("12"), Some(12));
}

#[test]
fn decimal_round_trip() {
    for n in [0u64, 1, 9, 10, 99, 100, 65535, 4294967295, 4294967296, u64::MAX] {
        assert_eq!(parse_u64(&decimal_text(n)), Some(n));
    }
}

#[test]
fn lower_case_of_characters() {
    assert_eq!(to_lower_char('A'), 'a');
    assert_eq!(to_lower_char('Z'), 'z');
    assert_eq!(to_lower_char('m'), 'm');
    assert_eq!(to_lower_char('@'), '@');
    assert_eq!(to_lower_char('['), '[');
    assert_eq!(to_lower_char('É'), 'É');
    for code in 0u32..0x250 {
        if let Some(c) = char::from_u32(code) {
            assert_eq!(to_lower_char(c), c.to_ascii_lowercase());
        }
    }
}

#[test]
fn equality_but_for_case() {
    assert!(eq_ignoring_case("Today", "today"));
    assert!(eq_ignoring_case("", ""));
    assert!(eq_ignoring_case("HOLD", "hold"));
    assert!(!eq_ignoring_case("hold", "holds"));
    assert!(!eq_ignoring_case("hold", "bold"));
    assert!(!eq_ignoring_case("É", "é"));
    let words = ["", "a", "A", "ab", "aB", "Ab ", "é", "É", "k", "K"];
    for a in words.iter() {
        for b in words.iter() {
            assert_eq!(eq_ignoring_case(a, b), a.eq_ignore_ascii_case(b));
        }
    }
}
