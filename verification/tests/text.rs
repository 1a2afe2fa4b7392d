use mail_preview::text::{decimal_string, eq_ignore_ascii_case, text_eq};

#[test]
fn text_eq_compares_every_character() {
    assert!(text_eq("", ""));
    assert!(text_eq("text/plain", "text/plain"));
    assert!(!text_eq("text/plain", "text/plaim"));
    assert!(!text_eq("text/plain", "text/plain "));
    assert!(!text_eq("Text/plain", "text/plain"));
    assert!(text_eq("gr\u{fc}\u{df}e", "gr\u{fc}\u{df}e"));
}

#[test]
fn ascii_case_is_ignored() {
    assert!(eq_ignore_ascii_case("Subject", "subject"));
    assert!(eq_ignore_ascii_case("SUBJECT", "sUbJeCt"));
    assert!(eq_ignore_ascii_case("", ""));
    assert!(eq_ignore_ascii_case("X-Mailer-2", "x-mailer-2"));
}

#[test]
fn ascii_case_is_all_that_is_ignored() {
    assert!(!eq_ignore_ascii_case("Subject", "Subjects"));
    assert!(!eq_ignore_ascii_case("Subject", "Subjekt"));
    // '@' and '`' lie one place before 'A' and 'a', '[' and '{' one after 'Z' and 'z'.
    assert!(!eq_ignore_ascii_case("@", "`"));
    assert!(!eq_ignore_ascii_case("[", "{"));
    // Letters outside ASCII keep their case.
    assert!(!eq_ignore_ascii_case("\u{c4}", "\u{e4}"));
}

#[test]
fn ascii_case_folding_agrees_with_std() {
    let samples = ["", "a", "A", "Date", "DATE", "dAtE", "Dat", "@Z[", "`z{", "\u{c4}b", "\u{e4}B"];
    for a in samples {
        for b in samples {
            assert_eq!(eq_ignore_ascii_case(a, b), a.eq_ignore_ascii_case(b));
        }
    }
}

#[test]
fn decimal_of_small_numbers() {
    assert_eq!(decimal_string(0), "0");
    assert_eq!(decimal_string(7), "7");
    assert_eq!(decimal_string(9), "9");
    assert_eq!(decimal_string(10), "10");
    assert_eq!(decimal_string(42), "42");
    assert_eq!(decimal_string(100), "100");
    assert_eq!(decimal_string(1905), "1905");
}

#[test]
fn decimal_of_the_largest_number() {
    assert_eq!(decimal_string(4294967295), "4294967295");
    assert_eq!(decimal_string(1000000000), "1000000000");
}

#[test]
fn decimal_agrees_with_std() {
    let mut n: u32 = 1;
    for _ in 0..40 {
        assert_eq!(decimal_string(n), n.to_string());
        n = n.wrapping_mul(7).wrapping_add(3);
    }
}
