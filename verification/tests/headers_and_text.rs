use mailsignals::headers::HeaderStore;
use mailsignals::text::{contains, eq_ignore_case, find_after_last, find_char, has_prefix, lower, matches_at, slice_text, trim};

fn sample_store() -> HeaderStore {
    let mut hs = HeaderStore::new();
    hs.insert("Received".to_string(), "first hop".to_string());
    hs.insert("From".to_string(), "a@x.com".to_string());
    hs.insert("received".to_string(), "second hop".to_string());
    hs.insert("RECEIVED".to_string(), "third hop".to_string());
    hs
}

#[test]
fn new_store_is_empty() {
    let hs = HeaderStore::new();
    assert_eq!(hs.len(), 0);
    assert_eq!(hs.first("From"), None);
    assert!(hs.all("From").is_empty());
    assert!(hs.iterate().is_empty());
}

#[test]
fn insert_appends_in_order() {
    let hs = sample_store();
    assert_eq!(hs.len(), 4);
    let pairs = hs.iterate();
    assert_eq!(pairs[0], ("Received".to_string(), "first hop".to_string()));
    assert_eq!(pairs[1], ("From".to_string(), "a@x.com".to_string()));
    assert_eq!(pairs[2], ("received".to_string(), "second hop".to_string()));
    assert_eq!(pairs[3], ("RECEIVED".to_string(), "third hop".to_string()));
}

#[test]
fn first_is_case_insensitive_and_takes_the_first() {
    let hs = sample_store();
    assert_eq!(hs.first("received"), Some("first hop".to_string()));
    assert_eq!(hs.first("FROM"), Some("a@x.com".to_string()));
    assert_eq!(hs.first("To"), None);
}

#[test]
fn all_keeps_every_match_in_order() {
    let hs = sample_store();
    assert_eq!(
        hs.all("ReCeIvEd"),
        vec!["first hop".to_string(), "second hop".to_string(), "third hop".to_string()]
    );
    assert_eq!(hs.all("from"), vec!["a@x.com".to_string()]);
    assert!(hs.all("Subject").is_empty());
}

#[test]
fn lower_folds_ascii_letters_only() {
    assert_eq!(lower('A'), 'a');
    assert_eq!(lower('Z'), 'z');
    assert_eq!(lower('m'), 'm');
    assert_eq!(lower('@'), '@');
    assert_eq!(lower('['), '[');
    assert_eq!(lower('É'), 'É');
}

#[test]
fn eq_ignore_case_compares_whole_texts() {
    assert!(eq_ignore_case("Content-Type", "content-type"));
    assert!(eq_ignore_case("", ""));
    assert!(!eq_ignore_case("Content-Type", "Content-Typ"));
    assert!(!eq_ignore_case("abc", "abd"));
}

#[test]
fn trim_cuts_blanks_on_both_sides() {
    assert_eq!(trim("  a b \t\r\n"), "a b");
    assert_eq!(trim("abc"), "abc");
    assert_eq!(trim("   "), "");
    assert_eq!(trim(""), "");
}

#[test]
fn find_char_gives_first_position_or_length() {
    assert_eq!(find_char("a<b<c", '<', 0), 1);
    assert_eq!(find_char("a<b<c", '<', 2), 3);
    assert_eq!(find_char("abc", '<', 0), 3);
    assert_eq!(find_char("abc", 'a', 3), 3);
}

#[test]
fn find_after_last_gives_position_behind_last() {
    assert_eq!(find_after_last("a.b.c", '.'), 4);
    assert_eq!(find_after_last("abc", '.'), 0);
    assert_eq!(find_after_last("abc.", '.'), 4);
}

#[test]
fn matching_and_containment() {
    assert!(matches_at("attachment; x", "attach", 0));
    assert!(!matches_at("attachment", "tach", 1));
    assert!(matches_at("attachment", "tach", 2));
    assert!(!matches_at("abc", "abcd", 0));
    assert!(matches_at("abc", "", 3));
    assert!(!matches_at("abc", "", 4));
    assert!(has_prefix("multipart/mixed", "multipart/"));
    assert!(!has_prefix("text/plain", "multipart/"));
    assert!(contains("inline; attachment", "attachment"));
    assert!(!contains("inline", "attachment"));
    assert!(contains("abc", ""));
    assert!(contains("", ""));
}

#[test]
fn slice_text_counts_characters() {
    assert_eq!(slice_text("héllo", 1, 3), "él");
    assert_eq!(slice_text("abc", 0, 0), "");
    assert_eq!(slice_text("abc", 0, 3), "abc");
}

#[test]
fn blank_characters() {
    assert!(mailsignals::text::blank(' '));
    assert!(mailsignals::text::blank('\t'));
    assert!(mailsignals::text::blank('\r'));
    assert!(mailsignals::text::blank('\n'));
    assert!(!mailsignals::text::blank('a'));
    assert!(!mailsignals::text::blank('\u{a0}'));
}

#[test]
fn chars_of_gives_every_character() {
    assert_eq!(mailsignals::text::chars_of("h\u{e9}llo"), vec!['h', '\u{e9}', 'l', 'l', 'o']);
    assert!(mailsignals::text::chars_of("").is_empty());
}

#[test]
fn starts_at_compares_characters() {
    let s: Vec<char> = "multipart/mixed".chars().collect();
    let p: Vec<char> = "part".chars().collect();
    assert!(mailsignals::text::starts_at(&s, &p, 5));
    assert!(!mailsignals::text::starts_at(&s, &p, 4));
    assert!(!mailsignals::text::starts_at(&s, &p, 12));
    assert!(!mailsignals::text::starts_at(&s, &p, 99));
}

#[test]
fn long_values_are_handled() {
    let long = format!("  {}  ", "x".repeat(200_000));
    assert_eq!(trim(&long).len(), 200_000);
    assert!(!contains(&long, "attachment"));
    assert_eq!(find_char(&long, '<', 0), 200_004);
}

#[test]
fn decimal_text_writes_numerals() {
    assert_eq!(mailsignals::text::decimal_text(0), "0");
    assert_eq!(mailsignals::text::decimal_text(7), "7");
    assert_eq!(mailsignals::text::decimal_text(10), "10");
    assert_eq!(mailsignals::text::decimal_text(1205), "1205");
    assert_eq!(mailsignals::text::decimal_text(9_876_543_210), "9876543210");
    assert_eq!(mailsignals::text::decimal_text(usize::MAX), usize::MAX.to_string());
    for d in 0..10 {
        assert_eq!(mailsignals::text::digit_text(d), d.to_string());
    }
}
