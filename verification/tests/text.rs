use resyn::text::{clean_text, emission, is_allowed_char, is_space_char};

#[test]
fn cleans_annotated_text() {
    let out = clean_text("Hello [laughs] (pause) world!! @#");
    // the blanks on either side of each annotation stay
    assert_eq!(out, "Hello   world!!");
    assert!(out.starts_with("Hello "));
    assert!(out.ends_with(" world!!"));
}

#[test]
fn trims_white_space() {
    assert_eq!(clean_text("  \t hello there \n"), "hello there");
    assert_eq!(clean_text("\u{a0}\u{3000}hi\u{2003}"), "hi");
    assert_eq!(clean_text(" \t\n "), "");
    assert_eq!(clean_text(""), "");
}

#[test]
fn removes_spans_up_to_the_first_closing_bracket() {
    assert_eq!(clean_text("a[b]c]d"), "acd");
    assert_eq!(clean_text("a(b)c)d"), "acd");
    assert_eq!(clean_text("a[]b()c"), "abc");
    assert_eq!(clean_text("a[b(c]d)e"), "ade");
    assert_eq!(clean_text("a[[b]]c"), "ac");
}

#[test]
fn keeps_what_follows_an_unclosed_bracket() {
    assert_eq!(clean_text("a[bc"), "abc");
    assert_eq!(clean_text("a(b [c] d"), "ab  d");
    assert_eq!(clean_text("a]b)c"), "abc");
    assert_eq!(clean_text("[a) (b]"), "");
}

#[test]
fn removes_characters_that_are_not_allowed() {
    assert_eq!(clean_text("it's 9:30 - ok? yes, fine. go!"), "it's 9:30 - ok? yes, fine. go!");
    assert_eq!(clean_text("a\tb"), "a\tb");
    assert_eq!(clean_text("caf\u{e9} @home #1 <b> 50% a_b a\nb"), "caf home 1 b 50 ab ab");
    assert_eq!(clean_text("\u{4f60}\u{597d}"), "");
}

#[test]
fn trims_again_after_the_removals() {
    assert_eq!(clean_text("[noise] hello (laughs)"), "hello");
    assert_eq!(clean_text("# hello *"), "hello");
    assert_eq!(clean_text("(a) [b]"), "");
}

#[test]
fn white_space_is_what_unicode_calls_white_space() {
    let mut code: u32 = 0;
    while code < 0x3100 {
        if let Some(c) = char::from_u32(code) {
            assert_eq!(is_space_char(c), c.is_whitespace());
        }
        code += 1;
    }
    assert!(!is_space_char('\u{200b}'));
    assert!(!is_space_char('\u{feff}'));
}

#[test]
fn allowed_characters_are_the_listed_ones() {
    let listed = "ABCDEFGHIJKLMNOPQRSTUVWXYZabcdefghijklmnopqrstuvwxyz0123456789.,?!:'- \t";
    let mut code: u32 = 0;
    while code < 0x300 {
        if let Some(c) = char::from_u32(code) {
            assert_eq!(is_allowed_char(c), listed.contains(c));
        }
        code += 1;
    }
}

#[test]
fn emits_the_first_segment_cleaned() {
    let segments: Vec<String> = vec![String::from(" turn it up [music] "), String::from("second")];
    assert_eq!(emission(&segments), Some(String::from("turn it up")));
}

#[test]
fn emits_nothing_without_text() {
    let none: Vec<String> = Vec::new();
    assert_eq!(emission(&none), None);
    let blank: Vec<String> = vec![String::from("  (coughs) "), String::from("second")];
    assert_eq!(emission(&blank), None);
    let empty: Vec<String> = vec![String::new()];
    assert_eq!(emission(&empty), None);
}
