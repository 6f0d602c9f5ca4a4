use card_api::text::{chars_of, split_commas, string_from_chars, to_ascii_lowercase, trim_string};

#[test]
fn trim_removes_unicode_whitespace_at_both_ends() {
    assert_eq!(trim_string("  NG  "), "NG");
    assert_eq!(trim_string("\u{a0}\tK P\n"), "K P");
    assert_eq!(trim_string("   "), "");
    assert_eq!(trim_string(""), "");
}

#[test]
fn split_keeps_empty_pieces() {
    assert_eq!(split_commas("a,,b"), vec!["a", "", "b"]);
    assert_eq!(split_commas(""), vec![""]);
    assert_eq!(split_commas(","), vec!["", ""]);
    assert_eq!(split_commas("NG, IR"), vec!["NG", " IR"]);
}

#[test]
fn ascii_lowercase_leaves_other_characters() {
    assert_eq!(to_ascii_lowercase("PaN-Ü9"), "pan-Ü9");
}

#[test]
fn chars_round_trip() {
    let v = chars_of("héllo");
    assert_eq!(v, vec!['h', 'é', 'l', 'l', 'o']);
    assert_eq!(string_from_chars(&v, 1, 4), "éll");
}
