use scraper::text::{chars_of, replace_all, same_text, split_nonempty, string_of};

#[test]
fn replace_all_replaces_left_to_right_without_overlap() {
    let r = replace_all(&chars_of("aaaa"), &chars_of("aa"), &chars_of("b"));
    assert_eq!(string_of(&r), "bb");
    let r = replace_all(&chars_of("xaaay"), &chars_of("aa"), &chars_of(""));
    assert_eq!(string_of(&r), "xay");
    let r = replace_all(&chars_of("abc"), &chars_of("abcd"), &chars_of("z"));
    assert_eq!(string_of(&r), "abc");
    let r = replace_all(&chars_of("h\u{e9}llo"), &chars_of("l"), &chars_of("LL"));
    assert_eq!(string_of(&r), "h\u{e9}LLLLo");
}

#[test]
fn split_nonempty_matches_std_split_and_filter() {
    for s in ["", "\n", "a", "a\nb", "\na\n\nb\n", "x\n\n\ny z\n"] {
        let expected: Vec<String> =
            s.split('\n').map(|p| p.to_string()).filter(|p| !p.is_empty()).collect();
        assert_eq!(split_nonempty(s, '\n'), expected);
    }
    assert_eq!(split_nonempty("a,b,,c", ','), vec!["a", "b", "c"]);
}

#[test]
fn same_text_compares_characters() {
    assert!(same_text("price", "price"));
    assert!(!same_text("price", "Price"));
    assert!(!same_text("", "a"));
}

#[test]
fn chars_round_trip() {
    let s = "r\u{f6}\u{f6}m";
    assert_eq!(chars_of(s), vec!['r', '\u{f6}', '\u{f6}', 'm']);
    assert_eq!(string_of(&chars_of(s)), s);
}
