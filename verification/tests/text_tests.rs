use uplink::text::{
    char_is_whitespace, decimal_string, escape_js_text, escape_js_text_keep_backslash,
    is_blank_str, lines_str, replace_str, split_str, trim_str,
};

#[test]
fn whitespace_matches_std() {
    for c in ['\t', '\n', ' ', '\u{85}', '\u{a0}', '\u{2003}', '\u{3000}', 'a', '0', '_', '\u{200b}'] {
        assert_eq!(char_is_whitespace(c), c.is_whitespace());
    }
}

#[test]
fn blank_text() {
    assert!(is_blank_str(""));
    assert!(is_blank_str(" \t\n"));
    assert!(!is_blank_str(" x "));
}

#[test]
fn split_keeps_empty_pieces() {
    assert_eq!(split_str("a\n\nb\n", '\n'), vec!["a", "", "b", ""]);
    assert_eq!(split_str("", '\n'), vec![""]);
    assert_eq!(split_str("abc", '|'), vec!["abc"]);
}

#[test]
fn lines_follow_std() {
    for s in ["", "a", "a\n", "a\r\nb", "a\rb\r", "\n", "x\n\ny\r\n", "end\r"] {
        let expected: Vec<String> = s.lines().map(|l| l.to_string()).collect();
        assert_eq!(lines_str(s), expected, "input {:?}", s);
    }
}

#[test]
fn escape_for_script() {
    assert_eq!(escape_js_text("a\\b\"c\nd"), "a\\\\b\\\"c\\nd");
    assert_eq!(escape_js_text_keep_backslash("a\\b\"c\nd"), "a\\b\\\"c\\nd");
}

#[test]
fn escape_is_the_chained_replace() {
    let s = "say \"hi\"\\\nbye";
    let chained = s.replace('\\', "\\\\").replace('"', "\\\"").replace('\n', "\\n");
    assert_eq!(escape_js_text(s), chained);
    let chained2 = s.replace('"', "\\\"").replace('\n', "\\n");
    assert_eq!(escape_js_text_keep_backslash(s), chained2);
}

#[test]
fn keep_backslash_escape_is_not_one_to_one() {
    // a backslash followed by 'n', and a line feed, come out the same
    assert_eq!(escape_js_text_keep_backslash("\\n"), escape_js_text_keep_backslash("\n"));
    assert_ne!(escape_js_text("\\n"), escape_js_text("\n"));
}

#[test]
fn replace_matches_std() {
    for (h, p, r) in [("$UUID-$UUID", "$UUID", "x"), ("aaa", "aa", "b"), ("none", "$X", "y"), ("", "a", "b"), ("abc", "", "-"), ("", "", "x"), ("é", "", "+")] {
        assert_eq!(replace_str(h, p, r), h.replace(p, r));
    }
}

#[test]
fn decimal_text() {
    assert_eq!(decimal_string(0), "0");
    assert_eq!(decimal_string(1025), "1025");
    assert_eq!(decimal_string(u64::MAX), u64::MAX.to_string());
}

#[test]
fn trim_matches_std() {
    for s in ["", "  ", " a b ", "\u{3000}x\t", "x"] {
        assert_eq!(trim_str(s), s.trim());
    }
}

#[test]
fn init_escape_reads_back_without_backslash() {
    // the same escape as the sync script when the text has no backslash
    let t = "say \"hi\"\nnow";
    assert_eq!(escape_js_text_keep_backslash(t), escape_js_text(t));
}
