use uplink::seed::{
    seed_copy_text, seed_word_rows, split_ascii_whitespace_words, split_whitespace_words,
};
use uplink::text::join_str;

fn words(v: &[&str]) -> Vec<String> {
    v.iter().map(|w| w.to_string()).collect()
}

#[test]
fn phrase_splits_into_words() {
    let phrase = "abandon  ability\table\nabout ";
    assert_eq!(
        split_ascii_whitespace_words(phrase),
        words(&["abandon", "ability", "able", "about"])
    );
    assert_eq!(split_ascii_whitespace_words("   "), Vec::<String>::new());
    assert_eq!(split_ascii_whitespace_words(""), Vec::<String>::new());
    // a no-break space separates words only under the Unicode rule
    assert_eq!(split_ascii_whitespace_words("a\u{a0}b"), words(&["a\u{a0}b"]));
    assert_eq!(split_whitespace_words("a\u{a0}b"), words(&["a", "b"]));
    // vertical tab is whitespace, but not ASCII whitespace
    assert_eq!(split_ascii_whitespace_words("a\u{0b}b"), words(&["a\u{0b}b"]));
    assert_eq!(split_whitespace_words("a\u{0b}b"), words(&["a", "b"]));
}

#[test]
fn copy_text_is_one_word_per_line() {
    let ws = words(&["abandon", "ability", "able"]);
    assert_eq!(seed_copy_text(&ws), "abandon\nability\nable");
    assert_eq!(seed_copy_text(&Vec::new()), "");
    assert_eq!(seed_copy_text(&words(&["one"])), "one");
    // what is copied reads back as the same words
    assert_eq!(split_ascii_whitespace_words(&seed_copy_text(&ws)), ws);
    assert_eq!(split_whitespace_words(&seed_copy_text(&ws)), ws);
}

#[test]
fn rows_pair_the_words() {
    let ws = words(&["a", "b", "c", "d", "e"]);
    let rows = seed_word_rows(&ws);
    assert_eq!(rows.len(), 2);
    assert_eq!(rows[0].first_number, 1);
    assert_eq!(rows[0].first_word, "a");
    assert_eq!(rows[0].second_number, 2);
    assert_eq!(rows[0].second_word, "b");
    assert_eq!(rows[1].first_number, 3);
    assert_eq!(rows[1].first_word, "c");
    assert_eq!(rows[1].second_number, 4);
    assert_eq!(rows[1].second_word, "d");
    assert!(seed_word_rows(&words(&["x"])).is_empty());
}

#[test]
fn join_puts_separator_between_pieces() {
    assert_eq!(join_str(&words(&["ann", "bob"]), ", "), "ann, bob");
    assert_eq!(join_str(&words(&[]), ", "), "");
    assert_eq!(join_str(&words(&["", ""]), "-"), "-");
}
