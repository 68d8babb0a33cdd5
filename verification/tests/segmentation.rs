use textshape::segment::{split_words, words_in_visual_order, Direction, UnicodeScripts};

fn tag(name: &[u8; 4]) -> u32 {
    u32::from_be_bytes(*name)
}

#[test]
fn latin_and_arabic_segment_into_two_runs() {
    let mut it = "Hello مرحبا".unicode_scripts();

    let first = it.next().expect("first run");
    assert_eq!(first.text, "Hello ");
    assert_eq!(first.direction, Direction::Ltr);
    assert_eq!(first.script, tag(b"Latn"));

    let second = it.next().expect("second run");
    assert_eq!(second.text, "مرحبا");
    assert_eq!(second.direction, Direction::Rtl);
    assert_eq!(second.script, tag(b"Arab"));

    assert!(it.next().is_none());
}

#[test]
fn wildcard_only_text_is_one_ltr_run() {
    let mut it = "!!!".unicode_scripts();
    let run = it.next().expect("one run");
    assert_eq!(run.text, "!!!");
    assert_eq!(run.direction, Direction::Ltr);
    // '!' carries the Common pseudo-script, and an all-wildcard run keeps it.
    assert_eq!(run.script, tag(b"Zyyy"));
    assert!(it.next().is_none());
}

#[test]
fn wildcards_join_the_surrounding_concrete_run() {
    let mut it = "ab12 cd".unicode_scripts();
    let run = it.next().expect("one run");
    assert_eq!(run.text, "ab12 cd");
    assert_eq!(run.script, tag(b"Latn"));
    assert!(it.next().is_none());
}

#[test]
fn runs_concatenate_back_to_the_input() {
    let input = "abcαβγ123мир";
    let mut it = input.unicode_scripts();
    let mut rebuilt = String::new();
    while let Some(run) = it.next() {
        rebuilt.push_str(&run.text);
    }
    assert_eq!(rebuilt, input);
}

#[test]
fn a_fresh_iterator_restarts_from_the_beginning() {
    let text = String::from("Hello مرحبا");
    let mut first_pass = text.unicode_scripts();
    let mut second_pass = text.unicode_scripts();
    loop {
        match (first_pass.next(), second_pass.next()) {
            (None, None) => break,
            (a, b) => {
                let a = a.expect("both passes agree");
                let b = b.expect("both passes agree");
                assert_eq!(a.text, b.text);
                assert_eq!(a.script, b.script);
                assert_eq!(a.direction, b.direction);
            },
        }
    }
}

#[test]
fn empty_input_yields_no_runs() {
    let mut it = "".unicode_scripts();
    assert!(it.next().is_none());
}

#[test]
fn direction_of_char_follows_bidi_class() {
    assert_eq!(Direction::of_char('a'), Direction::Ltr);
    assert_eq!(Direction::of_char('م'), Direction::Rtl);
    assert_eq!(Direction::of_char('ש'), Direction::Rtl);
    assert_eq!(Direction::of_char('!'), Direction::Ltr);
    assert_eq!(Direction::of_char('1'), Direction::Ltr);
}

#[test]
fn words_split_inclusively_on_spaces() {
    assert_eq!(split_words("one two three"), vec!["one ", "two ", "three"]);
    assert_eq!(split_words("a b  c"), vec!["a ", "b ", " ", "c"]);
    assert_eq!(split_words("trailing "), vec!["trailing "]);
    assert_eq!(split_words(" "), vec![" "]);
    assert!(split_words("").is_empty());
}

#[test]
fn rtl_reverses_word_order_but_not_characters() {
    let ltr = words_in_visual_order("one two three", Direction::Ltr);
    let rtl = words_in_visual_order("one two three", Direction::Rtl);

    assert_eq!(ltr, vec!["one ", "two ", "three"]);
    assert_eq!(rtl, vec!["three", "two ", "one "]);

    // The reversed sequence holds the same words, characters untouched.
    let mut back = rtl.clone();
    back.reverse();
    assert_eq!(back, ltr);
}

#[test]
fn rtl_word_order_on_arabic_text() {
    let words = words_in_visual_order("أنا أحب البرمجة", Direction::Rtl);
    let logical = words_in_visual_order("أنا أحب البرمجة", Direction::Ltr);
    assert_eq!(words.len(), 3);
    assert_eq!(words[0], logical[2]);
    assert_eq!(words[1], logical[1]);
    assert_eq!(words[2], logical[0]);
}
