use lexscan::scanner::{pair, unit_end, CharClass};
use lexscan::text::{
    chars_of, decimal_digit, marked, only_digits, only_word_chars, spells, word_char, word_marks_of,
};

#[test]
fn characters_fall_into_classes() {
    assert_eq!(CharClass::of(' '), CharClass::Blank);
    assert_eq!(CharClass::of('\t'), CharClass::Blank);
    assert_eq!(CharClass::of('a'), CharClass::WordStart);
    assert_eq!(CharClass::of('z'), CharClass::WordStart);
    assert_eq!(CharClass::of('A'), CharClass::WordStart);
    assert_eq!(CharClass::of('Z'), CharClass::WordStart);
    assert_eq!(CharClass::of('_'), CharClass::WordStart);
    assert_eq!(CharClass::of('0'), CharClass::Digit);
    assert_eq!(CharClass::of('9'), CharClass::Digit);
    assert_eq!(CharClass::of('/'), CharClass::Slash);
    for c in ['&', '|', '=', '!', '<', '>'] {
        assert_eq!(CharClass::of(c), CharClass::PairStart);
    }
    for c in ['{', ';', '#', '@', '\n', '\u{e9}', '`', '[', '{', ':'] {
        assert_eq!(CharClass::of(c), CharClass::Other);
    }
}

#[test]
fn only_eight_pairs_are_operators() {
    let starts = ['&', '|', '=', '!', '<', '>', '/', 'a'];
    let valid = [('&', '&'), ('|', '|'), ('=', '='), ('!', '='), ('<', '='), ('>', '='), ('<', '<'), ('>', '>')];
    for a in starts {
        for b in starts {
            assert_eq!(pair(a, b), valid.contains(&(a, b)));
        }
    }
}

#[test]
fn decimal_digits_are_zero_to_nine() {
    for c in '0'..='9' {
        assert!(decimal_digit(c));
    }
    assert!(!decimal_digit('/'));
    assert!(!decimal_digit(':'));
    assert!(!decimal_digit('a'));
    assert!(!decimal_digit('\u{663}'));
}

#[test]
fn word_characters_are_letters_numbers_and_underscore() {
    assert!(word_char('a'));
    assert!(word_char('Q'));
    assert!(word_char('7'));
    assert!(word_char('_'));
    assert!(word_char('\u{e9}'));
    assert!(!word_char('-'));
    assert!(!word_char(' '));
    assert!(!word_char('#'));
}

#[test]
fn chars_of_keeps_every_character_in_order() {
    assert_eq!(chars_of(""), Vec::<char>::new());
    assert_eq!(chars_of("a\u{e9}1"), vec!['a', '\u{e9}', '1']);
}

#[test]
fn spells_compares_whole_texts() {
    let text = vec!['i', 'f'];
    assert!(spells(&text, "if"));
    assert!(!spells(&text, "i"));
    assert!(!spells(&text, "ifx"));
    assert!(!spells(&text, "of"));
    assert!(!spells(&text, ""));
    assert!(spells(&Vec::new(), ""));
}

#[test]
fn shape_tests_hold_of_the_empty_text() {
    assert!(only_digits(&Vec::new()));
    assert!(only_word_chars(&Vec::new()));
    assert!(only_digits(&vec!['4', '2']));
    assert!(!only_digits(&vec!['4', 'x']));
    assert!(only_word_chars(&vec!['4', 'x', '_']));
    assert!(!only_word_chars(&vec!['4', '.']));
}

#[test]
fn word_marks_tell_identifier_characters_apart() {
    assert_eq!(word_marks_of(&Vec::new()), Vec::<bool>::new());
    assert_eq!(
        word_marks_of(&chars_of("a1_ -\u{e9}/")),
        vec![true, true, true, false, false, true, false]
    );
}

#[test]
fn marked_asks_for_every_mark_in_the_range() {
    let marks = vec![true, false, true, true];
    assert!(marked(&marks, 0, 0));
    assert!(marked(&marks, 0, 1));
    assert!(!marked(&marks, 0, 2));
    assert!(!marked(&marks, 1, 2));
    assert!(marked(&marks, 2, 4));
    assert!(!marked(&marks, 0, 4));
    assert!(marked(&marks, 4, 4));
}

#[test]
fn unit_end_takes_the_longest_match() {
    let chars = chars_of("abc123+ 42x <=< /");
    let word = word_marks_of(&chars);
    assert_eq!(unit_end(&chars, &word, 0), 6);
    assert_eq!(unit_end(&chars, &word, 3), 6);
    assert_eq!(unit_end(&chars, &word, 6), 7);
    assert_eq!(unit_end(&chars, &word, 7), 8);
    assert_eq!(unit_end(&chars, &word, 8), 10);
    assert_eq!(unit_end(&chars, &word, 10), 11);
    assert_eq!(unit_end(&chars, &word, 12), 14);
    assert_eq!(unit_end(&chars, &word, 14), 15);
    assert_eq!(unit_end(&chars, &word, 16), 17);
}

#[test]
fn unit_end_goes_by_the_marks_it_is_given() {
    let chars = chars_of("abcd");
    assert_eq!(unit_end(&chars, &vec![true, true, false, true], 0), 2);
    assert_eq!(unit_end(&chars, &vec![false, false, false, false], 0), 1);
    assert_eq!(unit_end(&chars, &vec![false, true, true, true], 0), 4);
}
