use word_game::text::{chars_of, list_contains, push_decimal};
use word_game::words::{
    default_words, find_errors, load_list, mark_letters, read_from, validate_list, validate_word,
    InvalidWord, WordError, WordListError, MAX_LENGTH, MIN_LENGTH,
};

fn owned(words: &[&str]) -> Vec<String> {
    words.iter().map(|word| word.to_string()).collect()
}

#[test]
fn valid_word_comes_back_unchanged() {
    for word in ["cat", "those", "rainbow"] {
        assert_eq!(validate_word(word), Ok(word.to_string()));
    }
}

#[test]
fn valid_word_comes_back_in_lower_case() {
    assert_eq!(validate_word("HeLLo"), Ok("hello".to_string()));
    assert_eq!(validate_word("CAT"), Ok("cat".to_string()));
}

#[test]
fn digit_in_a_word_of_three() {
    assert_eq!(
        validate_word("Ab1"),
        Err(vec![WordError::InvalidCharacter { pos: 2, char: '1' }])
    );
}

#[test]
fn length_is_checked_on_both_sides() {
    assert_eq!(MIN_LENGTH, 3);
    assert_eq!(MAX_LENGTH, 7);
    assert_eq!(validate_word(""), Err(vec![WordError::InvalidLength { len: 0 }]));
    assert_eq!(validate_word("ab"), Err(vec![WordError::InvalidLength { len: 2 }]));
    assert_eq!(validate_word("abc"), Ok("abc".to_string()));
    assert_eq!(validate_word("abcdefg"), Ok("abcdefg".to_string()));
    assert_eq!(validate_word("abcdefgh"), Err(vec![WordError::InvalidLength { len: 8 }]));
}

#[test]
fn every_error_of_a_word_is_reported() {
    assert_eq!(
        validate_word("a b-c d_e"),
        Err(vec![
            WordError::InvalidLength { len: 9 },
            WordError::InvalidCharacter { pos: 1, char: ' ' },
            WordError::InvalidCharacter { pos: 3, char: '-' },
            WordError::InvalidCharacter { pos: 5, char: ' ' },
            WordError::InvalidCharacter { pos: 7, char: '_' },
        ])
    );
    assert_eq!(
        validate_word("X9"),
        Err(vec![
            WordError::InvalidLength { len: 2 },
            WordError::InvalidCharacter { pos: 1, char: '9' },
        ])
    );
}

#[test]
fn letters_are_marked_one_by_one() {
    assert_eq!(mark_letters("ab1 c"), vec![true, true, false, false, true]);
    assert_eq!(mark_letters(""), Vec::<bool>::new());
}

#[test]
fn errors_follow_the_marks() {
    assert_eq!(
        find_errors("ab1", &vec![true, true, false]),
        vec![WordError::InvalidCharacter { pos: 2, char: '1' }]
    );
    assert_eq!(
        find_errors("ab", &vec![false, true]),
        vec![
            WordError::InvalidLength { len: 2 },
            WordError::InvalidCharacter { pos: 0, char: 'a' },
        ]
    );
    assert_eq!(find_errors("abc", &vec![true, true, true]), vec![]);
}

#[test]
fn list_of_valid_words() {
    assert_eq!(
        validate_list(&owned(&["cat", "Dog", "THOSE"])),
        Ok(owned(&["cat", "dog", "those"]))
    );
    assert_eq!(validate_list(&[]), Ok(vec![]));
}

#[test]
fn list_with_an_empty_and_an_overlong_line() {
    let outcome = validate_list(&owned(&["cat", "", "toolong12345"]));
    assert_eq!(
        outcome,
        Err((
            owned(&["cat"]),
            vec![
                InvalidWord {
                    pos: 1,
                    word: String::new(),
                    errors: vec![WordError::InvalidLength { len: 0 }],
                },
                InvalidWord {
                    pos: 2,
                    word: "toolong12345".to_string(),
                    errors: vec![
                        WordError::InvalidLength { len: 12 },
                        WordError::InvalidCharacter { pos: 7, char: '1' },
                        WordError::InvalidCharacter { pos: 8, char: '2' },
                        WordError::InvalidCharacter { pos: 9, char: '3' },
                        WordError::InvalidCharacter { pos: 10, char: '4' },
                        WordError::InvalidCharacter { pos: 11, char: '5' },
                    ],
                },
            ]
        ))
    );
}

#[test]
fn invalid_lines_keep_their_text_and_place() {
    let outcome = validate_list(&owned(&["No!", "fine", "X", "Good"]));
    assert_eq!(
        outcome,
        Err((
            owned(&["fine", "good"]),
            vec![
                InvalidWord {
                    pos: 0,
                    word: "No!".to_string(),
                    errors: vec![WordError::InvalidCharacter { pos: 2, char: '!' }],
                },
                InvalidWord {
                    pos: 2,
                    word: "X".to_string(),
                    errors: vec![WordError::InvalidLength { len: 1 }],
                },
            ]
        ))
    );
}

#[test]
fn source_that_cannot_be_read() {
    assert_eq!(read_from(None), Err((vec![], WordListError::NoFile)));
}

#[test]
fn source_without_a_line() {
    assert_eq!(read_from(Some("")), Err((vec![], WordListError::Empty)));
    assert_eq!(load_list(&[]), Err((vec![], WordListError::Empty)));
}

#[test]
fn source_is_read_line_by_line() {
    assert_eq!(read_from(Some("cat\ndog\n")), Ok(owned(&["cat", "dog"])));
    assert_eq!(read_from(Some("Those\r\nGEESE")), Ok(owned(&["those", "geese"])));
}

#[test]
fn source_with_invalid_lines_gives_the_rest() {
    assert_eq!(
        read_from(Some("cat\n\nhi\nbird")),
        Err((
            owned(&["cat", "bird"]),
            WordListError::InvalidWords {
                words: vec![
                    InvalidWord {
                        pos: 1,
                        word: String::new(),
                        errors: vec![WordError::InvalidLength { len: 0 }],
                    },
                    InvalidWord {
                        pos: 2,
                        word: "hi".to_string(),
                        errors: vec![WordError::InvalidLength { len: 2 }],
                    },
                ]
            }
        ))
    );
}

#[test]
fn lines_are_loaded_as_they_are_given() {
    assert_eq!(load_list(&owned(&["cat", "DOG"])), Ok(owned(&["cat", "dog"])));
    assert_eq!(
        load_list(&owned(&["c4t"])),
        Err((
            vec![],
            WordListError::InvalidWords {
                words: vec![InvalidWord {
                    pos: 0,
                    word: "c4t".to_string(),
                    errors: vec![WordError::InvalidCharacter { pos: 1, char: '4' }],
                }]
            }
        ))
    );
}

#[test]
fn bundled_list_passes_validation() {
    let words = default_words();
    assert!(!words.is_empty());
    assert_eq!(validate_list(&words), Ok(words.clone()));
    for word in &words {
        assert!(word.len() >= 3 && word.len() <= 7);
        assert!(word.chars().all(|c| c.is_ascii_lowercase()));
    }
    assert_eq!(words[0], "cat");
    assert_eq!(words[words.len() - 1], "rainbow");
}

#[test]
fn word_errors_in_words() {
    assert_eq!(
        WordError::InvalidCharacter { pos: 12, char: '!' }.to_string(),
        "Invalid character '!' at index 12"
    );
    assert_eq!(
        WordError::InvalidLength { len: 0 }.to_string(),
        "Length of 0, it should be between 3 and 7"
    );
    assert_eq!(
        WordError::InvalidLength { len: 1024 }.to_string(),
        "Length of 1024, it should be between 3 and 7"
    );
}

#[test]
fn report_in_words() {
    let report = InvalidWord {
        pos: 2,
        word: "X9".to_string(),
        errors: vec![
            WordError::InvalidLength { len: 2 },
            WordError::InvalidCharacter { pos: 1, char: '9' },
        ],
    };
    assert_eq!(
        report.to_string(),
        "- 'X9' at index 2:\n    - Length of 2, it should be between 3 and 7\n    - Invalid character '9' at index 1"
    );
    let bare = InvalidWord { pos: 0, word: String::new(), errors: vec![] };
    assert_eq!(bare.to_string(), "- '' at index 0:\n");
}

#[test]
fn list_errors_in_words() {
    assert_eq!(WordListError::NoFile.to_string(), "File cannot be read/does not exist");
    assert_eq!(WordListError::Empty.to_string(), "Word list format is improperly formatted");
    let error = WordListError::InvalidWords {
        words: vec![
            InvalidWord {
                pos: 0,
                word: "a".to_string(),
                errors: vec![WordError::InvalidLength { len: 1 }],
            },
            InvalidWord {
                pos: 10,
                word: "b2b".to_string(),
                errors: vec![WordError::InvalidCharacter { pos: 1, char: '2' }],
            },
        ],
    };
    assert_eq!(
        error.to_string(),
        "Some words have errors:\n- 'a' at index 0:\n    - Length of 1, it should be between 3 and 7\n- 'b2b' at index 10:\n    - Invalid character '2' at index 1"
    );
}

#[test]
fn numbers_in_decimal() {
    for (n, digits) in [(0, "0"), (7, "7"), (10, "10"), (109, "109"), (65535, "65535")] {
        let mut text = String::from("n=");
        push_decimal(&mut text, n);
        assert_eq!(text, format!("n={}", digits));
    }
    let mut text = String::new();
    push_decimal(&mut text, usize::MAX);
    assert_eq!(text, usize::MAX.to_string());
}

#[test]
fn characters_of_a_text() {
    assert_eq!(chars_of("abc"), vec!['a', 'b', 'c']);
    assert_eq!(chars_of(""), Vec::<char>::new());
}

#[test]
fn word_is_found_in_a_list() {
    let words = owned(&["those", "geese"]);
    assert!(list_contains(&words, "geese"));
    assert!(!list_contains(&words, "Geese"));
    assert!(!list_contains(&vec![], "geese"));
}
