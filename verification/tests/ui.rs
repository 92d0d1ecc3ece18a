use word_game::ui::{
    board_origin, error_area, keyboard_origin, minimum_size, word_boxes, App, AppEndState,
    AppState, BoxBorders, BoxColor, Key, LetterBox, LetterBoxStyle,
};
use word_game::wordle::{LetterScore, WordleGame};

fn app() -> App {
    let words = vec!["those".to_string(), "geese".to_string()];
    App::new(WordleGame::new_with_answer(words, "those"))
}

fn type_word(app: &mut App, word: &str) {
    for char in word.chars() {
        app.update(Key::Char { char, control: false });
    }
}

#[test]
fn session_starts_empty() {
    let app = app();
    assert_eq!(app.state(), AppState::InProgress);
    assert_eq!(app.guess(), "");
    assert_eq!(app.error(), "");
    assert!(app.tries().is_empty());
    assert_eq!(app.game().lives(), 5);
}

#[test]
fn typing_stops_at_the_length_of_the_answer() {
    let mut app = app();
    type_word(&mut app, "gee");
    assert_eq!(app.guess(), "gee");
    type_word(&mut app, "sexyz");
    assert_eq!(app.guess(), "geese");
}

#[test]
fn backspace_takes_the_last_character_back() {
    let mut app = app();
    app.update(Key::Backspace);
    assert_eq!(app.guess(), "");
    type_word(&mut app, "ge");
    app.update(Key::Backspace);
    assert_eq!(app.guess(), "g");
}

#[test]
fn scored_guess_joins_the_tries() {
    let mut app = app();
    type_word(&mut app, "geese");
    app.update(Key::Enter);
    assert_eq!(app.guess(), "");
    assert_eq!(app.error(), "");
    assert_eq!(
        app.tries(),
        &vec![(
            "geese".to_string(),
            vec![
                LetterScore::Wrong,
                LetterScore::Wrong,
                LetterScore::Wrong,
                LetterScore::Correct,
                LetterScore::Correct
            ]
        )]
    );
    assert_eq!(app.game().lives(), 4);
    assert_eq!(app.state(), AppState::InProgress);
}

#[test]
fn refused_guess_leaves_its_reason() {
    let mut app = app();
    type_word(&mut app, "gee");
    app.update(Key::Enter);
    assert_eq!(app.guess(), "");
    assert_eq!(app.error(), "Input should be the same length as the word");
    assert!(app.tries().is_empty());
    type_word(&mut app, "tests");
    app.update(Key::Enter);
    assert_eq!(app.error(), "This word is not in a dictionary");
    assert_eq!(app.game().lives(), 5);
    type_word(&mut app, "those");
    app.update(Key::Enter);
    assert_eq!(app.error(), "");
    assert_eq!(app.tries().len(), 1);
}

#[test]
fn escape_and_control_c_close_the_session() {
    let mut app = app();
    app.update(Key::Esc);
    assert_eq!(app.state(), AppState::End(AppEndState::Close { forced: false }));
    let mut app = self::app();
    app.update(Key::Char { char: 'c', control: true });
    assert_eq!(app.state(), AppState::End(AppEndState::Close { forced: true }));
    assert_eq!(app.guess(), "");
    let mut app = self::app();
    app.update(Key::Char { char: 'x', control: true });
    assert_eq!(app.state(), AppState::InProgress);
    assert_eq!(app.guess(), "x");
    app.update(Key::Other);
    assert_eq!(app.guess(), "x");
}

#[test]
fn closed_session_takes_no_guess() {
    let mut app = app();
    type_word(&mut app, "geese");
    app.update(Key::Esc);
    app.update(Key::Enter);
    assert_eq!(app.guess(), "geese");
    assert!(app.tries().is_empty());
    assert_eq!(app.game().lives(), 5);
}

#[test]
fn current_row_is_padded_with_spaces() {
    let mut app = app();
    assert_eq!(app.current_row(), ("     ".to_string(), vec![LetterScore::Wrong; 5]));
    type_word(&mut app, "g3");
    assert_eq!(
        app.current_row(),
        (
            "g3   ".to_string(),
            vec![
                LetterScore::Unknown,
                LetterScore::Wrong,
                LetterScore::Wrong,
                LetterScore::Wrong,
                LetterScore::Wrong
            ]
        )
    );
}

#[test]
fn board_shows_tries_then_the_guess_then_what_is_left() {
    let mut app = app();
    type_word(&mut app, "geese");
    app.update(Key::Enter);
    type_word(&mut app, "th");
    let rows = app.rows();
    assert_eq!(rows.len(), 1 + 1 + 4);
    assert_eq!(rows[0], app.tries()[0]);
    assert_eq!(rows[1], app.current_row());
    for row in &rows[2..] {
        assert_eq!(*row, ("     ".to_string(), vec![LetterScore::Wrong; 5]));
    }
}

#[test]
fn keyboard_shows_what_is_remembered() {
    let mut app = app();
    type_word(&mut app, "geese");
    app.update(Key::Enter);
    let rows = app.keyboard();
    let letters: Vec<String> =
        rows.iter().map(|row| row.iter().map(|(c, _)| *c).collect()).collect();
    assert_eq!(letters, vec!["qwertyuiop", "asdfghjkl", "zxcvbnm"]);
    for row in &rows {
        for (letter, score) in row {
            let expected = match letter {
                'e' | 's' => LetterScore::Correct,
                _ => LetterScore::Wrong,
            };
            assert_eq!(*score, expected);
        }
    }
}

#[test]
fn style_of_each_score() {
    assert_eq!(
        LetterBoxStyle::from(LetterScore::Unknown),
        LetterBoxStyle {
            background: BoxColor::DarkGray,
            borders: BoxBorders { top: false, right: false, bottom: true, left: false }
        }
    );
    assert_eq!(
        LetterBoxStyle::from(LetterScore::Wrong),
        LetterBoxStyle {
            background: BoxColor::Black,
            borders: BoxBorders { top: false, right: false, bottom: false, left: false }
        }
    );
    assert_eq!(
        LetterBoxStyle::from(LetterScore::Present),
        LetterBoxStyle {
            background: BoxColor::Yellow,
            borders: BoxBorders { top: false, right: true, bottom: false, left: true }
        }
    );
    assert_eq!(
        LetterBoxStyle::from(LetterScore::Correct),
        LetterBoxStyle {
            background: BoxColor::Green,
            borders: BoxBorders { top: true, right: true, bottom: true, left: true }
        }
    );
}

#[test]
fn box_positions_and_sizes() {
    assert_eq!(LetterBox::compute_new_pos((3, 2), (0, 0)), (3, 2));
    assert_eq!(LetterBox::compute_new_pos((3, 2), (2, 5)), (17, 22));
    assert_eq!(LetterBox::compute_size((0, 0)), (0, 0));
    assert_eq!(LetterBox::compute_size((1, 1)), (5, 3));
    assert_eq!(LetterBox::compute_size((10, 3)), (68, 11));
    let letter_box = LetterBox::new((1, 2), 'x', LetterScore::Correct);
    assert_eq!(letter_box.pos, (1, 2));
    assert_eq!(letter_box.char, 'x');
    assert_eq!(letter_box.style, LetterBoxStyle::from(LetterScore::Correct));
}

#[test]
fn boxes_of_a_word() {
    let boxes = word_boxes((10, 2), "hi", &[LetterScore::Present, LetterScore::Wrong]);
    assert_eq!(
        boxes,
        vec![
            LetterBox::new((10, 2), 'h', LetterScore::Present),
            LetterBox::new((17, 2), 'i', LetterScore::Wrong)
        ]
    );
    assert_eq!(word_boxes((65535, 0), "", &[]), vec![]);
}

#[test]
fn layout_of_the_screen() {
    assert_eq!(minimum_size(5), (72, 43));
    assert_eq!(minimum_size(0), (72, 23));
    assert_eq!(board_origin(80, 5), (23, 2));
    assert_eq!(board_origin(33, 5), (0, 2));
    assert_eq!(keyboard_origin(80, 50, 0), (6, 37));
    assert_eq!(keyboard_origin(80, 50, 1), (10, 41));
    assert_eq!(keyboard_origin(80, 50, 2), (14, 45));
    assert_eq!(error_area(80, 50), ((2, 35), (78, 2)));
}
