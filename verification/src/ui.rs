//! The state of the screen and what each key does to it, and the geometry
//! of the letter boxes. Drawing and reading keys are left to the program.

use crate::text::alphabetic;
use crate::wordle::{GameView, LetterScore, WordleGame};
use vstd::prelude::*;
use vstd::std_specs::convert::FromSpecImpl;
use vstd::string::*;

verus! {

/// How a session ended.
#[derive(Debug, Clone, Copy, PartialEq, PartialOrd, Eq, Structural)]
pub enum AppEndState {
    Won,
    Lost,
    Close { forced: bool },
}

/// Whether a session is still going on.
#[derive(Debug, Clone, Copy, PartialEq, PartialOrd, Eq, Structural)]
pub enum AppState {
    InProgress,
    End(AppEndState),
}

/// A key press, as far as the game tells keys apart.
#[derive(Debug, Clone, Copy, PartialEq, Eq, Structural)]
pub enum Key {
    Enter,
    /// A character key; `control` says that the control key, and no other
    /// modifier, was held down with it.
    Char { char: char, control: bool },
    Backspace,
    Esc,
    Other,
}

/// One row of the board: a word and the score of each of its characters.
pub type Row = (String, Vec<LetterScore>);

/// A row of the board as a mathematical value.
pub type RowView = (Seq<char>, Seq<LetterScore>);

/// The rows of a list as mathematical values, in order.
pub open spec fn row_views(rows: Seq<Row>) -> Seq<RowView> {
    rows.map_values(|row: Row| (row.0@, row.1@))
}

/// The screen as a mathematical value.
pub struct AppView {
    pub game: GameView,
    /// What the player has typed since the last guess.
    pub guess: Seq<char>,
    /// Why the last guess was turned down, if it was.
    pub error: Seq<char>,
    /// The guesses made, each with its scores.
    pub tries: Seq<RowView>,
    pub state: AppState,
}

impl AppView {
    /// The screen at the start of a session on `game`.
    pub open spec fn start(game: GameView) -> AppView {
        AppView {
            game,
            guess: Seq::empty(),
            error: Seq::empty(),
            tries: Seq::empty(),
            state: AppState::InProgress,
        }
    }

    /// The screen after the character `c` was typed: it is added to the
    /// guess unless that has the length of the answer already.
    pub open spec fn typed(self, c: char) -> AppView {
        if self.guess.len() < self.game.answer.len() {
            AppView { guess: self.guess.push(c), ..self }
        } else {
            self
        }
    }

    /// The screen after the last character typed was taken back.
    pub open spec fn erased(self) -> AppView {
        if self.guess.len() > 0 {
            AppView { guess: self.guess.drop_last(), ..self }
        } else {
            self
        }
    }

    /// The screen after the guess was handed in. While the session goes
    /// on, the game plays it: a guess that is scored joins the tries, one
    /// that is turned down leaves its reason behind. Either way the player
    /// starts typing afresh.
    pub open spec fn submitted(self) -> AppView {
        if self.state == AppState::InProgress {
            match self.game.judge_input(self.guess) {
                Ok(scores) => AppView {
                    game: self.game.step_input(self.guess),
                    guess: Seq::empty(),
                    error: Seq::empty(),
                    tries: self.tries.push((self.guess, scores)),
                    state: self.state,
                },
                Err(error) => AppView { guess: Seq::empty(), error: error.text(), ..self },
            }
        } else {
            self
        }
    }

    /// The screen after a key press.
    pub open spec fn after(self, key: Key) -> AppView {
        match key {
            Key::Enter => self.submitted(),
            Key::Char { char, control } => if control && char == 'c' {
                AppView { state: AppState::End(AppEndState::Close { forced: true }), ..self }
            } else {
                self.typed(char)
            },
            Key::Backspace => self.erased(),
            Key::Esc => AppView {
                state: AppState::End(AppEndState::Close { forced: false }),
                ..self
            },
            Key::Other => self,
        }
    }

    /// Whether the game can take the guess that `key` may hand in.
    pub open spec fn can_take(self, key: Key) -> bool {
        key == Key::Enter && self.state == AppState::InProgress ==> self.game.lives > 0
    }

    /// The row of the guess being typed: the guess, filled up with spaces
    /// to the length of the answer and cut off there, with `Unknown` under
    /// each alphabetic character and `Wrong` under the others.
    pub open spec fn current_row(self) -> RowView {
        let padded = Seq::new(
            self.game.answer.len(),
            |i: int|
                if i < self.guess.len() {
                    self.guess[i]
                } else {
                    ' '
                },
        );
        (
            padded,
            Seq::new(
                self.game.answer.len(),
                |i: int|
                    if alphabetic(padded[i]) {
                        LetterScore::Unknown
                    } else {
                        LetterScore::Wrong
                    },
            ),
        )
    }

    /// The row of a guess not yet made: spaces, all `Wrong`.
    pub open spec fn future_row(self) -> RowView {
        (Seq::new(self.game.answer.len(), |i: int| ' '), self.game.empty_row())
    }

    /// The rows of the board from the top: the tries, the guess being
    /// typed, and an empty row for each guess that is left.
    pub open spec fn rows(self) -> Seq<RowView> {
        self.tries.push(self.current_row()) + Seq::new(self.game.lives, |i: int| self.future_row())
    }
}

/// The letters of the keyboard, row by row from the top.
pub open spec fn keyboard_rows() -> Seq<Seq<char>> {
    seq!["qwertyuiop"@, "asdfghjkl"@, "zxcvbnm"@]
}

/// The screen: the game, what the player is typing, and what was played.
pub struct App {
    game: WordleGame,
    guess: String,
    error: String,
    tries: Vec<Row>,
    state: AppState,
}

impl View for App {
    type V = AppView;

    closed spec fn view(&self) -> AppView {
        AppView {
            game: self.game@,
            guess: self.guess@,
            error: self.error@,
            tries: row_views(self.tries@),
            state: self.state,
        }
    }
}

fn copy_scores(scores: &Vec<LetterScore>) -> (copy: Vec<LetterScore>)
    ensures
        copy@ == scores@,
{
    let mut copy: Vec<LetterScore> = Vec::new();
    let mut i: usize = 0;
    while i < scores.len()
        invariant
            i <= scores@.len(),
            copy@ == scores@.take(i as int),
        decreases scores@.len() - i,
    {
        copy.push(scores[i]);
        proof {
            assert(copy@ =~= scores@.take(i + 1));
        }
        i += 1;
    }
    proof {
        assert(scores@.take(scores@.len() as int) =~= scores@);
    }
    copy
}

impl App {
    /// The screen at the start of a session on `game`.
    pub fn new(game: WordleGame) -> (app: App)
        ensures
            app@ == AppView::start(game@),
    {
        let app = App {
            game,
            guess: String::new(),
            error: String::new(),
            tries: Vec::new(),
            state: AppState::InProgress,
        };
        proof {
            assert(app@.tries =~= Seq::<RowView>::empty());
        }
        app
    }

    /// Takes a key press. Where it hands in a guess while the session goes
    /// on, the game must have a guess left.
    pub fn update(&mut self, key: Key)
        requires
            old(self)@.can_take(key),
        ensures
            final(self)@ == old(self)@.after(key),
    {
        match key {
            Key::Enter => self.submit_input(),
            Key::Char { char, control } => {
                if control && char == 'c' {
                    self.state = AppState::End(AppEndState::Close { forced: true });
                } else {
                    self.add_to_input(char);
                }
            },
            Key::Backspace => self.remove_from_input(),
            Key::Esc => {
                self.state = AppState::End(AppEndState::Close { forced: false });
            },
            Key::Other => {},
        }
    }

    /// Whether the session is still going on.
    pub fn state(&self) -> (state: AppState)
        ensures
            state == self@.state,
    {
        self.state
    }

    /// The game on the screen.
    pub fn game(&self) -> (game: &WordleGame)
        ensures
            game@ == self@.game,
    {
        &self.game
    }

    /// What the player has typed since the last guess.
    pub fn guess(&self) -> (guess: &str)
        ensures
            guess@ == self@.guess,
    {
        self.guess.as_str()
    }

    /// Why the last guess was turned down; empty if it was not.
    pub fn error(&self) -> (error: &str)
        ensures
            error@ == self@.error,
    {
        self.error.as_str()
    }

    /// The guesses made, each with its scores.
    pub fn tries(&self) -> (tries: &Vec<Row>)
        ensures
            row_views(tries@) == self@.tries,
    {
        &self.tries
    }

    fn add_to_input(&mut self, c: char)
        ensures
            final(self)@ == old(self)@.typed(c),
    {
        if self.guess.as_str().unicode_len() < self.game.guess_empty().len() {
            self.guess.push(c);
        }
    }

    fn remove_from_input(&mut self)
        ensures
            final(self)@ == old(self)@.erased(),
    {
        self.guess.pop();
    }

    fn submit_input(&mut self)
        requires
            old(self)@.state == AppState::InProgress ==> old(self)@.game.lives > 0,
        ensures
            final(self)@ == old(self)@.submitted(),
    {
        if self.state == AppState::InProgress {
            let score = self.game.guess(self.guess.as_str());
            match score {
                Ok(score) => {
                    proof {
                        assert(row_views(self.tries@.push((self.guess, score))) =~= row_views(
                            self.tries@,
                        ).push((self.guess@, score@)));
                    }
                    self.tries.push((self.guess.clone(), score));
                    self.guess.clear();
                    self.error.clear();
                },
                Err(error) => {
                    self.guess.clear();
                    self.error = error.to_string();
                },
            }
        }
    }

    /// The row to draw for the guess being typed.
    pub fn current_row(&self) -> (row: Row)
        ensures
            (row.0@, row.1@) == self@.current_row(),
    {
        let n: usize = self.game.guess_empty().len();
        let typed: usize = self.guess.as_str().unicode_len();
        let mut padded: String = String::new();
        let mut scores: Vec<LetterScore> = Vec::new();
        let mut i: usize = 0;
        while i < n
            invariant
                n == self@.game.answer.len(),
                typed == self@.guess.len(),
                i <= n,
                padded@.len() == i,
                scores@.len() == i,
                forall|k: int| 0 <= k < i ==> padded@[k] == self@.current_row().0[k],
                forall|k: int| 0 <= k < i ==> scores@[k] == self@.current_row().1[k],
            decreases n - i,
        {
            let c: char = if i < typed {
                self.guess.as_str().get_char(i)
            } else {
                ' '
            };
            padded.push(c);
            if c.is_alphabetic() {
                scores.push(LetterScore::Unknown);
            } else {
                scores.push(LetterScore::Wrong);
            }
            i += 1;
        }
        proof {
            assert(padded@ =~= self@.current_row().0);
            assert(scores@ =~= self@.current_row().1);
        }
        (padded, scores)
    }

    /// What the game remembers of the letters of each row of the
    /// keyboard, from the top row down.
    pub fn keyboard(&self) -> (rows: Vec<Vec<(char, LetterScore)>>)
        ensures
            rows@.len() == keyboard_rows().len(),
            forall|r: int|
                0 <= r < rows@.len() ==> (#[trigger] rows@[r])@.len() == keyboard_rows()[r].len(),
            forall|r: int, i: int|
                0 <= r < rows@.len() && 0 <= i < keyboard_rows()[r].len()
                    ==> #[trigger] rows@[r]@[i] == (
                    keyboard_rows()[r][i],
                    self@.game.memory[keyboard_rows()[r][i]],
                ),
    {
        proof {
            reveal_strlit("qwertyuiop");
            reveal_strlit("asdfghjkl");
            reveal_strlit("zxcvbnm");
        }
        let top = self.game.known_guesses("qwertyuiop");
        let middle = self.game.known_guesses("asdfghjkl");
        let bottom = self.game.known_guesses("zxcvbnm");
        let mut rows: Vec<Vec<(char, LetterScore)>> = Vec::new();
        rows.push(top);
        rows.push(middle);
        rows.push(bottom);
        rows
    }

    /// The rows to draw, from the top.
    pub fn rows(&self) -> (rows: Vec<Row>)
        ensures
            row_views(rows@) == self@.rows(),
    {
        let mut rows: Vec<Row> = Vec::new();
        let mut i: usize = 0;
        while i < self.tries.len()
            invariant
                i <= self.tries@.len(),
                row_views(rows@) == self@.tries.take(i as int),
            decreases self.tries@.len() - i,
        {
            let ghost before = rows@;
            let row: Row = (self.tries[i].0.clone(), copy_scores(&self.tries[i].1));
            rows.push(row);
            proof {
                assert(row_views(self.tries@)[i as int] == (row.0@, row.1@));
                assert(row_views(rows@) =~= row_views(before).push((row.0@, row.1@)));
                assert(row_views(rows@) =~= self@.tries.take(i + 1));
            }
            i += 1;
        }
        let ghost before = rows@;
        let current: Row = self.current_row();
        rows.push(current);
        proof {
            assert(self@.tries.take(self.tries@.len() as int) =~= self@.tries);
            assert(row_views(rows@) =~= row_views(before).push((current.0@, current.1@)));
        }
        let n: usize = self.game.guess_empty().len();
        let lives: usize = self.game.lives();
        let mut j: usize = 0;
        while j < lives
            invariant
                n == self@.game.answer.len(),
                lives == self@.game.lives,
                j <= lives,
                row_views(rows@) == self@.tries.push(self@.current_row()) + Seq::new(
                    j as nat,
                    |i: int| self@.future_row(),
                ),
            decreases lives - j,
        {
            let ghost before = rows@;
            let mut spaces: String = String::new();
            let mut k: usize = 0;
            while k < n
                invariant
                    k <= n,
                    spaces@.len() == k,
                    forall|m: int| 0 <= m < k ==> spaces@[m] == ' ',
                decreases n - k,
            {
                spaces.push(' ');
                k += 1;
            }
            let row: Row = (spaces, self.game.guess_empty());
            rows.push(row);
            proof {
                assert(row.0@ =~= self@.future_row().0);
                assert(row_views(rows@) =~= row_views(before).push((row.0@, row.1@)));
                assert(row_views(rows@) =~= self@.tries.push(self@.current_row()) + Seq::new(
                    (j + 1) as nat,
                    |i: int| self@.future_row(),
                ));
            }
            j += 1;
        }
        rows
    }
}

/// The colour behind a letter.
#[derive(Debug, Clone, Copy, PartialEq, Eq, Structural)]
pub enum BoxColor {
    DarkGray,
    Black,
    Yellow,
    Green,
}

/// The sides of a letter box that have a border.
#[derive(Debug, Clone, Copy, PartialEq, Eq, Structural)]
pub struct BoxBorders {
    pub top: bool,
    pub right: bool,
    pub bottom: bool,
    pub left: bool,
}

/// How the box of a letter is drawn.
#[derive(Debug, Clone, Copy, PartialEq, Eq, Structural)]
pub struct LetterBoxStyle {
    pub background: BoxColor,
    pub borders: BoxBorders,
}

impl From<LetterScore> for LetterBoxStyle {
    /// The style that shows `score`.
    fn from(score: LetterScore) -> (style: LetterBoxStyle) {
        match score {
            LetterScore::Unknown => LetterBoxStyle {
                background: BoxColor::DarkGray,
                borders: BoxBorders { top: false, right: false, bottom: true, left: false },
            },
            LetterScore::Wrong => LetterBoxStyle {
                background: BoxColor::Black,
                borders: BoxBorders { top: false, right: false, bottom: false, left: false },
            },
            LetterScore::Present => LetterBoxStyle {
                background: BoxColor::Yellow,
                borders: BoxBorders { top: false, right: true, bottom: false, left: true },
            },
            LetterScore::Correct => LetterBoxStyle {
                background: BoxColor::Green,
                borders: BoxBorders { top: true, right: true, bottom: true, left: true },
            },
        }
    }
}

/// The style that shows `score`: a letter not yet scored stands on dark
/// gray over a line, a wrong one on black without a border, one that is
/// present on yellow between two bars, a correct one on green in a frame.
pub open spec fn style_of(score: LetterScore) -> LetterBoxStyle {
    match score {
        LetterScore::Unknown => LetterBoxStyle {
            background: BoxColor::DarkGray,
            borders: BoxBorders { top: false, right: false, bottom: true, left: false },
        },
        LetterScore::Wrong => LetterBoxStyle {
            background: BoxColor::Black,
            borders: BoxBorders { top: false, right: false, bottom: false, left: false },
        },
        LetterScore::Present => LetterBoxStyle {
            background: BoxColor::Yellow,
            borders: BoxBorders { top: false, right: true, bottom: false, left: true },
        },
        LetterScore::Correct => LetterBoxStyle {
            background: BoxColor::Green,
            borders: BoxBorders { top: true, right: true, bottom: true, left: true },
        },
    }
}

impl FromSpecImpl<LetterScore> for LetterBoxStyle {
    open spec fn obeys_from_spec() -> bool {
        true
    }

    open spec fn from_spec(score: LetterScore) -> LetterBoxStyle {
        style_of(score)
    }
}

/// The box of one letter on the screen.
#[derive(Debug, Clone, Copy, PartialEq, Eq)]
pub struct LetterBox {
    /// The column and the line of its upper left corner.
    pub pos: (u16, u16),
    pub char: char,
    pub style: LetterBoxStyle,
}

/// The distance between the left edges of two neighbouring boxes.
pub open spec fn step_x() -> int {
    LetterBox::SIZE_X + LetterBox::GAP_X
}

/// The distance between the upper edges of two boxes, one below the other.
pub open spec fn step_y() -> int {
    LetterBox::SIZE_Y + LetterBox::GAP_Y
}

/// The extent of `count` boxes in a row, or in a column, that are `size`
/// wide each and `gap` apart.
pub open spec fn extent(count: int, size: int, gap: int) -> int {
    if count > 0 {
        (count - 1) * (size + gap) + size
    } else {
        0
    }
}

impl LetterBox {
    pub const SIZE_X: u16 = 5;

    pub const SIZE_Y: u16 = 3;

    pub const GAP_X: u16 = 2;

    pub const GAP_Y: u16 = 1;

    /// The box at `pos` that shows `char` with its `score`.
    pub fn new(pos: (u16, u16), char: char, score: LetterScore) -> (letter_box: LetterBox)
        ensures
            letter_box == (LetterBox { pos, char, style: style_of(score) }),
    {
        LetterBox { pos, char, style: LetterBoxStyle::from(score) }
    }

    /// The corner of the box that lies `offset.0` boxes to the right of
    /// the one at `pos` and `offset.1` boxes below it. The result must fit
    /// the screen's coordinates.
    pub fn compute_new_pos(pos: (u16, u16), offset: (u16, u16)) -> (new_pos: (u16, u16))
        requires
            pos.0 + offset.0 * step_x() <= u16::MAX,
            pos.1 + offset.1 * step_y() <= u16::MAX,
        ensures
            new_pos.0 == pos.0 + offset.0 * step_x(),
            new_pos.1 == pos.1 + offset.1 * step_y(),
    {
        let pos_x: u16 = pos.0 + offset.0 * (LetterBox::SIZE_X + LetterBox::GAP_X);
        let pos_y: u16 = pos.1 + offset.1 * (LetterBox::SIZE_Y + LetterBox::GAP_Y);
        (pos_x, pos_y)
    }

    /// The width of `count.0` boxes side by side and the height of
    /// `count.1` boxes one below the other, gaps included. The result must
    /// fit the screen's coordinates.
    pub fn compute_size(count: (u16, u16)) -> (size: (u16, u16))
        requires
            extent(count.0 as int, LetterBox::SIZE_X as int, LetterBox::GAP_X as int) <= u16::MAX,
            extent(count.1 as int, LetterBox::SIZE_Y as int, LetterBox::GAP_Y as int) <= u16::MAX,
        ensures
            size.0 == extent(count.0 as int, LetterBox::SIZE_X as int, LetterBox::GAP_X as int),
            size.1 == extent(count.1 as int, LetterBox::SIZE_Y as int, LetterBox::GAP_Y as int),
    {
        let size_x: u16 = if count.0 > 0 {
            (count.0 - 1) * (LetterBox::SIZE_X + LetterBox::GAP_X) + LetterBox::SIZE_X
        } else {
            0
        };
        let size_y: u16 = if count.1 > 0 {
            (count.1 - 1) * (LetterBox::SIZE_Y + LetterBox::GAP_Y) + LetterBox::SIZE_Y
        } else {
            0
        };
        (size_x, size_y)
    }
}

/// The width of the keyboard's longest row, in letters.
pub const KEYBOARD_WIDTH: u16 = 10;

/// The number of rows of the keyboard.
pub const KEYBOARD_HEIGHT: u16 = 3;

/// The width of `count` boxes side by side, gaps included.
pub open spec fn width_of(count: int) -> int {
    extent(count, LetterBox::SIZE_X as int, LetterBox::GAP_X as int)
}

/// The height of `count` boxes one below the other, gaps included.
pub open spec fn height_of(count: int) -> int {
    extent(count, LetterBox::SIZE_Y as int, LetterBox::GAP_Y as int)
}

/// The boxes of a scored word, from left to right, the first of them at
/// `pos`. There must be a score for each character, and the last box must
/// fit the screen's coordinates.
pub fn word_boxes(pos: (u16, u16), word: &str, scores: &[LetterScore]) -> (boxes: Vec<LetterBox>)
    requires
        word@.len() <= scores@.len(),
        word@.len() > 0 ==> pos.0 + (word@.len() - 1) * step_x() <= u16::MAX,
    ensures
        boxes@.len() == word@.len(),
        forall|i: int|
            0 <= i < word@.len() ==> #[trigger] boxes@[i] == (LetterBox {
                pos: ((pos.0 + i * step_x()) as u16, pos.1),
                char: word@[i],
                style: style_of(scores@[i]),
            }),
{
    let n: usize = word.unicode_len();
    let mut boxes: Vec<LetterBox> = Vec::new();
    let mut i: usize = 0;
    while i < n
        invariant
            n == word@.len(),
            n <= scores@.len(),
            n > 0 ==> pos.0 + (n - 1) * step_x() <= u16::MAX,
            i <= n,
            boxes@.len() == i,
            forall|k: int|
                0 <= k < i ==> #[trigger] boxes@[k] == (LetterBox {
                    pos: ((pos.0 + k * step_x()) as u16, pos.1),
                    char: word@[k],
                    style: style_of(scores@[k]),
                }),
        decreases n - i,
    {
        assert(i * step_x() <= (n - 1) * step_x()) by (nonlinear_arith)
            requires
                i <= n - 1,
                step_x() >= 0,
        ;
        let corner: (u16, u16) = LetterBox::compute_new_pos(pos, (i as u16, 0));
        boxes.push(LetterBox::new(corner, word.get_char(i), scores[i]));
        i += 1;
    }
    boxes
}

/// The least width and height of a screen that can show the game on a
/// word of `word_length` characters: the keyboard's longest row across,
/// and down the board, one row for each guess and one for the guess being
/// typed, a row's distance, and the keyboard, all inside a margin of two
/// cells. The result must fit the screen's coordinates.
pub fn minimum_size(word_length: usize) -> (size: (u16, u16))
    requires
        height_of(word_length + 5) + 4 <= u16::MAX,
    ensures
        size.0 == width_of(KEYBOARD_WIDTH as int) + 4,
        size.1 == height_of(word_length + 5) + 4,
{
    let boxes: (u16, u16) = LetterBox::compute_size((KEYBOARD_WIDTH, (word_length + 5) as u16));
    (boxes.0 + 4, boxes.1 + 4)
}

/// The corner of the board's first box on a screen `width` cells wide: the
/// rows of `word_length` boxes are centred, below the frame's title. The
/// screen must be wide enough for a row.
pub fn board_origin(width: u16, word_length: usize) -> (pos: (u16, u16))
    requires
        width_of(word_length as int) <= width,
    ensures
        pos.0 == (width - width_of(word_length as int)) / 2,
        pos.1 == 2,
{
    let row: (u16, u16) = LetterBox::compute_size((word_length as u16, 0));
    ((width - row.0) / 2, 2)
}

/// The corner of the first box of the keyboard's row `row`, counted from
/// the top, on a screen of `width` by `height` cells: the keyboard stands
/// at the bottom, centred by its longest row, and each row starts a little
/// further right than the one above. The screen must have room for the
/// keyboard.
pub fn keyboard_origin(width: u16, height: u16, row: u16) -> (pos: (u16, u16))
    requires
        row < KEYBOARD_HEIGHT,
        width_of(KEYBOARD_WIDTH as int) <= width,
        height_of(KEYBOARD_HEIGHT as int) + 2 <= height,
    ensures
        pos.0 == (width - width_of(KEYBOARD_WIDTH as int)) / 2 + row * (LetterBox::SIZE_X - 1),
        pos.1 == height - 2 - height_of(KEYBOARD_HEIGHT - row),
{
    let keyboard: (u16, u16) = LetterBox::compute_size((KEYBOARD_WIDTH, KEYBOARD_HEIGHT));
    let below: (u16, u16) = LetterBox::compute_size((0, KEYBOARD_HEIGHT - row));
    let pos_x: u16 = (width - keyboard.0) / 2 + row * (LetterBox::SIZE_X - 1);
    let pos_y: u16 = height - 2 - below.1;
    (pos_x, pos_y)
}

/// The corner, width and height of the area for the error text on a
/// screen of `width` by `height` cells: two lines above the keyboard. The
/// screen must have room for both.
pub fn error_area(width: u16, height: u16) -> (area: ((u16, u16), (u16, u16)))
    requires
        width >= 2,
        height_of(KEYBOARD_HEIGHT as int) + 4 <= height,
    ensures
        area.0 == (2u16, (height - 2 - height_of(KEYBOARD_HEIGHT as int) - 2) as u16),
        area.1 == ((width - 2) as u16, 2u16),
{
    let keyboard: (u16, u16) = LetterBox::compute_size((KEYBOARD_WIDTH, KEYBOARD_HEIGHT));
    ((2, height - 2 - keyboard.1 - 2), (width - 2, 2))
}

} // verus!
