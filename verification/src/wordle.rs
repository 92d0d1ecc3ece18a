//! The game: one answer, a dictionary of legal guesses, a count of remaining
//! attempts and the best feedback seen so far for each letter.

use crate::scoring::{
    credited, lemma_answer_scores_all_correct, lemma_credit_within_answer, score, score_word,
};
use crate::text::{chars_of, list_contains, lowercase, views};
use rand::seq::SliceRandom;
use std::cmp::Ordering;
use vstd::prelude::*;
use vstd::std_specs::cmp::PartialOrdSpecImpl;
use vstd::string::*;

verus! {

/// Feedback on one letter, ordered from the least to the most informative.
#[derive(Debug, Clone, Copy, PartialEq, Eq, Hash, Structural)]
pub enum LetterScore {
    Unknown,
    Wrong,
    Present,
    Correct,
}

impl LetterScore {
    /// The place of a score in the order `Unknown < Wrong < Present < Correct`.
    pub open spec fn rank(self) -> nat {
        match self {
            LetterScore::Unknown => 0,
            LetterScore::Wrong => 1,
            LetterScore::Present => 2,
            LetterScore::Correct => 3,
        }
    }

    /// The better of two scores.
    pub open spec fn max(self, other: LetterScore) -> LetterScore {
        if self.rank() < other.rank() {
            other
        } else {
            self
        }
    }

    /// The place of this score in the order, as a number from 0 to 3.
    pub fn tier(self) -> (r: u8)
        ensures
            r == self.rank(),
    {
        match self {
            LetterScore::Unknown => 0,
            LetterScore::Wrong => 1,
            LetterScore::Present => 2,
            LetterScore::Correct => 3,
        }
    }
}

impl PartialOrd for LetterScore {
    fn partial_cmp(&self, other: &LetterScore) -> (r: Option<Ordering>) {
        let a: u8 = self.tier();
        let b: u8 = other.tier();
        if a < b {
            Some(Ordering::Less)
        } else if a == b {
            Some(Ordering::Equal)
        } else {
            Some(Ordering::Greater)
        }
    }
}

impl PartialOrdSpecImpl for LetterScore {
    open spec fn obeys_partial_cmp_spec() -> bool {
        true
    }

    open spec fn partial_cmp_spec(&self, other: &LetterScore) -> Option<Ordering> {
        if self.rank() < other.rank() {
            Some(Ordering::Less)
        } else if self.rank() == other.rank() {
            Some(Ordering::Equal)
        } else {
            Some(Ordering::Greater)
        }
    }
}

/// Why a guess was turned down.
#[derive(Debug, Clone, Copy, PartialEq, Eq, Structural)]
pub enum InvalidWord {
    DifferentLength,
    NotAWord,
}

impl InvalidWord {
    /// The text shown to the player for this error.
    pub open spec fn text(self) -> Seq<char> {
        match self {
            InvalidWord::DifferentLength => "Input should be the same length as the word"@,
            InvalidWord::NotAWord => "This word is not in a dictionary"@,
        }
    }

    /// The text shown to the player for this error.
    pub fn to_string(&self) -> (message: String)
        ensures
            message@ == self.text(),
    {
        match self {
            InvalidWord::DifferentLength => "Input should be the same length as the word".to_owned(),
            InvalidWord::NotAWord => "This word is not in a dictionary".to_owned(),
        }
    }
}

/// Whether `c` is one of the 26 letters whose feedback a game remembers.
pub open spec fn is_letter(c: char) -> bool {
    'a' <= c <= 'z'
}

/// The best score that `c` has at the positions below `n` of a scored word,
/// `Unknown` if it does not occur there.
pub open spec fn best(word: Seq<char>, scores: Seq<LetterScore>, c: char, n: int) -> LetterScore
    decreases n,
{
    if n <= 0 {
        LetterScore::Unknown
    } else if word[n - 1] == c {
        best(word, scores, c, n - 1).max(scores[n - 1])
    } else {
        best(word, scores, c, n - 1)
    }
}

/// A game as a mathematical value.
pub struct GameView {
    /// The dictionary: the words accepted as guesses.
    pub words: Seq<Seq<char>>,
    /// The word to find.
    pub answer: Seq<char>,
    /// The guesses that are left.
    pub lives: nat,
    /// The best score seen so far for each letter.
    pub memory: Map<char, LetterScore>,
}

impl GameView {
    /// The state in which a game on `answer` starts.
    pub open spec fn start(words: Seq<Seq<char>>, answer: Seq<char>) -> GameView {
        GameView {
            words,
            answer,
            lives: answer.len(),
            memory: Map::new(|c: char| is_letter(c), |c: char| LetterScore::Wrong),
        }
    }

    /// The answer is a word of the dictionary, and exactly the 26 letters
    /// have an entry in the memory.
    pub open spec fn wf(self) -> bool {
        &&& self.words.contains(self.answer)
        &&& forall|c: char| self.memory.dom().contains(c) <==> is_letter(c)
    }

    /// The row shown for a guess that has not been made yet.
    pub open spec fn empty_row(self) -> Seq<LetterScore> {
        Seq::new(self.answer.len(), |i: int| LetterScore::Wrong)
    }

    /// The outcome of guessing `word`, taken as it is written.
    pub open spec fn judge(self, word: Seq<char>) -> Result<Seq<LetterScore>, InvalidWord> {
        if word.len() != self.answer.len() {
            Err(InvalidWord::DifferentLength)
        } else if !self.words.contains(word) {
            Err(InvalidWord::NotAWord)
        } else {
            Ok(score(word, self.answer))
        }
    }

    /// The memory once `word` has been given `scores`: each letter keeps the
    /// better of what it had and of what it got.
    pub open spec fn learn(self, word: Seq<char>, scores: Seq<LetterScore>) -> Map<
        char,
        LetterScore,
    > {
        Map::new(
            |c: char| self.memory.dom().contains(c),
            |c: char| self.memory[c].max(best(word, scores, c, word.len() as int)),
        )
    }

    /// The game after guessing `word`, taken as it is written: unchanged if
    /// the guess is turned down, else with one guess less and the scores
    /// remembered.
    pub open spec fn step(self, word: Seq<char>) -> GameView {
        match self.judge(word) {
            Ok(scores) => GameView {
                words: self.words,
                answer: self.answer,
                lives: (self.lives - 1) as nat,
                memory: self.learn(word, scores),
            },
            Err(_) => self,
        }
    }

    /// The outcome of the player's input: it must have the length of the
    /// answer, and is then judged in lower case.
    pub open spec fn judge_input(self, input: Seq<char>) -> Result<Seq<LetterScore>, InvalidWord> {
        if input.len() != self.answer.len() {
            Err(InvalidWord::DifferentLength)
        } else {
            self.judge(lowercase(input))
        }
    }

    /// The game after the player's input.
    pub open spec fn step_input(self, input: Seq<char>) -> GameView {
        if input.len() != self.answer.len() {
            self
        } else {
            self.step(lowercase(input))
        }
    }

    /// The game after a series of inputs.
    pub open spec fn play(self, inputs: Seq<Seq<char>>) -> GameView
        decreases inputs.len(),
    {
        if inputs.len() == 0 {
            self
        } else {
            self.play(inputs.drop_last()).step_input(inputs.last())
        }
    }
}

/// The outcome of a guess as a mathematical value.
pub open spec fn outcome_view(outcome: Result<Vec<LetterScore>, InvalidWord>) -> Result<
    Seq<LetterScore>,
    InvalidWord,
> {
    match outcome {
        Ok(scores) => Ok(scores@),
        Err(error) => Err(error),
    }
}

/// `rand::seq::SliceRandom::choose` on the list, with the generator that
/// `rand::thread_rng` hands out: `None` for an empty list, else one of its
/// words, whichever the generator picks. Nothing is said of how likely each
/// word is. The generator stops the program if the system cannot seed it.
#[verifier::external_body]
fn choose_word(words: &Vec<String>) -> (chosen: Option<String>)
    ensures
        chosen is None <==> words@.len() == 0,
        chosen matches Some(word) ==> views(words@).contains(word@),
{
    words.choose(&mut rand::thread_rng()).cloned()
}

/// One game of finding the answer by guessing words of the dictionary.
#[derive(Debug)]
pub struct WordleGame {
    words: Vec<String>,
    answer: String,
    lives: usize,
    guesses: [LetterScore; 26],
}

impl View for WordleGame {
    type V = GameView;

    closed spec fn view(&self) -> GameView {
        GameView {
            words: views(self.words@),
            answer: self.answer@,
            lives: self.lives as nat,
            memory: Map::new(
                |c: char| is_letter(c),
                |c: char| self.guesses@[c as int - 'a' as int],
            ),
        }
    }
}

impl WordleGame {
    #[verifier::type_invariant]
    spec fn sound(&self) -> bool {
        views(self.words@).contains(self.answer@)
    }

    /// A game on `answer`, which must be a word of the dictionary. The
    /// player has as many guesses as the answer has characters, and every
    /// letter is remembered as `Wrong`.
    pub fn new_with_answer(words: Vec<String>, answer: &str) -> (game: WordleGame)
        requires
            views(words@).contains(answer@),
        ensures
            game@ == GameView::start(views(words@), answer@),
            game@.wf(),
    {
        let game = WordleGame {
            words,
            answer: answer.to_owned(),
            lives: answer.unicode_len(),
            guesses: [LetterScore::Wrong;26],
        };
        proof {
            assert(game@.memory =~= GameView::start(views(words@), answer@).memory);
        }
        game
    }

    /// A game on a word of the dictionary picked at random. The dictionary
    /// must hold a word.
    pub fn new(words: Vec<String>) -> (game: WordleGame)
        requires
            words@.len() > 0,
        ensures
            game@ == GameView::start(views(words@), game@.answer),
            game@.wf(),
    {
        let answer: String = match choose_word(&words) {
            Some(value) => value,
            // Only an empty list has no word to pick.
            None => "demo".to_owned(),
        };
        WordleGame::new_with_answer(words, answer.as_str())
    }

    /// Plays the player's input: it must have the length of the answer, and
    /// is then put in lower case and guessed as [`WordleGame::guess_normalized`]
    /// does. The game must have a guess left.
    pub fn guess(&mut self, guess: &str) -> (outcome: Result<Vec<LetterScore>, InvalidWord>)
        requires
            old(self)@.lives > 0,
        ensures
            outcome_view(outcome) == old(self)@.judge_input(guess@),
            final(self)@ == old(self)@.step_input(guess@),
            final(self)@.wf(),
    {
        proof {
            use_type_invariant(&*self);
        }
        if guess.unicode_len() != self.answer.as_str().unicode_len() {
            Err(InvalidWord::DifferentLength)
        } else {
            let word: String = guess.to_lowercase();
            self.guess_normalized(word.as_str())
        }
    }

    /// Plays `word` as it is written. A word of another length than the
    /// answer, or one that the dictionary lacks, is turned down and nothing
    /// changes. Any other word is scored against the answer and costs one
    /// guess; each of the 26 letters in it is remembered with its score
    /// where that is better than what was remembered. The game must have a
    /// guess left.
    pub fn guess_normalized(&mut self, word: &str) -> (outcome: Result<
        Vec<LetterScore>,
        InvalidWord,
    >)
        requires
            old(self)@.lives > 0,
        ensures
            outcome_view(outcome) == old(self)@.judge(word@),
            final(self)@ == old(self)@.step(word@),
            final(self)@.wf(),
    {
        proof {
            use_type_invariant(&*self);
        }
        if word.unicode_len() != self.answer.as_str().unicode_len() {
            Err(InvalidWord::DifferentLength)
        } else if !list_contains(&self.words, word) {
            Err(InvalidWord::NotAWord)
        } else {
            let letters: Vec<char> = chars_of(word);
            let answer: Vec<char> = chars_of(self.answer.as_str());
            let scores: Vec<LetterScore> = score_word(&letters, &answer);
            self.lives -= 1;
            let n: usize = letters.len();
            let mut i: usize = 0;
            while i < n
                invariant
                    n == letters@.len(),
                    n == scores@.len(),
                    i <= n,
                    self@.words == old(self)@.words,
                    self@.answer == old(self)@.answer,
                    self@.lives == old(self)@.lives - 1,
                    forall|c: char|
                        is_letter(c) ==> #[trigger] self@.memory[c] == old(self)@.memory[c].max(
                            best(letters@, scores@, c, i as int),
                        ),
                decreases n - i,
            {
                let c: char = letters[i];
                if 'a' <= c && c <= 'z' {
                    self.set_guess_at_index(c, scores[i]);
                }
                i += 1;
            }
            proof {
                assert(self@.memory =~= old(self)@.learn(word@, scores@));
            }
            Ok(scores)
        }
    }

    /// What is remembered of each of `letters`, which must all be among the
    /// 26 letters, in their order.
    pub fn known_guesses(&self, letters: &str) -> (known: Vec<(char, LetterScore)>)
        requires
            forall|i: int| 0 <= i < letters@.len() ==> is_letter(#[trigger] letters@[i]),
        ensures
            known@.len() == letters@.len(),
            forall|i: int|
                0 <= i < letters@.len() ==> #[trigger] known@[i] == (
                    letters@[i],
                    self@.memory[letters@[i]],
                ),
    {
        let n: usize = letters.unicode_len();
        let mut known: Vec<(char, LetterScore)> = Vec::new();
        let mut i: usize = 0;
        while i < n
            invariant
                n == letters@.len(),
                i <= n,
                known@.len() == i,
                forall|k: int| 0 <= k < letters@.len() ==> is_letter(#[trigger] letters@[k]),
                forall|k: int|
                    0 <= k < i ==> #[trigger] known@[k] == (
                        letters@[k],
                        self@.memory[letters@[k]],
                    ),
            decreases n - i,
        {
            let c: char = letters.get_char(i);
            known.push((c, self.guess_at_index(c)));
            i += 1;
        }
        known
    }

    /// What is remembered of the letter `c`.
    fn guess_at_index(&self, c: char) -> (known: LetterScore)
        requires
            is_letter(c),
        ensures
            known == self@.memory[c],
    {
        self.guesses[(c as u32 - 'a' as u32) as usize]
    }

    /// Remembers `score` for the letter `c` if it is better than what is
    /// remembered.
    fn set_guess_at_index(&mut self, c: char, score: LetterScore)
        requires
            is_letter(c),
        ensures
            final(self)@.words == old(self)@.words,
            final(self)@.answer == old(self)@.answer,
            final(self)@.lives == old(self)@.lives,
            final(self)@.memory == old(self)@.memory.insert(c, old(self)@.memory[c].max(score)),
    {
        proof {
            use_type_invariant(&*self);
        }
        if self.guess_at_index(c) < score {
            self.guesses[(c as u32 - 'a' as u32) as usize] = score;
        }
        proof {
            assert(self@.memory =~= old(self)@.memory.insert(c, old(self)@.memory[c].max(score)));
        }
    }

    /// The guesses that are left.
    pub fn lives(&self) -> (lives: usize)
        ensures
            lives == self@.lives,
    {
        self.lives
    }

    /// The row to show for a guess that has not been made yet: `Wrong` at
    /// every position of the answer.
    pub fn guess_empty(&self) -> (row: Vec<LetterScore>)
        ensures
            row@ == self@.empty_row(),
    {
        let n: usize = self.answer.as_str().unicode_len();
        let mut row: Vec<LetterScore> = Vec::new();
        let mut i: usize = 0;
        while i < n
            invariant
                n == self.answer@.len(),
                i <= n,
                row@.len() == i,
                forall|k: int| 0 <= k < i ==> row@[k] == LetterScore::Wrong,
            decreases n - i,
        {
            row.push(LetterScore::Wrong);
            i += 1;
        }
        proof {
            assert(row@ =~= self@.empty_row());
        }
        row
    }
}

/// A guess changes neither the dictionary nor the answer, and leaves the
/// game well formed.
pub proof fn lemma_step_keeps_game(game: GameView, input: Seq<char>)
    requires
        game.wf(),
    ensures
        game.step_input(input).wf(),
        game.step_input(input).words == game.words,
        game.step_input(input).answer == game.answer,
{
}

/// A guess that is turned down changes nothing; one that is scored costs
/// exactly one guess.
pub proof fn lemma_step_counts_guesses(game: GameView, input: Seq<char>)
    requires
        game.lives > 0,
    ensures
        game.judge_input(input) is Err ==> game.step_input(input) == game,
        game.judge_input(input) is Ok ==> game.step_input(input).lives == game.lives - 1,
        game.judge_input(input) matches Ok(scores) ==> scores.len() == input.len(),
{
}

/// An input that stands for the answer scores `Correct` at every position.
pub proof fn lemma_answer_is_all_correct(game: GameView, input: Seq<char>)
    requires
        game.wf(),
        input.len() == game.answer.len(),
        lowercase(input) == game.answer,
    ensures
        game.judge_input(input) == Ok::<Seq<LetterScore>, InvalidWord>(
            Seq::new(game.answer.len(), |i: int| LetterScore::Correct),
        ),
{
    lemma_answer_scores_all_correct(game.answer);
    assert(score(game.answer, game.answer) =~= Seq::new(
        game.answer.len(),
        |i: int| LetterScore::Correct,
    ));
}

/// In a guess that is scored, the positions at which a letter is scored
/// `Correct` or `Present` are no more than its occurrences in the answer.
pub proof fn lemma_scored_guess_credit(game: GameView, input: Seq<char>, c: char)
    requires
        game.judge_input(input) is Ok,
    ensures
        credited(lowercase(input), game.answer, c, game.answer.len() as int)
            <= game.answer.to_multiset().count(c),
{
    lemma_credit_within_answer(lowercase(input), game.answer, c);
}

/// What a game remembers of a letter never gets worse: after any series of
/// inputs, each of the 26 letters has a score at least as good as before.
pub proof fn lemma_memory_never_regresses(game: GameView, inputs: Seq<Seq<char>>, c: char)
    requires
        game.wf(),
        is_letter(c),
    ensures
        game.play(inputs).wf(),
        game.play(inputs).memory[c].rank() >= game.memory[c].rank(),
    decreases inputs.len(),
{
    if inputs.len() > 0 {
        lemma_memory_never_regresses(game, inputs.drop_last(), c);
        lemma_step_keeps_game(game.play(inputs.drop_last()), inputs.last());
    }
}

/// The row for a guess not yet made has the length of the answer and holds
/// `Wrong` throughout, whatever has been guessed before.
pub proof fn lemma_empty_row_is_fixed(game: GameView, inputs: Seq<Seq<char>>)
    ensures
        game.play(inputs).answer == game.answer,
        game.play(inputs).empty_row() == game.empty_row(),
        game.empty_row().len() == game.answer.len(),
        forall|i: int| 0 <= i < game.answer.len() ==> game.empty_row()[i] == LetterScore::Wrong,
    decreases inputs.len(),
{
    if inputs.len() > 0 {
        lemma_empty_row_is_fixed(game, inputs.drop_last());
    }
}

} // verus!
