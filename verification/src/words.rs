//! The dictionary loader: turns raw lines of text into a list of playable
//! words and a report on each line that is none.
//!
//! A playable word has between [`MIN_LENGTH`] and [`MAX_LENGTH`] characters,
//! all of them alphabetic, and is kept in lower case. A line that fails is
//! reported with everything that is wrong with it, and never costs the
//! other lines their place in the list.

use crate::text::{alphabetic, decimal, lines, lowercase, push_decimal, split_lines, views};
use vstd::prelude::*;
use vstd::string::*;

verus! {

/// The least number of characters of a playable word.
pub const MIN_LENGTH: usize = 3;

/// The greatest number of characters of a playable word.
pub const MAX_LENGTH: usize = 7;

/// One thing that is wrong with a word.
#[derive(Debug, Clone, Copy, PartialEq, Eq, Structural)]
pub enum WordError {
    /// The character `char`, at the 0-based position `pos`, is not
    /// alphabetic.
    InvalidCharacter { pos: usize, char: char },
    /// The word has `len` characters, which is too few or too many.
    InvalidLength { len: usize },
}

/// A line of the source that is no playable word.
#[derive(Debug, PartialEq, Eq)]
pub struct InvalidWord {
    /// The 0-based position of the line in the source.
    pub pos: usize,
    /// The line as the source has it.
    pub word: String,
    /// Everything that is wrong with it.
    pub errors: Vec<WordError>,
}

/// An [`InvalidWord`] as a mathematical value.
pub struct InvalidWordView {
    pub pos: nat,
    pub word: Seq<char>,
    pub errors: Seq<WordError>,
}

impl View for InvalidWord {
    type V = InvalidWordView;

    open spec fn view(&self) -> InvalidWordView {
        InvalidWordView { pos: self.pos as nat, word: self.word@, errors: self.errors@ }
    }
}

impl WordError {
    /// The error in words.
    pub open spec fn text(self) -> Seq<char> {
        match self {
            WordError::InvalidCharacter { pos, char } => "Invalid character '"@.push(char)
                + "' at index "@ + decimal(pos as nat),
            WordError::InvalidLength { len } => "Length of "@ + decimal(len as nat)
                + ", it should be between "@ + decimal(MIN_LENGTH as nat) + " and "@ + decimal(
                MAX_LENGTH as nat,
            ),
        }
    }

    /// The error in words.
    pub fn to_string(&self) -> (message: String)
        ensures
            message@ == self.text(),
    {
        match self {
            WordError::InvalidCharacter { pos, char } => {
                let mut message: String = "Invalid character '".to_owned();
                message.push(*char);
                message.append("' at index ");
                push_decimal(&mut message, *pos);
                message
            },
            WordError::InvalidLength { len } => {
                let mut message: String = "Length of ".to_owned();
                push_decimal(&mut message, *len);
                message.append(", it should be between ");
                push_decimal(&mut message, MIN_LENGTH);
                message.append(" and ");
                push_decimal(&mut message, MAX_LENGTH);
                message
            },
        }
    }
}

/// The first `n` of `errors` in words, one on each line, as items of an
/// indented list.
pub open spec fn error_lines(errors: Seq<WordError>, n: int) -> Seq<char>
    decreases n,
{
    if n <= 0 {
        Seq::empty()
    } else if n == 1 {
        "    - "@ + errors[0].text()
    } else {
        error_lines(errors, n - 1) + "\n"@ + "    - "@ + errors[n - 1].text()
    }
}

impl InvalidWordView {
    /// The report in words: the line and its position, then its errors.
    pub open spec fn text(self) -> Seq<char> {
        "- '"@ + self.word + "' at index "@ + decimal(self.pos) + ":\n"@ + error_lines(
            self.errors,
            self.errors.len() as int,
        )
    }
}

impl InvalidWord {
    /// The report in words: the line and its position, then its errors.
    pub fn to_string(&self) -> (message: String)
        ensures
            message@ == self@.text(),
    {
        let mut message: String = "- '".to_owned();
        message.append(self.word.as_str());
        message.append("' at index ");
        push_decimal(&mut message, self.pos);
        message.append(":\n");
        let ghost head = message@;
        let mut i: usize = 0;
        while i < self.errors.len()
            invariant
                i <= self.errors@.len(),
                message@ == head + error_lines(self.errors@, i as int),
            decreases self.errors@.len() - i,
        {
            if i > 0 {
                message.append("\n");
            }
            message.append("    - ");
            let line: String = self.errors[i].to_string();
            message.append(line.as_str());
            proof {
                assert(message@ =~= head + error_lines(self.errors@, i + 1));
            }
            i += 1;
        }
        message
    }
}

/// The views of the reports of a list, in order.
pub open spec fn reports(list: Seq<InvalidWord>) -> Seq<InvalidWordView> {
    list.map_values(|report: InvalidWord| report@)
}

/// Whether `word` is playable as it is written, but for its case.
pub open spec fn is_word(word: Seq<char>) -> bool {
    &&& MIN_LENGTH <= word.len() <= MAX_LENGTH
    &&& forall|i: int| 0 <= i < word.len() ==> alphabetic(#[trigger] word[i])
}

/// For each character of `word`, whether it is alphabetic.
pub open spec fn letter_marks(word: Seq<char>) -> Seq<bool> {
    Seq::new(word.len(), |i: int| alphabetic(word[i]))
}

/// The error for a word of `len` characters, if that is too few or too many.
pub open spec fn length_errors(len: nat) -> Seq<WordError> {
    if MIN_LENGTH <= len <= MAX_LENGTH {
        Seq::empty()
    } else {
        seq![WordError::InvalidLength { len: len as usize }]
    }
}

/// One error for each position below `n` that holds no letter, from left
/// to right; `letters` says which positions hold one.
pub open spec fn character_errors(word: Seq<char>, letters: Seq<bool>, n: int) -> Seq<WordError>
    decreases n,
{
    if n <= 0 {
        Seq::empty()
    } else if !letters[n - 1] {
        character_errors(word, letters, n - 1).push(
            WordError::InvalidCharacter { pos: (n - 1) as usize, char: word[n - 1] },
        )
    } else {
        character_errors(word, letters, n - 1)
    }
}

/// Everything that is wrong with `word`: first its length, then each
/// position that holds no letter; `letters` says which positions hold one.
pub open spec fn errors_given(word: Seq<char>, letters: Seq<bool>) -> Seq<WordError> {
    length_errors(word.len()) + character_errors(word, letters, word.len() as int)
}

/// Everything that is wrong with `word`, taken as it is written.
pub open spec fn word_errors(word: Seq<char>) -> Seq<WordError> {
    errors_given(word, letter_marks(word))
}

/// The outcome of validating `word`: its lower-case form, or everything
/// that is wrong with that form.
pub open spec fn validation(word: Seq<char>) -> Result<Seq<char>, Seq<WordError>> {
    let lower = lowercase(word);
    if word_errors(lower).len() > 0 {
        Err(word_errors(lower))
    } else {
        Ok(lower)
    }
}

/// The outcome of a validation as a mathematical value.
pub open spec fn validation_view(outcome: Result<String, Vec<WordError>>) -> Result<
    Seq<char>,
    Seq<WordError>,
> {
    match outcome {
        Ok(word) => Ok(word@),
        Err(errors) => Err(errors@),
    }
}

/// For each character of `word`, whether it is alphabetic.
pub fn mark_letters(word: &str) -> (letters: Vec<bool>)
    ensures
        letters@ == letter_marks(word@),
{
    let n: usize = word.unicode_len();
    let mut letters: Vec<bool> = Vec::new();
    let mut i: usize = 0;
    while i < n
        invariant
            n == word@.len(),
            i <= n,
            letters@.len() == i,
            forall|k: int| 0 <= k < i ==> letters@[k] == alphabetic(word@[k]),
        decreases n - i,
    {
        letters.push(word.get_char(i).is_alphabetic());
        i += 1;
    }
    proof {
        assert(letters@ =~= letter_marks(word@));
    }
    letters
}

/// Everything that is wrong with `word`, given for each of its characters
/// whether it is a letter.
pub fn find_errors(word: &str, letters: &Vec<bool>) -> (errors: Vec<WordError>)
    requires
        letters@.len() == word@.len(),
    ensures
        errors@ == errors_given(word@, letters@),
{
    let n: usize = word.unicode_len();
    let mut errors: Vec<WordError> = Vec::new();
    if n < MIN_LENGTH || n > MAX_LENGTH {
        errors.push(WordError::InvalidLength { len: n });
    }
    let mut pos: usize = 0;
    while pos < n
        invariant
            n == word@.len(),
            n == letters@.len(),
            pos <= n,
            errors@ == length_errors(word@.len()) + character_errors(word@, letters@, pos as int),
        decreases n - pos,
    {
        if !letters[pos] {
            let c: char = word.get_char(pos);
            errors.push(WordError::InvalidCharacter { pos, char: c });
            proof {
                assert(length_errors(word@.len()) + character_errors(word@, letters@, pos + 1)
                    =~= (length_errors(word@.len()) + character_errors(
                    word@,
                    letters@,
                    pos as int,
                )).push(WordError::InvalidCharacter { pos, char: c }));
            }
        }
        pos += 1;
    }
    errors
}

/// Validates one word: puts it in lower case and returns that form if it
/// is playable, else everything that is wrong with it.
pub fn validate_word(word: &str) -> (outcome: Result<String, Vec<WordError>>)
    ensures
        validation_view(outcome) == validation(word@),
{
    let word: String = word.to_lowercase();
    let letters: Vec<bool> = mark_letters(word.as_str());
    let errors: Vec<WordError> = find_errors(word.as_str(), &letters);
    if errors.len() > 0 {
        Err(errors)
    } else {
        Ok(word)
    }
}

/// The playable words among the first `n` of `lines`, in lower case and in
/// the order of the source.
pub open spec fn valid_words(lines: Seq<Seq<char>>, n: int) -> Seq<Seq<char>>
    decreases n,
{
    if n <= 0 {
        Seq::empty()
    } else {
        match validation(lines[n - 1]) {
            Ok(word) => valid_words(lines, n - 1).push(word),
            Err(_) => valid_words(lines, n - 1),
        }
    }
}

/// A report for each of the first `n` of `lines` that is no playable word,
/// in the order of the source: its position there, the line as it is
/// written, and everything that is wrong with it.
pub open spec fn invalid_words(lines: Seq<Seq<char>>, n: int) -> Seq<InvalidWordView>
    decreases n,
{
    if n <= 0 {
        Seq::empty()
    } else {
        match validation(lines[n - 1]) {
            Ok(_) => invalid_words(lines, n - 1),
            Err(errors) => invalid_words(lines, n - 1).push(
                InvalidWordView { pos: (n - 1) as nat, word: lines[n - 1], errors },
            ),
        }
    }
}

/// The outcome of validating `lines`: the playable words alone if every
/// line is one, else the playable words together with the reports.
pub open spec fn list_validation(lines: Seq<Seq<char>>) -> Result<
    Seq<Seq<char>>,
    (Seq<Seq<char>>, Seq<InvalidWordView>),
> {
    let valid = valid_words(lines, lines.len() as int);
    let invalid = invalid_words(lines, lines.len() as int);
    if invalid.len() > 0 {
        Err((valid, invalid))
    } else {
        Ok(valid)
    }
}

/// The outcome of validating a list as a mathematical value.
pub open spec fn list_validation_view(
    outcome: Result<Vec<String>, (Vec<String>, Vec<InvalidWord>)>,
) -> Result<Seq<Seq<char>>, (Seq<Seq<char>>, Seq<InvalidWordView>)> {
    match outcome {
        Ok(valid) => Ok(views(valid@)),
        Err((valid, invalid)) => Err((views(valid@), reports(invalid@))),
    }
}

/// Validates each of `words` in turn. The playable ones are returned in
/// lower case, the others are reported; a line that fails never costs
/// another its place.
pub fn validate_list(words: &[String]) -> (outcome: Result<
    Vec<String>,
    (Vec<String>, Vec<InvalidWord>),
>)
    ensures
        list_validation_view(outcome) == list_validation(views(words@)),
{
    let mut valid: Vec<String> = Vec::new();
    let mut invalid: Vec<InvalidWord> = Vec::new();
    let mut pos: usize = 0;
    while pos < words.len()
        invariant
            pos <= words@.len(),
            views(valid@) == valid_words(views(words@), pos as int),
            reports(invalid@) == invalid_words(views(words@), pos as int),
        decreases words@.len() - pos,
    {
        let ghost valid_before = valid@;
        let ghost invalid_before = invalid@;
        proof {
            assert(views(words@)[pos as int] == words@[pos as int]@);
        }
        match validate_word(words[pos].as_str()) {
            Ok(validated) => {
                valid.push(validated);
                proof {
                    assert(views(valid@) =~= views(valid_before).push(validated@));
                }
            },
            Err(errors) => {
                let report = InvalidWord { pos, word: words[pos].clone(), errors };
                invalid.push(report);
                proof {
                    assert(reports(invalid@) =~= reports(invalid_before).push(report@));
                }
            },
        }
        pos += 1;
    }
    if invalid.len() > 0 {
        Err((valid, invalid))
    } else {
        Ok(valid)
    }
}

/// Why a word list could not be loaded, or not in full.
#[derive(Debug, PartialEq, Eq)]
pub enum WordListError {
    /// The source could not be read.
    NoFile,
    /// The source holds no line.
    Empty,
    /// Some lines are no playable words.
    InvalidWords { words: Vec<InvalidWord> },
}

/// A [`WordListError`] as a mathematical value.
pub enum WordListErrorView {
    NoFile,
    Empty,
    InvalidWords { words: Seq<InvalidWordView> },
}

impl View for WordListError {
    type V = WordListErrorView;

    open spec fn view(&self) -> WordListErrorView {
        match self {
            WordListError::NoFile => WordListErrorView::NoFile,
            WordListError::Empty => WordListErrorView::Empty,
            WordListError::InvalidWords { words } => WordListErrorView::InvalidWords {
                words: reports(words@),
            },
        }
    }
}

/// The first `n` of `reports` in words, each starting on a new line.
pub open spec fn report_lines(reports: Seq<InvalidWordView>, n: int) -> Seq<char>
    decreases n,
{
    if n <= 0 {
        Seq::empty()
    } else if n == 1 {
        reports[0].text()
    } else {
        report_lines(reports, n - 1) + "\n"@ + reports[n - 1].text()
    }
}

impl WordListErrorView {
    /// The error in words.
    pub open spec fn text(self) -> Seq<char> {
        match self {
            WordListErrorView::NoFile => "File cannot be read/does not exist"@,
            WordListErrorView::Empty => "Word list format is improperly formatted"@,
            WordListErrorView::InvalidWords { words } => "Some words have errors:\n"@
                + report_lines(words, words.len() as int),
        }
    }
}

impl WordListError {
    /// The error in words; for lines that are no playable words, the
    /// report of each.
    pub fn to_string(&self) -> (message: String)
        ensures
            message@ == self@.text(),
    {
        match self {
            WordListError::NoFile => "File cannot be read/does not exist".to_owned(),
            WordListError::Empty => "Word list format is improperly formatted".to_owned(),
            WordListError::InvalidWords { words } => {
                let mut message: String = "Some words have errors:\n".to_owned();
                let ghost head = message@;
                let mut i: usize = 0;
                while i < words.len()
                    invariant
                        i <= words@.len(),
                        message@ == head + report_lines(reports(words@), i as int),
                    decreases words@.len() - i,
                {
                    if i > 0 {
                        message.append("\n");
                    }
                    let report: String = words[i].to_string();
                    message.append(report.as_str());
                    proof {
                        assert(reports(words@)[i as int] == words@[i as int]@);
                        assert(message@ =~= head + report_lines(reports(words@), i + 1));
                    }
                    i += 1;
                }
                message
            },
        }
    }
}

/// The outcome of loading the lines of a source: an error without words
/// if there is no line; else the playable words, together with an error
/// that holds the reports if some line is none.
pub open spec fn loading(lines: Seq<Seq<char>>) -> Result<
    Seq<Seq<char>>,
    (Seq<Seq<char>>, WordListErrorView),
> {
    if lines.len() == 0 {
        Err((Seq::empty(), WordListErrorView::Empty))
    } else {
        match list_validation(lines) {
            Ok(valid) => Ok(valid),
            Err((valid, invalid)) => Err((valid, WordListErrorView::InvalidWords { words: invalid })),
        }
    }
}

/// The outcome of loading a source: an error without words if it could
/// not be read, else what loading its lines gives.
pub open spec fn reading(source: Option<Seq<char>>) -> Result<
    Seq<Seq<char>>,
    (Seq<Seq<char>>, WordListErrorView),
> {
    match source {
        None => Err((Seq::empty(), WordListErrorView::NoFile)),
        Some(text) => loading(lines(text)),
    }
}

/// The outcome of loading a word list as a mathematical value.
pub open spec fn loading_view(outcome: Result<Vec<String>, (Vec<String>, WordListError)>) -> Result<
    Seq<Seq<char>>,
    (Seq<Seq<char>>, WordListErrorView),
> {
    match outcome {
        Ok(valid) => Ok(views(valid@)),
        Err((valid, error)) => Err((views(valid@), error@)),
    }
}

/// Loads a word list from the lines of its source. Without any line there
/// is nothing to play with. Otherwise the playable words are returned, as
/// an error together with the reports if some line is none: the caller
/// decides whether to play with what is left.
pub fn load_list(lines: &[String]) -> (outcome: Result<Vec<String>, (Vec<String>, WordListError)>)
    ensures
        loading_view(outcome) == loading(views(lines@)),
{
    if lines.len() == 0 {
        let none: Vec<String> = Vec::new();
        proof {
            assert(views(none@) =~= Seq::<Seq<char>>::empty());
        }
        Err((none, WordListError::Empty))
    } else {
        match validate_list(lines) {
            Ok(words) => Ok(words),
            Err((words, invalid)) => Err((words, WordListError::InvalidWords { words: invalid })),
        }
    }
}

/// Loads a word list from the text of its source, one word on each line;
/// `None` stands for a source that could not be read.
pub fn read_from(source: Option<&str>) -> (outcome: Result<
    Vec<String>,
    (Vec<String>, WordListError),
>)
    ensures
        loading_view(outcome) == reading(
            match source {
                Some(text) => Some(text@),
                None => None,
            },
        ),
{
    match source {
        None => {
            let none: Vec<String> = Vec::new();
            proof {
                assert(views(none@) =~= Seq::<Seq<char>>::empty());
            }
            Err((none, WordListError::NoFile))
        },
        Some(text) => {
            let lines: Vec<String> = split_lines(text);
            load_list(lines.as_slice())
        },
    }
}

/// The character at position `i`. Read through a function whose result
/// is a `char`, it is known to be a valid character, which `word[i]` alone
/// does not tell.
spec fn char_at(word: Seq<char>, i: int) -> char {
    word[i]
}

/// Whether `word` has a playable length and holds nothing but the letters
/// `a` to `z`.
pub open spec fn is_plain_word(word: Seq<char>) -> bool {
    &&& MIN_LENGTH <= word.len() <= MAX_LENGTH
    &&& forall|i: int| 0 <= i < word.len() ==> 'a' <= #[trigger] word[i] <= 'z'
}

/// The words of the bundled list.
pub open spec fn default_list() -> Seq<Seq<char>> {
    seq![
        "cat"@,
        "dog"@,
        "sun"@,
        "tree"@,
        "bird"@,
        "fish"@,
        "moon"@,
        "star"@,
        "apple"@,
        "bread"@,
        "chair"@,
        "dread"@,
        "added"@,
        "geese"@,
        "those"@,
        "house"@,
        "light"@,
        "music"@,
        "plant"@,
        "river"@,
        "stone"@,
        "table"@,
        "water"@,
        "world"@,
        "bridge"@,
        "flower"@,
        "garden"@,
        "orange"@,
        "planet"@,
        "window"@,
        "balloon"@,
        "captain"@,
        "diamond"@,
        "journey"@,
        "kitchen"@,
        "rainbow"@,
    ]
}

/// Every word of the bundled list is plain.
pub proof fn lemma_default_list_is_plain()
    ensures
        forall|i: int| 0 <= i < default_list().len() ==> is_plain_word(#[trigger] default_list()[i]),
{
    reveal_strlit("cat");
    reveal_strlit("dog");
    reveal_strlit("sun");
    reveal_strlit("tree");
    reveal_strlit("bird");
    reveal_strlit("fish");
    reveal_strlit("moon");
    reveal_strlit("star");
    reveal_strlit("apple");
    reveal_strlit("bread");
    reveal_strlit("chair");
    reveal_strlit("dread");
    reveal_strlit("added");
    reveal_strlit("geese");
    reveal_strlit("those");
    reveal_strlit("house");
    reveal_strlit("light");
    reveal_strlit("music");
    reveal_strlit("plant");
    reveal_strlit("river");
    reveal_strlit("stone");
    reveal_strlit("table");
    reveal_strlit("water");
    reveal_strlit("world");
    reveal_strlit("bridge");
    reveal_strlit("flower");
    reveal_strlit("garden");
    reveal_strlit("orange");
    reveal_strlit("planet");
    reveal_strlit("window");
    reveal_strlit("balloon");
    reveal_strlit("captain");
    reveal_strlit("diamond");
    reveal_strlit("journey");
    reveal_strlit("kitchen");
    reveal_strlit("rainbow");
}

/// The bundled list of words, for a game without a list of its own.
pub fn default_words() -> (words: Vec<String>)
    ensures
        views(words@) == default_list(),
        forall|i: int| 0 <= i < words@.len() ==> is_plain_word(#[trigger] words@[i]@),
{
    let words: Vec<String> = vec![
        "cat".to_owned(),
        "dog".to_owned(),
        "sun".to_owned(),
        "tree".to_owned(),
        "bird".to_owned(),
        "fish".to_owned(),
        "moon".to_owned(),
        "star".to_owned(),
        "apple".to_owned(),
        "bread".to_owned(),
        "chair".to_owned(),
        "dread".to_owned(),
        "added".to_owned(),
        "geese".to_owned(),
        "those".to_owned(),
        "house".to_owned(),
        "light".to_owned(),
        "music".to_owned(),
        "plant".to_owned(),
        "river".to_owned(),
        "stone".to_owned(),
        "table".to_owned(),
        "water".to_owned(),
        "world".to_owned(),
        "bridge".to_owned(),
        "flower".to_owned(),
        "garden".to_owned(),
        "orange".to_owned(),
        "planet".to_owned(),
        "window".to_owned(),
        "balloon".to_owned(),
        "captain".to_owned(),
        "diamond".to_owned(),
        "journey".to_owned(),
        "kitchen".to_owned(),
        "rainbow".to_owned(),
    ];
    proof {
        assert(views(words@) =~= default_list());
        lemma_default_list_is_plain();
        assert forall|i: int| 0 <= i < words@.len() implies is_plain_word(
            #[trigger] words@[i]@,
        ) by {
            assert(words@[i]@ == default_list()[i]);
        }
    }
    words
}

proof fn lemma_character_errors_none(word: Seq<char>, letters: Seq<bool>, n: int)
    requires
        0 <= n <= letters.len(),
        n <= word.len(),
    ensures
        character_errors(word, letters, n).len() == 0 <==> (forall|k: int|
            0 <= k < n ==> #[trigger] letters[k]),
    decreases n,
{
    if n > 0 {
        lemma_character_errors_none(word, letters, n - 1);
        assert(char_at(word, n - 1) == word[n - 1]);
    }
}

/// A word has no error exactly if it is playable as it is written.
pub proof fn lemma_no_error_iff_word(word: Seq<char>)
    ensures
        word_errors(word).len() == 0 <==> is_word(word),
{
    let marks = letter_marks(word);
    let by_length = length_errors(word.len());
    let by_character = character_errors(word, marks, word.len() as int);
    lemma_character_errors_none(word, marks, word.len() as int);
    assert(word_errors(word).len() == by_length.len() + by_character.len());
    if is_word(word) {
        assert forall|k: int| 0 <= k < word.len() implies #[trigger] marks[k] by {
            assert(alphabetic(word[k]));
        }
    }
    if word_errors(word).len() == 0 {
        assert forall|i: int| 0 <= i < word.len() implies alphabetic(#[trigger] word[i]) by {
            assert(marks[i]);
        }
    }
}

/// Validation succeeds exactly on the words whose lower-case form is
/// playable, and then returns that form.
pub proof fn lemma_validation_accepts_words(word: Seq<char>)
    ensures
        validation(word) is Ok <==> is_word(lowercase(word)),
        validation(word) is Ok ==> validation(word) == Ok::<Seq<char>, Seq<WordError>>(
            lowercase(word),
        ),
{
    lemma_no_error_iff_word(lowercase(word));
}

/// A playable word that is in lower case already comes back from
/// validation as it went in.
pub proof fn lemma_valid_word_round_trip(word: Seq<char>)
    requires
        is_word(word),
        lowercase(word) == word,
    ensures
        validation(word) == Ok::<Seq<char>, Seq<WordError>>(word),
{
    lemma_no_error_iff_word(word);
}

/// No line is lost: each of the first `n` lines is either among the
/// playable words or among the reports, and what is among the words is
/// playable.
pub proof fn lemma_every_line_is_kept(lines: Seq<Seq<char>>, n: int)
    requires
        0 <= n <= lines.len(),
    ensures
        valid_words(lines, n).len() + invalid_words(lines, n).len() == n,
        forall|i: int|
            0 <= i < valid_words(lines, n).len() ==> is_word(#[trigger] valid_words(lines, n)[i]),
    decreases n,
{
    if n > 0 {
        lemma_every_line_is_kept(lines, n - 1);
        lemma_validation_accepts_words(lines[n - 1]);
    }
}

} // verus!
