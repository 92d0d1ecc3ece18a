//! Scoring one guess against the answer, letter by letter.
//!
//! A position where guess and answer hold the same letter is `Correct`. The
//! occurrences of a letter in the answer that are left over after that are
//! given out, from left to right, to the remaining positions of the guess
//! that hold this letter: those score `Present`, the others `Wrong`.

use crate::wordle::LetterScore;
use vstd::prelude::*;

verus! {

/// The number of positions below `n` at which `word` holds `c` and `other`
/// holds something else.
pub open spec fn unmatched(word: Seq<char>, other: Seq<char>, c: char, n: int) -> nat
    decreases n,
{
    if n <= 0 {
        0
    } else if word[n - 1] == c && other[n - 1] != c {
        unmatched(word, other, c, n - 1) + 1
    } else {
        unmatched(word, other, c, n - 1)
    }
}

/// The score of position `i` of `guess` against `answer`, two words of one
/// length.
pub open spec fn score_at(guess: Seq<char>, answer: Seq<char>, i: int) -> LetterScore {
    let c = guess[i];
    if c == answer[i] {
        LetterScore::Correct
    } else if unmatched(guess, answer, c, i) < unmatched(answer, guess, c, answer.len() as int) {
        LetterScore::Present
    } else {
        LetterScore::Wrong
    }
}

/// The scores of all positions of `guess` against `answer`.
pub open spec fn score(guess: Seq<char>, answer: Seq<char>) -> Seq<LetterScore> {
    Seq::new(guess.len(), |i: int| score_at(guess, answer, i))
}

/// The number of positions below `n` that hold `c` in `answer` and are not
/// yet taken.
spec fn free(answer: Seq<char>, taken: Seq<bool>, c: char, n: int) -> nat
    decreases n,
{
    if n <= 0 {
        0
    } else if answer[n - 1] == c && !taken[n - 1] {
        free(answer, taken, c, n - 1) + 1
    } else {
        free(answer, taken, c, n - 1)
    }
}

/// How many occurrences of `c` in the answer are still to be given out when
/// the positions below `i` of the guess have had their share.
spec fn left_over(guess: Seq<char>, answer: Seq<char>, c: char, i: int) -> int {
    let spare = unmatched(answer, guess, c, answer.len() as int);
    let asked = unmatched(guess, answer, c, i);
    if asked < spare {
        spare - asked
    } else {
        0
    }
}

proof fn lemma_free_of_exact(guess: Seq<char>, answer: Seq<char>, taken: Seq<bool>, c: char, n: int)
    requires
        0 <= n <= answer.len(),
        guess.len() == answer.len(),
        taken.len() == answer.len(),
        forall|k: int| 0 <= k < n ==> taken[k] == (guess[k] == answer[k]),
    ensures
        free(answer, taken, c, n) == unmatched(answer, guess, c, n),
    decreases n,
{
    if n > 0 {
        lemma_free_of_exact(guess, answer, taken, c, n - 1);
    }
}

proof fn lemma_free_none(answer: Seq<char>, taken: Seq<bool>, c: char, n: int)
    requires
        0 <= n <= answer.len(),
        taken.len() == answer.len(),
        forall|k: int| 0 <= k < n ==> taken[k] || answer[k] != c,
    ensures
        free(answer, taken, c, n) == 0,
    decreases n,
{
    if n > 0 {
        lemma_free_none(answer, taken, c, n - 1);
    }
}

proof fn lemma_free_take(answer: Seq<char>, taken: Seq<bool>, k: int, c: char, n: int)
    requires
        0 <= n <= answer.len(),
        taken.len() == answer.len(),
        0 <= k < answer.len(),
        !taken[k],
    ensures
        free(answer, taken.update(k, true), c, n) == free(answer, taken, c, n) - if k < n
            && answer[k] == c {
            1int
        } else {
            0
        },
    decreases n,
{
    if n > 0 {
        lemma_free_take(answer, taken, k, c, n - 1);
    }
}

/// Scores `guess` against `answer`, two words of one length. Every position
/// at which they agree is marked `Correct` first, and the letter of the
/// answer there is used up. Then, from left to right, each other position
/// of the guess takes an occurrence of its letter that is left in the
/// answer and is `Present`, or finds none and is `Wrong`.
pub fn score_word(guess: &Vec<char>, answer: &Vec<char>) -> (scores: Vec<LetterScore>)
    requires
        guess@.len() == answer@.len(),
    ensures
        scores@ == score(guess@, answer@),
{
    let n: usize = answer.len();
    let mut scores: Vec<LetterScore> = Vec::new();
    let mut taken: Vec<bool> = Vec::new();
    // The letters at their right place
    let mut i: usize = 0;
    while i < n
        invariant
            n == answer@.len(),
            n == guess@.len(),
            i <= n,
            scores@.len() == i,
            taken@.len() == i,
            forall|k: int| 0 <= k < i ==> taken@[k] == (guess@[k] == answer@[k]),
            forall|k: int|
                0 <= k < i ==> scores@[k] == if guess@[k] == answer@[k] {
                    LetterScore::Correct
                } else {
                    LetterScore::Wrong
                },
        decreases n - i,
    {
        if guess[i] == answer[i] {
            scores.push(LetterScore::Correct);
            taken.push(true);
        } else {
            scores.push(LetterScore::Wrong);
            taken.push(false);
        }
        i += 1;
    }
    proof {
        assert forall|c: char| #[trigger]
            free(answer@, taken@, c, n as int) == left_over(guess@, answer@, c, 0) by {
            lemma_free_of_exact(guess@, answer@, taken@, c, n as int);
        }
    }
    // The letters that are present elsewhere
    i = 0;
    while i < n
        invariant
            n == answer@.len(),
            n == guess@.len(),
            i <= n,
            scores@.len() == n,
            taken@.len() == n,
            forall|c: char| #[trigger]
                free(answer@, taken@, c, n as int) == left_over(guess@, answer@, c, i as int),
            forall|k: int| 0 <= k < i ==> scores@[k] == score_at(guess@, answer@, k),
            forall|k: int|
                i <= k < n ==> scores@[k] == if guess@[k] == answer@[k] {
                    LetterScore::Correct
                } else {
                    LetterScore::Wrong
                },
        decreases n - i,
    {
        let c: char = guess[i];
        if c != answer[i] {
            let mut k: usize = 0;
            while k < n && (taken[k] || answer[k] != c)
                invariant
                    n == answer@.len(),
                    taken@.len() == n,
                    k <= n,
                    forall|j: int| 0 <= j < k ==> taken@[j] || answer@[j] != c,
                decreases n - k,
            {
                k += 1;
            }
            if k < n {
                proof {
                    lemma_free_take(answer@, taken@, k as int, c, n as int);
                    assert forall|d: char| #[trigger]
                        free(answer@, taken@.update(k as int, true), d, n as int) == left_over(
                            guess@,
                            answer@,
                            d,
                            i + 1,
                        ) by {
                        lemma_free_take(answer@, taken@, k as int, d, n as int);
                    }
                }
                scores.set(i, LetterScore::Present);
                taken.set(k, true);
            } else {
                proof {
                    lemma_free_none(answer@, taken@, c, n as int);
                }
            }
        }
        i += 1;
    }
    proof {
        assert(scores@ =~= score(guess@, answer@));
    }
    scores
}

/// A guess that equals the answer scores `Correct` at every position.
pub proof fn lemma_answer_scores_all_correct(answer: Seq<char>)
    ensures
        score(answer, answer).len() == answer.len(),
        forall|i: int| 0 <= i < answer.len() ==> score(answer, answer)[i] == LetterScore::Correct,
{
}

/// The number of positions below `n` at which `guess` holds `c` and is
/// scored `Correct` or `Present`.
pub open spec fn credited(guess: Seq<char>, answer: Seq<char>, c: char, n: int) -> nat
    decreases n,
{
    if n <= 0 {
        0
    } else if guess[n - 1] == c && (score_at(guess, answer, n - 1) == LetterScore::Correct
        || score_at(guess, answer, n - 1) == LetterScore::Present) {
        credited(guess, answer, c, n - 1) + 1
    } else {
        credited(guess, answer, c, n - 1)
    }
}

/// The number of positions below `n` at which both words hold `c`.
spec fn matched(guess: Seq<char>, answer: Seq<char>, c: char, n: int) -> nat
    decreases n,
{
    if n <= 0 {
        0
    } else if guess[n - 1] == c && answer[n - 1] == c {
        matched(guess, answer, c, n - 1) + 1
    } else {
        matched(guess, answer, c, n - 1)
    }
}

proof fn lemma_credited_split(guess: Seq<char>, answer: Seq<char>, c: char, n: int)
    requires
        guess.len() == answer.len(),
        0 <= n <= answer.len(),
    ensures
        credited(guess, answer, c, n) + left_over(guess, answer, c, n) == matched(
            guess,
            answer,
            c,
            n,
        ) + unmatched(answer, guess, c, answer.len() as int),
    decreases n,
{
    if n > 0 {
        lemma_credited_split(guess, answer, c, n - 1);
    }
}

proof fn lemma_occurrences_split(guess: Seq<char>, answer: Seq<char>, c: char, n: int)
    requires
        guess.len() == answer.len(),
        0 <= n <= answer.len(),
    ensures
        matched(guess, answer, c, n) + unmatched(answer, guess, c, n) == answer.take(
            n,
        ).to_multiset().count(c),
    decreases n,
{
    if n > 0 {
        lemma_occurrences_split(guess, answer, c, n - 1);
        assert(answer.take(n) =~= answer.take(n - 1).push(answer[n - 1]));
        vstd::seq_lib::to_multiset_build(answer.take(n - 1), answer[n - 1]);
    } else {
        assert(answer.take(0) =~= Seq::<char>::empty());
        Seq::<char>::empty().to_multiset_ensures();
    }
}

/// However often a letter occurs in the guess, the positions at which it is
/// scored `Correct` or `Present` are no more than its occurrences in the
/// answer.
pub proof fn lemma_credit_within_answer(guess: Seq<char>, answer: Seq<char>, c: char)
    requires
        guess.len() == answer.len(),
    ensures
        credited(guess, answer, c, guess.len() as int) <= answer.to_multiset().count(c),
{
    let n = answer.len() as int;
    lemma_credited_split(guess, answer, c, n);
    lemma_occurrences_split(guess, answer, c, n);
    assert(answer.take(n) =~= answer);
}

proof fn lemma_unmatched_none(word: Seq<char>, other: Seq<char>, c: char, n: int)
    requires
        0 <= n <= word.len(),
        forall|k: int| 0 <= k < n && word[k] == c ==> other[k] == c,
    ensures
        unmatched(word, other, c, n) == 0,
    decreases n,
{
    if n > 0 {
        lemma_unmatched_none(word, other, c, n - 1);
    }
}

/// Exact matches come first: where the guess holds a letter at its right
/// place `p` and the answer holds that letter nowhere else, every other
/// position of the guess with this letter scores `Wrong`.
pub proof fn lemma_matched_letter_is_spent(guess: Seq<char>, answer: Seq<char>, p: int, q: int)
    requires
        guess.len() == answer.len(),
        0 <= p < guess.len(),
        0 <= q < guess.len(),
        p != q,
        guess[p] == answer[p],
        guess[q] == guess[p],
        forall|k: int| 0 <= k < answer.len() && k != p ==> answer[k] != guess[p],
    ensures
        score(guess, answer)[p] == LetterScore::Correct,
        score(guess, answer)[q] == LetterScore::Wrong,
{
    lemma_unmatched_none(answer, guess, guess[q], answer.len() as int);
}

} // verus!
