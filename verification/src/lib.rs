//! A word-guessing game engine: a dictionary loader that vets raw word lists,
//! and a game that scores guesses against a fixed answer letter by letter.

pub mod args;
pub mod scoring;
pub mod text;
pub mod ui;
pub mod wordle;
pub mod words;
