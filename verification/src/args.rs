//! What the command line asks for.

use vstd::prelude::*;
use vstd::string::*;

verus! {

/// What the command line asks for: the help screen, or a game, with a word
/// list of the player's own or with the bundled one.
pub struct Args {
    help: bool,
    word_list: Option<String>,
}

/// [`Args`] as a mathematical value.
pub struct ArgsView {
    pub help: bool,
    pub word_list: Option<Seq<char>>,
}

impl View for Args {
    type V = ArgsView;

    closed spec fn view(&self) -> ArgsView {
        ArgsView {
            help: self.help,
            word_list: match self.word_list {
                Some(path) => Some(path@),
                None => None,
            },
        }
    }
}

/// What a command line asks for; `args` starts with the program's name.
/// Without an argument a game with the bundled list is played. A single
/// argument asks for help if it is `-h` or `--help`, and names a word list
/// otherwise. Anything else gets the help screen.
pub open spec fn parsed(args: Seq<Seq<char>>) -> ArgsView {
    if args.len() == 1 {
        ArgsView { help: false, word_list: None }
    } else if args.len() == 2 {
        if args[1] == "-h"@ || args[1] == "--help"@ {
            ArgsView { help: true, word_list: None }
        } else {
            ArgsView { help: false, word_list: Some(args[1]) }
        }
    } else {
        ArgsView { help: true, word_list: None }
    }
}

impl Args {
    /// The text of the help screen.
    pub const HELP_MESSAGE: &'static str = "
NAME
    word_game - Wordle in terminal
SYNOPSIS
    word_game [-h] [WORD_LIST]
DESCRIPTION
    Play wordle in terminal

    -h, --help
        display this help and exit.
    WORD_LIST
        A text file containing the words each written on new line.
        Should contain at least 1 word.
        If no specify, the program will use default word list.
";

    /// Reads the command line; `args` starts with the program's name.
    pub fn new(args: Vec<String>) -> (parsed_args: Args)
        ensures
            parsed_args@ == parsed(crate::text::views(args@)),
    {
        proof {
            if args@.len() == 2 {
                assert(crate::text::views(args@)[1] == args@[1]@);
            }
        }
        if args.len() == 1 {
            Args { help: false, word_list: None }
        } else if args.len() == 2 {
            let short: String = "-h".to_owned();
            let long: String = "--help".to_owned();
            if args[1] == short || args[1] == long {
                Args { help: true, word_list: None }
            } else {
                Args { help: false, word_list: Some(args[1].clone()) }
            }
        } else {
            Args { help: true, word_list: None }
        }
    }

    /// Whether the help screen is asked for.
    pub fn help(&self) -> (help: bool)
        ensures
            help == self@.help,
    {
        self.help
    }

    /// The path of the player's word list, if one was given.
    pub fn word_list(&self) -> (path: Option<&String>)
        ensures
            match path {
                Some(path) => self@.word_list == Some(path@),
                None => self@.word_list is None,
            },
    {
        self.word_list.as_ref()
    }
}

} // verus!
