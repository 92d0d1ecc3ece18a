use word_game::args::Args;

fn line(args: &[&str]) -> Vec<String> {
    args.iter().map(|arg| arg.to_string()).collect()
}

#[test]
fn no_argument_plays_the_bundled_list() {
    let args = Args::new(line(&["word_game"]));
    assert!(!args.help());
    assert_eq!(args.word_list(), None);
}

#[test]
fn help_is_asked_for() {
    for flag in ["-h", "--help"] {
        let args = Args::new(line(&["word_game", flag]));
        assert!(args.help());
        assert_eq!(args.word_list(), None);
    }
}

#[test]
fn single_argument_names_the_word_list() {
    let args = Args::new(line(&["word_game", "words.txt"]));
    assert!(!args.help());
    assert_eq!(args.word_list(), Some(&"words.txt".to_string()));
    let args = Args::new(line(&["word_game", "-help"]));
    assert!(!args.help());
    assert_eq!(args.word_list(), Some(&"-help".to_string()));
}

#[test]
fn anything_else_gets_the_help_screen() {
    let args = Args::new(line(&["word_game", "a.txt", "b.txt"]));
    assert!(args.help());
    assert_eq!(args.word_list(), None);
    let args = Args::new(line(&[]));
    assert!(args.help());
    assert_eq!(args.word_list(), None);
}

#[test]
fn help_screen_names_the_options() {
    assert!(Args::HELP_MESSAGE.contains("-h, --help"));
    assert!(Args::HELP_MESSAGE.contains("WORD_LIST"));
}
