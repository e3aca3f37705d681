use nlsh::classify::{classify as classify_with, looks_like_nl_args, lookup_word, LineKind};

/// Classifies `line` the way the shell does, with the commands known to a
/// typical zsh on macOS standing in for the lookup of the first word.
fn classify(line: &str) -> LineKind {
    let known = match lookup_word(line) {
        Some(word) => ["ls", "find", "what", "env", "du", "git"].contains(&word.as_str()),
        None => false,
    };
    classify_with(line, known)
}

#[test]
fn empty_is_shell() {
    assert_eq!(classify(""), LineKind::Shell);
    assert_eq!(classify("   "), LineKind::Shell);
}

#[test]
fn history_expansion_is_shell() {
    assert_eq!(classify("!!"), LineKind::Shell);
    assert_eq!(classify("!git"), LineKind::Shell);
}

#[test]
fn comment_is_shell() {
    assert_eq!(classify("# comment"), LineKind::Shell);
}

#[test]
fn assignment_is_shell() {
    assert_eq!(classify("FOO=bar"), LineKind::Shell);
    assert_eq!(classify("FOO=bar baz"), LineKind::Shell);
}

#[test]
fn explicit_path_is_shell() {
    assert_eq!(classify("/usr/bin/env python"), LineKind::Shell);
    assert_eq!(classify("./myscript.sh"), LineKind::Shell);
}

#[test]
fn ls_is_shell() {
    assert_eq!(classify("ls -la"), LineKind::Shell);
}

#[test]
fn unknown_is_nl() {
    assert_eq!(classify("show me disk usage"), LineKind::NaturalLanguage);
}

#[test]
fn find_with_flags_is_shell() {
    assert_eq!(classify("find . -name '*.rs'"), LineKind::Shell);
    assert_eq!(classify("find /tmp -mtime -1"), LineKind::Shell);
}

#[test]
fn find_english_sentence_is_nl() {
    assert_eq!(classify("find my ip address"), LineKind::NaturalLanguage);
    assert_eq!(classify("find large files in home directory"), LineKind::NaturalLanguage);
}

#[test]
fn what_english_sentence_is_nl() {
    assert_eq!(classify("what is my username"), LineKind::NaturalLanguage);
    assert_eq!(classify("what is my ip address"), LineKind::NaturalLanguage);
}

#[test]
fn lookup_word_names_the_first_word_only_when_needed() {
    assert_eq!(lookup_word("  ls -la "), Some("ls".to_string()));
    assert_eq!(lookup_word("show\tme"), Some("show".to_string()));
    assert_eq!(lookup_word(""), None);
    assert_eq!(lookup_word("!!"), None);
    assert_eq!(lookup_word("(cd x)"), None);
    assert_eq!(lookup_word("{ ls; }"), None);
    assert_eq!(lookup_word("a=b c"), None);
    assert_eq!(lookup_word("bin/x"), None);
}

#[test]
fn lookup_answer_ignored_when_not_asked() {
    for line in ["", "!x", "# c", "A=1 b c d", "./x y z w", "(a b c)"] {
        assert_eq!(classify_with(line, true), LineKind::Shell);
        assert_eq!(classify_with(line, false), LineKind::Shell);
    }
}

#[test]
fn nl_args_rules() {
    assert!(!looks_like_nl_args("find me"));
    assert!(looks_like_nl_args("find me files"));
    assert!(!looks_like_nl_args("find me -x"));
    assert!(!looks_like_nl_args("find me ~/x"));
    assert!(!looks_like_nl_args("find me a*"));
    assert!(!looks_like_nl_args("find is it here?"));
    assert!(!looks_like_nl_args("find me \"x\""));
    assert!(!looks_like_nl_args("find me 'x'"));
    assert!(!looks_like_nl_args("find me a=b"));
    assert!(!looks_like_nl_args("find me ."));
    assert!(!looks_like_nl_args("cat notes > out"));
    assert!(!looks_like_nl_args("sort words <in"));
    assert!(!looks_like_nl_args("echo hi 2>err"));
    assert!(looks_like_nl_args("  -x  plain   words  "));
    assert!(!looks_like_nl_args(""));
}

#[test]
fn known_command_with_two_plain_words_is_nl() {
    assert_eq!(classify_with("git status please", true), LineKind::NaturalLanguage);
    assert_eq!(classify_with("git status", true), LineKind::Shell);
    assert_eq!(classify_with("git status", false), LineKind::NaturalLanguage);
}
