//! Decides whether a typed line is a shell command or a request in plain
//! English.
//!
//! Syntax decides first: empty lines, history expansion, comments,
//! assignments, explicit paths and groupings are shell. Otherwise the first
//! word is looked up among the shell's commands (`lookup_word` names it;
//! the lookup itself runs `zsh`, outside this crate) and `classify` takes
//! the answer: an unknown word means English, and so does a known command
//! followed by plain words.
use vstd::prelude::*;
use crate::text::{
    chars_of, has_char, has_char_in, is_whitespace, is_ws, lemma_words_skip_ws,
    lemma_words_take_word, lemma_ws_index, lemma_ws_index_is, opt_view, substring, trim, trim_bounds, word_end,
    words, ws_index,
};

verus! {

/// What a typed line is.
#[derive(Debug, Clone, Copy, PartialEq, Eq, Structural)]
pub enum LineKind {
    /// A shell command, sent to the shell as typed.
    Shell,
    /// A request in plain English, sent to the model.
    NaturalLanguage,
}

/// Whether a word is shell usage rather than English: a flag, a path, a
/// home directory, a quote, a glob, an assignment or a redirection.
pub open spec fn shellish(a: Seq<char>) -> bool {
    ||| a.len() > 0 && (a[0] == '-' || a[0] == '/' || a[0] == '.' || a[0] == '~' || a[0] == '"'
        || a[0] == '\'')
    ||| has_char(a, '*')
    ||| has_char(a, '?')
    ||| has_char(a, '=')
    ||| has_char(a, '>')
    ||| has_char(a, '<')
}

/// Whether the words after the first one read as English: at least two of
/// them, none of them shell usage.
pub open spec fn nl_args_spec(line: Seq<char>) -> bool {
    let w = words(line);
    w.len() >= 3 && forall|j: int| 1 <= j < w.len() ==> !shellish(#[trigger] w[j])
}

/// The first word of a trimmed, non-empty line.
pub open spec fn first_word(t: Seq<char>) -> Seq<char> {
    t.take(ws_index(t) as int)
}

/// Whether the syntax of the line leaves the decision to the lookup of
/// its first word.
pub open spec fn needs_lookup(line: Seq<char>) -> bool {
    let t = trim(line);
    &&& t.len() > 0
    &&& t[0] != '!' && t[0] != '#' && t[0] != '(' && t[0] != '{'
    &&& !has_char(first_word(t), '=')
    &&& !has_char(first_word(t), '/')
}

/// The kind of `line`, given whether its first word is a known command.
pub open spec fn classify_spec(line: Seq<char>, word_is_command: bool) -> LineKind {
    if !needs_lookup(line) {
        LineKind::Shell
    } else if !word_is_command {
        LineKind::NaturalLanguage
    } else if nl_args_spec(line) {
        LineKind::NaturalLanguage
    } else {
        LineKind::Shell
    }
}

/// Whether the word `v[i..j]` is shell usage.
fn shellish_in(v: &Vec<char>, i: usize, j: usize) -> (r: bool)
    requires
        i <= j <= v@.len(),
    ensures
        r == shellish(v@.subrange(i as int, j as int)),
{
    let ghost a = v@.subrange(i as int, j as int);
    if i < j {
        let c = v[i];
        assert(a[0] == c);
        if c == '-' || c == '/' || c == '.' || c == '~' || c == '"' || c == '\'' {
            return true;
        }
    }
    has_char_in(v, '*', i, j) || has_char_in(v, '?', i, j) || has_char_in(v, '=', i, j)
        || has_char_in(v, '>', i, j) || has_char_in(v, '<', i, j)
}

/// Whether the arguments after the first word of `line` look like English
/// rather than shell usage: at least two more words, and none of them a
/// flag, a path, a home directory, a glob, an assignment, a quote or a
/// redirection.
pub fn looks_like_nl_args(line: &str) -> (r: bool)
    ensures
        r == nl_args_spec(line@),
{
    let v = chars_of(line);
    let n = v.len();
    let mut i: usize = 0;
    let mut count: usize = 0;
    let mut shell_arg = false;
    let ghost mut pre: Seq<Seq<char>> = Seq::empty();
    assert(v@.skip(0) =~= v@);
    while i < n
        invariant
            n == v@.len(),
            i <= n,
            count <= i,
            count == pre.len(),
            words(v@) == pre + words(v@.skip(i as int)),
            shell_arg == exists|j: int| 1 <= j < pre.len() && shellish(#[trigger] pre[j]),
        decreases n - i,
    {
        if is_whitespace(v[i]) {
            proof {
                lemma_words_skip_ws(v@, i as int);
            }
            i = i + 1;
        } else {
            let j = word_end(&v, i);
            proof {
                lemma_words_take_word(v@, i as int, j as int);
                assert(pre + (seq![v@.subrange(i as int, j as int)] + words(v@.skip(j as int)))
                    =~= pre.push(v@.subrange(i as int, j as int)) + words(v@.skip(j as int)));
            }
            let s = shellish_in(&v, i, j);
            let ghost old_pre = pre;
            proof {
                pre = pre.push(v@.subrange(i as int, j as int));
            }
            if count >= 1 && s {
                shell_arg = true;
                assert(shellish(pre[count as int]));
            } else {
                assert forall|k: int| 1 <= k < pre.len() && shellish(#[trigger] pre[k]) implies 1 <= k
                    < old_pre.len() && shellish(old_pre[k]) by {
                    if k < old_pre.len() {
                        assert(pre[k] == old_pre[k]);
                    }
                }
                assert forall|k: int| 1 <= k < old_pre.len() && shellish(#[trigger] old_pre[k])
                    implies 1 <= k < pre.len() && shellish(pre[k]) by {
                    assert(pre[k] == old_pre[k]);
                }
            }
            count = count + 1;
            i = j;
        }
    }
    assert(v@.skip(n as int) =~= Seq::<char>::empty());
    assert(words(v@) =~= pre);
    count >= 3 && !shell_arg
}

/// The first word of `line`, when the syntax alone does not decide its
/// kind and that word must be looked up among the shell's commands.
pub fn lookup_word(line: &str) -> (r: Option<String>)
    ensures
        opt_view(r) == (if needs_lookup(line@) {
            Some(first_word(trim(line@)))
        } else {
            None
        }),
{
    let v = chars_of(line);
    let n = v.len();
    let (a, b) = trim_bounds(&v, 0, n);
    assert(v@.subrange(0, n as int) =~= v@);
    let ghost t = v@.subrange(a as int, b as int);
    if a == b {
        return None;
    }
    let c = v[a];
    assert(t[0] == c);
    if c == '!' || c == '#' || c == '(' || c == '{' {
        return None;
    }
    let e0 = word_end(&v, a);
    let e = if e0 < b {
        e0
    } else {
        b
    };
    proof {
        if e < b {
            assert(t[e - a] == v@[e as int]);
        }
        assert forall|k2: int| 0 <= k2 < e - a implies !is_ws(#[trigger] t[k2]) by {
            assert(t[k2] == v@[a + k2]);
        }
        lemma_ws_index_is(t, e - a);
    }
    assert(t.take(e - a) =~= v@.subrange(a as int, e as int));
    if has_char_in(&v, '=', a, e) || has_char_in(&v, '/', a, e) {
        return None;
    }
    Some(substring(line, a, e))
}

/// The kind of `line`, given whether its first word is a known command,
/// builtin, alias or function of the shell (the answer of the lookup of
/// `lookup_word(line)`; it does not matter when that is `None`).
pub fn classify(line: &str, word_is_command: bool) -> (r: LineKind)
    ensures
        r == classify_spec(line@, word_is_command),
{
    match lookup_word(line) {
        None => LineKind::Shell,
        Some(_) => {
            if !word_is_command {
                LineKind::NaturalLanguage
            } else if looks_like_nl_args(line) {
                LineKind::NaturalLanguage
            } else {
                LineKind::Shell
            }
        },
    }
}

/// Law: the answer of the lookup matters only when `lookup_word` asks for
/// it; otherwise the syntax alone makes the line a shell command.
pub proof fn law_lookup_only_when_asked(line: Seq<char>)
    requires
        !needs_lookup(line),
    ensures
        classify_spec(line, true) == LineKind::Shell,
        classify_spec(line, false) == LineKind::Shell,
{
}

/// Law: a line is sent to the model only when its first word must be
/// looked up, and either the lookup failed or at least two plain words
/// follow that word.
pub proof fn law_english_needs_reason(line: Seq<char>, word_is_command: bool)
    requires
        classify_spec(line, word_is_command) == LineKind::NaturalLanguage,
    ensures
        needs_lookup(line),
        !word_is_command || words(line).len() >= 3,
{
}

/// The first word of `t` is its first `ws_index(t)` characters.
proof fn lemma_first_word_in(t: Seq<char>)
    ensures
        0 <= ws_index(t) <= t.len(),
        first_word(t).len() == ws_index(t),
{
    lemma_ws_index(t);
}

/// Law: by syntax alone, whatever the lookup says, a line is a shell
/// command when it is blank; when, trimmed, it starts with `!` (history),
/// `#` (a comment), `(` or `{` (a grouping); or when its first word holds
/// `=` (an assignment) or `/` (a path).
pub proof fn law_syntax_makes_shell(line: Seq<char>, known: bool, i: int)
    requires
        ({
            let t = trim(line);
            ||| t.len() == 0
            ||| t[0] == '!' || t[0] == '#' || t[0] == '(' || t[0] == '{'
            ||| 0 <= i < ws_index(t) && (t[i] == '=' || t[i] == '/')
        }),
    ensures
        classify_spec(line, known) == LineKind::Shell,
{
    let t = trim(line);
    lemma_first_word_in(t);
    if t.len() > 0 && !(t[0] == '!' || t[0] == '#' || t[0] == '(' || t[0] == '{') {
        assert(first_word(t)[i] == t[i]);
        assert(has_char(first_word(t), '=') || has_char(first_word(t), '/'));
    }
}

/// Law: when the syntax does not decide (the trimmed line is not empty,
/// does not start with `!`, `#`, `(` or `{`, and its first word holds no
/// `=` and no `/`), the first word, up to the first blank, is looked up,
/// and a word the shell does not know makes the line English.
pub proof fn law_unknown_word_is_english(line: Seq<char>)
    requires
        trim(line).len() > 0,
        trim(line)[0] != '!' && trim(line)[0] != '#' && trim(line)[0] != '(' && trim(line)[0]
            != '{',
        forall|i: int| 0 <= i < ws_index(trim(line)) ==> trim(line)[i] != '=' && trim(line)[i] != '/',
    ensures
        needs_lookup(line),
        first_word(trim(line)) == trim(line).take(ws_index(trim(line)) as int),
        classify_spec(line, false) == LineKind::NaturalLanguage,
{
    let t = trim(line);
    lemma_first_word_in(t);
    assert forall|i: int| 0 <= i < first_word(t).len() implies first_word(t)[i] != '=' && first_word(
        t,
    )[i] != '/' by {
        assert(first_word(t)[i] == t[i]);
    }
}

/// Law: a known command with at most one argument is a shell command,
/// whatever that argument is.
pub proof fn law_short_known_command_is_shell(line: Seq<char>)
    requires
        words(line).len() <= 2,
    ensures
        !nl_args_spec(line),
        classify_spec(line, true) == LineKind::Shell,
{
}

/// Law: a known command whose arguments include shell usage stays a shell
/// command. An argument (a word after the first) is shell usage when it
/// starts with `-`, `/`, `.`, `~` or a quote, or holds `*`, `?`, `=`, `>`
/// or `<`; then the arguments do not read as English and the line goes to
/// the shell.
pub proof fn law_shell_argument_keeps_shell(line: Seq<char>, j: int)
    requires
        1 <= j < words(line).len(),
        ({
            let a = words(line)[j];
            ||| a.len() > 0 && (a[0] == '-' || a[0] == '/' || a[0] == '.' || a[0] == '~' || a[0]
                == '"' || a[0] == '\'')
            ||| exists|i: int|
                0 <= i < a.len() && (a[i] == '*' || a[i] == '?' || a[i] == '=' || a[i] == '>'
                    || a[i] == '<')
        }),
    ensures
        !nl_args_spec(line),
        classify_spec(line, true) == LineKind::Shell,
{
    let a = words(line)[j];
    if !(a.len() > 0 && (a[0] == '-' || a[0] == '/' || a[0] == '.' || a[0] == '~' || a[0] == '"'
        || a[0] == '\'')) {
        let i = choose|i: int|
            0 <= i < a.len() && (a[i] == '*' || a[i] == '?' || a[i] == '=' || a[i] == '>' || a[i]
                == '<');
        assert(a[i] == '*' ==> has_char(a, '*'));
        assert(a[i] == '?' ==> has_char(a, '?'));
        assert(a[i] == '=' ==> has_char(a, '='));
        assert(a[i] == '>' ==> has_char(a, '>'));
        assert(a[i] == '<' ==> has_char(a, '<'));
    }
    assert(shellish(a));
}

/// Law: a line whose first word starts with a lowercase letter and holds no
/// `=` or `/`, followed by at least two words made only of letters, reads
/// as English even when its first word is a known command: the line goes
/// to the model; and it goes there too when the first word is unknown.
pub proof fn law_plain_words_are_english(line: Seq<char>)
    requires
        trim(line).len() > 0,
        'a' <= trim(line)[0] <= 'z',
        forall|i: int| 0 <= i < ws_index(trim(line)) ==> trim(line)[i] != '=' && trim(line)[i] != '/',
        words(line).len() >= 3,
        forall|j: int, i: int|
            1 <= j < words(line).len() && 0 <= i < words(line)[j].len() ==> ('a'
                <= #[trigger] words(line)[j][i] <= 'z' || 'A' <= words(line)[j][i] <= 'Z'),
    ensures
        nl_args_spec(line),
        classify_spec(line, true) == LineKind::NaturalLanguage,
        classify_spec(line, false) == LineKind::NaturalLanguage,
{
    let t = trim(line);
    lemma_first_word_in(t);
    assert forall|i: int| 0 <= i < first_word(t).len() implies first_word(t)[i] != '=' && first_word(
        t,
    )[i] != '/' by {
        assert(first_word(t)[i] == t[i]);
    }
    assert(needs_lookup(line));
    let w = words(line);
    assert forall|j: int| 1 <= j < w.len() implies !shellish(#[trigger] w[j]) by {
        let a = w[j];
        if a.len() > 0 {
            assert('a' <= a[0] <= 'z' || 'A' <= a[0] <= 'Z');
        }
        assert forall|i: int| 0 <= i < a.len() implies a[i] != '*' && a[i] != '?' && a[i] != '='
            && a[i] != '>' && a[i] != '<' by {
            assert('a' <= a[i] <= 'z' || 'A' <= a[i] <= 'Z');
        }
    }
}

} // verus!
