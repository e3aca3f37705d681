//! Reduces what the model answered to a single shell command.
//!
//! Models wrap commands in markdown fences or backticks and precede them
//! with a sentence of explanation; `clean_llm_output` strips the wrapping
//! and picks the first line that looks like a command.
use vstd::prelude::*;
use crate::text::{
    char_index, chars_at, chars_of, contains_seq, find_char, has_char, has_char_in, is_trimmed, is_ws,
    leading_count, lemma_char_index, lemma_char_index_is, lemma_leading_count_at, lemma_trim_range, lemma_trim_facts, lemma_trim_trimmed,
    occurs_at, opt_view, skip_run, starts_with, substring, trim, trim_bounds,
};

verus! {

/// What `char::is_lowercase` answers for a character beyond ASCII (the
/// Unicode `Lowercase` property).
pub uninterp spec fn char_is_lowercase(c: char) -> bool;

/// Whether `c` is lowercase: for an ASCII character, whether it is one of
/// `a` to `z`; beyond ASCII, the Unicode `Lowercase` property.
pub open spec fn lowercase_char(c: char) -> bool {
    if c as int <= 0x7f {
        'a' <= c <= 'z'
    } else {
        char_is_lowercase(c)
    }
}

/// Calls `char::is_lowercase`. Claimed, as std documents it: an ASCII
/// character is lowercase when it is one of `a` to `z`; beyond ASCII the
/// answer is `char_is_lowercase(c)`, a function of `c` alone (the Unicode
/// table is not restated here).
#[verifier::external_body]
fn is_lowercase(c: char) -> (r: bool)
    ensures
        c as int <= 0x7f ==> r == ('a' <= c <= 'z'),
        c as int > 0x7f ==> r == char_is_lowercase(c),
{
    c.is_lowercase()
}

/// Three backticks, the markdown code fence.
pub open spec fn fence() -> Seq<char> {
    seq!['`', '`', '`']
}

/// What the model answers when a request has no shell command.
pub open spec fn cannot_translate() -> Seq<char> {
    "CANNOT_TRANSLATE"@
}

/// The start of the last occurrence of `p` in `s`, or -1 when `p` does
/// not occur.
#[verifier::opaque]
pub open spec fn last_index(s: Seq<char>, p: Seq<char>) -> int {
    if contains_seq(s, p) {
        choose|i: int| occurs_at(s, p, i) && forall|j: int| j > i ==> !occurs_at(s, p, j)
    } else {
        -1
    }
}

/// From an occurrence of `p` at `i`, there is a last occurrence.
proof fn lemma_last_occurrence(s: Seq<char>, p: Seq<char>, i: int)
    requires
        occurs_at(s, p, i),
    ensures
        exists|k: int| occurs_at(s, p, k) && forall|j: int| j > k ==> !occurs_at(s, p, j),
    decreases s.len() - i,
{
    if exists|j: int| j > i && occurs_at(s, p, j) {
        let j = choose|j: int| j > i && occurs_at(s, p, j);
        lemma_last_occurrence(s, p, j);
    } else {
        assert(occurs_at(s, p, i) && forall|j: int| j > i ==> !occurs_at(s, p, j));
    }
}

/// Where `last_index` finds `p`, `p` occurs.
proof fn lemma_last_index(s: Seq<char>, p: Seq<char>)
    ensures
        last_index(s, p) >= 0 ==> occurs_at(s, p, last_index(s, p)),
{
    reveal(last_index);
    if contains_seq(s, p) {
        let i = choose|i: int| occurs_at(s, p, i);
        lemma_last_occurrence(s, p, i);
    }
}

/// The length of the run of `c` that starts `s` is within `s`.
proof fn lemma_leading_count(s: Seq<char>, c: char)
    ensures
        0 <= leading_count(s, c) <= s.len(),
    decreases s.len(),
{
    if s.len() > 0 && s[0] == c {
        lemma_leading_count(s.drop_first(), c);
    }
}

/// Strips an outer markdown code fence: the opening backticks, the rest of
/// their line (a language name), and everything from the last closing
/// fence on; the content is trimmed. Text that does not start with a fence
/// is returned as it is.
pub open spec fn strip_fence(text: Seq<char>) -> Seq<char> {
    if starts_with(text, fence()) {
        let after = text.skip(leading_count(text, '`'));
        let nl = char_index(after, '\n');
        let content = if nl < after.len() {
            after.skip(nl + 1)
        } else {
            after
        };
        let close = last_index(content, fence());
        if close >= 0 {
            trim(content.take(close))
        } else {
            trim(content)
        }
    } else {
        text
    }
}

/// Strips one pair of backticks around a single line of more than two
/// characters.
pub open spec fn strip_backticks(text: Seq<char>) -> Seq<char> {
    if !has_char(text, '\n') && text.len() > 2 && text[0] == '`' && text.last() == '`' {
        text.subrange(1, text.len() - 1)
    } else {
        text
    }
}

/// A line looks like a command when it starts with a lowercase letter or
/// one of `$ / . - _`, or holds a pipe or a redirection.
pub open spec fn looks_like_command(line: Seq<char>) -> bool {
    line.len() > 0 && (lowercase_char(line[0]) || line[0] == '$' || line[0] == '/' || line[0]
        == '.' || line[0] == '-' || line[0] == '_' || has_char(line, '|') || has_char(line, '>')
        || has_char(line, '<'))
}

/// The first line of `t`, trimmed.
pub open spec fn first_line(t: Seq<char>) -> Seq<char> {
    trim(t.take(char_index(t, '\n')))
}

/// The first line of `t` that, trimmed, looks like a command.
pub open spec fn first_command_line(t: Seq<char>) -> Option<Seq<char>>
    decreases t.len(),
{
    let k = char_index(t, '\n');
    let line = trim(t.take(k));
    if looks_like_command(line) {
        Some(line)
    } else if 0 <= k < t.len() {
        first_command_line(t.skip(k + 1))
    } else {
        None
    }
}

/// The command in the model's answer `raw`: the answer trimmed, stripped
/// of fence and backticks; then its first line that looks like a command,
/// or else its first line. No command when that is empty or is
/// `CANNOT_TRANSLATE`.
pub open spec fn clean_spec(raw: Seq<char>) -> Option<Seq<char>> {
    let t = strip_backticks(strip_fence(trim(raw)));
    let line = match first_command_line(t) {
        Some(l) => l,
        None => first_line(t),
    };
    if line.len() == 0 || line == cannot_translate() {
        None
    } else {
        Some(line)
    }
}

/// The first line of `t`, trimmed, is a single trimmed line.
proof fn lemma_first_line_is_line(t: Seq<char>)
    ensures
        !has_char(first_line(t), '\n'),
        is_trimmed(first_line(t)),
{
    lemma_char_index(t, '\n');
    let k = char_index(t, '\n');
    let p = t.take(k);
    lemma_trim_facts(p);
    let (a, b) = choose|a: int, b: int| 0 <= a <= b <= p.len() && trim(p) == p.subrange(a, b);
    assert forall|j: int| 0 <= j < trim(p).len() implies trim(p)[j] != '\n' by {
        assert(trim(p)[j] == t[a + j]);
    }
}

/// A line picked by `first_command_line` is a single trimmed line.
proof fn lemma_command_line_is_line(t: Seq<char>)
    ensures
        first_command_line(t) matches Some(l) ==> !has_char(l, '\n') && is_trimmed(l),
    decreases t.len(),
{
    lemma_first_line_is_line(t);
    let k = char_index(t, '\n');
    if !looks_like_command(trim(t.take(k))) && 0 <= k < t.len() {
        lemma_command_line_is_line(t.skip(k + 1));
    }
}

/// Law: the cleaned command is one line, trimmed, not empty, and never the
/// `CANNOT_TRANSLATE` marker.
pub proof fn law_clean_gives_one_line(raw: Seq<char>)
    ensures
        clean_spec(raw) matches Some(l) ==> {
            &&& l.len() > 0
            &&& !has_char(l, '\n')
            &&& is_trimmed(l)
            &&& l != cannot_translate()
        },
{
    let t = strip_backticks(strip_fence(trim(raw)));
    lemma_command_line_is_line(t);
    lemma_first_line_is_line(t);
}

/// A piece `s[a..b]` of `s` occurs in `s`.
proof fn lemma_piece_occurs(s: Seq<char>, a: int, b: int)
    requires
        0 <= a <= b <= s.len(),
    ensures
        contains_seq(s, s.subrange(a, b)),
{
    assert(occurs_at(s, s.subrange(a, b), a));
}

/// What occurs in a text that occurs in `z` occurs in `z`.
proof fn lemma_occurs_trans(z: Seq<char>, y: Seq<char>, x: Seq<char>)
    requires
        contains_seq(z, y),
        contains_seq(y, x),
    ensures
        contains_seq(z, x),
{
    let i = choose|i: int| occurs_at(z, y, i);
    let j = choose|j: int| occurs_at(y, x, j);
    assert(z.subrange(i + j, i + j + x.len()) =~= y.subrange(j, j + x.len()));
    assert(occurs_at(z, x, i + j));
}

/// The trimmed text of `s` occurs in `s`.
proof fn lemma_trim_occurs(s: Seq<char>)
    ensures
        contains_seq(s, trim(s)),
{
    lemma_trim_facts(s);
    let (a, b) = choose|a: int, b: int| 0 <= a <= b <= s.len() && trim(s) == s.subrange(a, b);
    lemma_piece_occurs(s, a, b);
}

/// The first line of `t` and the line `first_command_line` picks occur in
/// `t`.
proof fn lemma_lines_occur(t: Seq<char>)
    ensures
        contains_seq(t, first_line(t)),
        first_command_line(t) matches Some(l) ==> contains_seq(t, l),
    decreases t.len(),
{
    lemma_char_index(t, '\n');
    let k = char_index(t, '\n');
    let p = t.take(k);
    lemma_trim_occurs(p);
    lemma_piece_occurs(t, 0, k);
    assert(t.subrange(0, k) =~= p);
    lemma_occurs_trans(t, p, trim(p));
    if !looks_like_command(trim(p)) && 0 <= k < t.len() {
        let r = t.skip(k + 1);
        lemma_lines_occur(r);
        lemma_piece_occurs(t, k + 1, t.len() as int);
        assert(t.subrange(k + 1, t.len() as int) =~= r);
        if let Some(l) = first_command_line(r) {
            lemma_occurs_trans(t, r, l);
        }
    }
}

/// What `strip_fence` keeps occurs in the text.
proof fn lemma_strip_fence_occurs(text: Seq<char>)
    ensures
        contains_seq(text, strip_fence(text)),
{
    if starts_with(text, fence()) {
        let lc = leading_count(text, '`');
        lemma_leading_count(text, '`');
        let after = text.skip(lc);
        lemma_piece_occurs(text, lc, text.len() as int);
        assert(text.subrange(lc, text.len() as int) =~= after);
        lemma_char_index(after, '\n');
        let nl = char_index(after, '\n');
        let content = if nl < after.len() {
            after.skip(nl + 1)
        } else {
            after
        };
        if nl < after.len() {
            lemma_piece_occurs(after, nl + 1, after.len() as int);
            assert(after.subrange(nl + 1, after.len() as int) =~= content);
        } else {
            lemma_piece_occurs(after, 0, after.len() as int);
            assert(after.subrange(0, after.len() as int) =~= content);
        }
        lemma_occurs_trans(text, after, content);
        let close = last_index(content, fence());
        if close >= 0 {
            lemma_last_index(content, fence());
            let c = content.take(close);
            lemma_piece_occurs(content, 0, close);
            assert(content.subrange(0, close) =~= c);
            lemma_trim_occurs(c);
            lemma_occurs_trans(content, c, trim(c));
            lemma_occurs_trans(text, content, trim(c));
        } else {
            lemma_trim_occurs(content);
            lemma_occurs_trans(text, content, trim(content));
        }
    } else {
        lemma_piece_occurs(text, 0, text.len() as int);
        assert(text.subrange(0, text.len() as int) =~= text);
    }
}

/// Law: the cleaned command is a piece of the model's answer: it occurs,
/// character for character, in `raw`.
pub proof fn law_clean_occurs_in_answer(raw: Seq<char>)
    ensures
        clean_spec(raw) matches Some(l) ==> contains_seq(raw, l),
{
    let t0 = trim(raw);
    lemma_trim_occurs(raw);
    let t1 = strip_fence(t0);
    lemma_strip_fence_occurs(t0);
    lemma_occurs_trans(raw, t0, t1);
    let t = strip_backticks(t1);
    if !has_char(t1, '\n') && t1.len() > 2 && t1[0] == '`' && t1.last() == '`' {
        lemma_piece_occurs(t1, 1, t1.len() - 1);
    } else {
        lemma_piece_occurs(t1, 0, t1.len() as int);
        assert(t1.subrange(0, t1.len() as int) =~= t1);
    }
    lemma_occurs_trans(raw, t1, t);
    lemma_lines_occur(t);
    if let Some(l) = clean_spec(raw) {
        match first_command_line(t) {
            Some(c) => lemma_occurs_trans(raw, t, c),
            None => lemma_occurs_trans(raw, t, first_line(t)),
        }
    }
}

/// Law: a command given plainly (one trimmed line, not starting with a
/// backtick, not the `CANNOT_TRANSLATE` marker) comes back unchanged,
/// whether or not it looks like a command.
pub proof fn law_plain_command_unchanged(s: Seq<char>)
    requires
        s.len() > 0,
        !has_char(s, '\n'),
        is_trimmed(s),
        s[0] != '`',
        s != cannot_translate(),
    ensures
        clean_spec(s) == Some(s),
{
    lemma_trim_trimmed(s);
    assert(!starts_with(s, fence())) by {
        if starts_with(s, fence()) {
            assert(s.subrange(0, 3)[0] == s[0]);
        }
    }
    assert(strip_fence(s) == s);
    assert(strip_backticks(s) == s);
    lemma_char_index_is(s, '\n', s.len() as int);
    assert(s.take(s.len() as int) =~= s);
    assert(first_line(s) == s);
}

/// Law: an answer made of a sentence and then a command gives the
/// command. The sentence starts with a capital letter and holds no pipe or
/// redirection; the command is a trimmed line that starts with a lowercase
/// letter or one of `$ / . - _`, or holds a pipe or a redirection.
pub proof fn law_command_after_preface(p: Seq<char>, l: Seq<char>)
    requires
        p.len() > 0,
        'A' <= p[0] <= 'Z',
        !is_ws(p.last()),
        !has_char(p, '\n'),
        !has_char(p, '|'),
        !has_char(p, '>'),
        !has_char(p, '<'),
        l.len() > 0,
        !is_ws(l[0]),
        ('a' <= l[0] <= 'z') || l[0] == '$' || l[0] == '/' || l[0] == '.' || l[0] == '-' || l[0]
            == '_' || has_char(l, '|') || has_char(l, '>') || has_char(l, '<'),
        l != "CANNOT_TRANSLATE"@,
        !is_ws(l.last()),
        !has_char(l, '\n'),
    ensures
        clean_spec(p + seq!['\n'] + l) == Some(l),
{
    reveal_strlit("CANNOT_TRANSLATE");
    let raw = p + seq!['\n'] + l;
    assert(raw[0] == p[0]);
    assert(raw.last() == l.last());
    assert(!is_ws(p[0]));
    lemma_trim_trimmed(raw);
    assert(!starts_with(raw, fence())) by {
        if starts_with(raw, fence()) {
            assert(raw.subrange(0, 3)[0] == raw[0]);
        }
    }
    assert(strip_fence(raw) == raw);
    assert(raw[p.len() as int] == '\n');
    assert(has_char(raw, '\n'));
    assert(strip_backticks(raw) == raw);
    assert forall|j: int| 0 <= j < p.len() implies raw[j] != '\n' by {
        assert(raw[j] == p[j]);
    }
    lemma_char_index_is(raw, '\n', p.len() as int);
    assert(raw.take(p.len() as int) =~= p);
    lemma_trim_trimmed(p);
    assert(!looks_like_command(p));
    assert(raw.skip(p.len() as int + 1) =~= l);
    lemma_char_index_is(l, '\n', l.len() as int);
    assert(l.take(l.len() as int) =~= l);
    lemma_trim_trimmed(l);
    assert(looks_like_command(l));
    assert(first_command_line(l) == Some(l));
    assert(first_command_line(raw) == Some(l));
}

/// Law: a command wrapped in one pair of backticks comes back without
/// them: a single trimmed line, not starting with a backtick, not the
/// marker `CANNOT_TRANSLATE`.
pub proof fn law_backticks_stripped(c: Seq<char>)
    requires
        c.len() > 0,
        c[0] != '`',
        !is_ws(c[0]),
        !is_ws(c.last()),
        !has_char(c, '\n'),
        c != "CANNOT_TRANSLATE"@,
    ensures
        clean_spec(seq!['`'] + c + seq!['`']) == Some(c),
{
    reveal_strlit("CANNOT_TRANSLATE");
    let raw = seq!['`'] + c + seq!['`'];
    assert(raw[0] == '`');
    assert(raw.last() == '`');
    assert(!is_ws('`'));
    lemma_trim_trimmed(raw);
    assert(!starts_with(raw, fence())) by {
        if starts_with(raw, fence()) {
            assert(raw.subrange(0, 3)[1] == raw[1]);
            assert(raw[1] == c[0]);
        }
    }
    assert(!has_char(raw, '\n')) by {
        if has_char(raw, '\n') {
            let j = choose|j: int| 0 <= j < raw.len() && raw[j] == '\n';
            assert(raw[j] == c[j - 1]);
        }
    }
    assert(raw.subrange(1, raw.len() - 1) =~= c);
    assert(strip_backticks(strip_fence(trim(raw))) == c);
    lemma_char_index_is(c, '\n', c.len() as int);
    assert(c.take(c.len() as int) =~= c);
    lemma_trim_trimmed(c);
    assert(first_line(c) == c);
    if looks_like_command(c) {
        assert(first_command_line(c) == Some(c));
    } else {
        assert(first_command_line(c) == None::<Seq<char>>);
    }
}

/// Law: a command in a fenced code block, with or without a language name
/// after the opening fence, comes back as the line inside: a trimmed line
/// with no backtick that starts with a lowercase letter or one of
/// `$ / . - _`.
pub proof fn law_fenced_command(lang: Seq<char>, c: Seq<char>)
    requires
        !has_char(lang, '\n'),
        !has_char(lang, '`'),
        c.len() > 0,
        ('a' <= c[0] <= 'z') || c[0] == '$' || c[0] == '/' || c[0] == '.' || c[0] == '-' || c[0]
            == '_',
        !is_ws(c.last()),
        !has_char(c, '\n'),
        !has_char(c, '`'),
    ensures
        clean_spec(seq!['`', '`', '`'] + lang + seq!['\n'] + c + seq!['\n', '`', '`', '`'])
            == Some(c),
{
    reveal_strlit("CANNOT_TRANSLATE");
    let f = seq!['`', '`', '`'];
    let raw = f + lang + seq!['\n'] + c + seq!['\n', '`', '`', '`'];
    let n = raw.len() as int;
    assert(n == lang.len() + c.len() + 8);
    assert(raw[0] == '`');
    assert(raw.last() == '`');
    assert(!is_ws('`'));
    lemma_trim_trimmed(raw);
    assert(raw.subrange(0, 3) =~= fence());
    assert(starts_with(raw, fence()));
    // The opening fence is three backticks.
    if lang.len() > 0 {
        assert(raw[3] == lang[0]);
        assert(has_char(lang, lang[0]));
    } else {
        assert(raw[3] == '\n');
    }
    lemma_leading_count_at(raw, '`', 3);
    let after = raw.skip(3);
    assert(after =~= lang + seq!['\n'] + c + seq!['\n', '`', '`', '`']);
    assert forall|j: int| 0 <= j < lang.len() implies after[j] != '\n' by {
        assert(after[j] == lang[j]);
        if lang[j] == '\n' {
            assert(has_char(lang, '\n'));
        }
    }
    lemma_char_index_is(after, '\n', lang.len() as int);
    let content = after.skip(lang.len() as int + 1);
    assert(content =~= c + seq!['\n', '`', '`', '`']);
    // The closing fence is the last one.
    let cl = c.len() as int + 1;
    assert(content.subrange(cl, cl + 3) =~= fence());
    assert(occurs_at(content, fence(), cl));
    assert forall|j: int| j > cl implies !occurs_at(content, fence(), j) by {}
    assert forall|j: int| j < cl implies !occurs_at(content, fence(), j) by {
        if occurs_at(content, fence(), j) && 0 <= j {
            assert(content.subrange(j, j + 3)[0] == content[j]);
            if j < c.len() {
                assert(content[j] == c[j]);
                assert(has_char(c, '`'));
            } else {
                assert(content[j] == '\n');
            }
        }
    }
    assert(last_index(content, fence()) == cl) by {
        reveal(last_index);
        assert(contains_seq(content, fence()));
        let k = choose|i: int| occurs_at(content, fence(), i) && forall|j: int| j > i ==> !occurs_at(content, fence(), j);
        assert(occurs_at(content, fence(), k) && forall|j: int| j > k ==> !occurs_at(content, fence(), j));
    }
    let body = content.take(cl);
    assert(body =~= c + seq!['\n']);
    assert(!is_ws(c[0]));
    lemma_trim_range(body, 0, body.len() as int, 0, c.len() as int);
    assert(body.subrange(0, body.len() as int) =~= body);
    assert(body.subrange(0, c.len() as int) =~= c);
    assert(strip_fence(raw) == c);
    assert(strip_backticks(c) == c);
    lemma_char_index_is(c, '\n', c.len() as int);
    assert(c.take(c.len() as int) =~= c);
    lemma_trim_trimmed(c);
    assert(looks_like_command(c));
    assert(first_command_line(c) == Some(c));
    assert(c != cannot_translate()) by {
        if c == cannot_translate() {
            assert(c[0] == 'C');
        }
    }
}

/// Law: an answer that is only the marker `CANNOT_TRANSLATE`, with any
/// blanks around it, gives no command; and no answer ever gives the marker
/// as its command.
pub proof fn law_marker_means_no_command(raw: Seq<char>)
    ensures
        trim(raw) == "CANNOT_TRANSLATE"@ ==> clean_spec(raw) == None::<Seq<char>>,
        clean_spec(raw) != Some("CANNOT_TRANSLATE"@),
{
    reveal_strlit("CANNOT_TRANSLATE");
    let m = "CANNOT_TRANSLATE"@;
    if trim(raw) == m {
        assert(!starts_with(m, fence())) by {
            if starts_with(m, fence()) {
                assert(m.subrange(0, 3)[0] == m[0]);
            }
        }
        assert(!has_char(m, '\n'));
        assert(m[0] != '`');
        assert(strip_backticks(strip_fence(m)) == m);
        lemma_char_index_is(m, '\n', m.len() as int);
        assert(m.take(m.len() as int) =~= m);
        assert(!is_ws(m[0]) && !is_ws(m.last()));
        lemma_trim_trimmed(m);
        assert(!looks_like_command(m));
        assert(first_command_line(m) == None::<Seq<char>>);
    }
    law_clean_gives_one_line(raw);
}

/// Whether `v[lo..hi]` looks like a command.
fn looks_like_command_in(v: &Vec<char>, lo: usize, hi: usize) -> (r: bool)
    requires
        lo <= hi <= v@.len(),
    ensures
        r == looks_like_command(v@.subrange(lo as int, hi as int)),
{
    if lo == hi {
        return false;
    }
    let first = v[lo];
    assert(v@.subrange(lo as int, hi as int)[0] == first);
    is_lowercase(first) || first == '$' || first == '/' || first == '.' || first == '-' || first
        == '_' || has_char_in(v, '|', lo, hi) || has_char_in(v, '>', lo, hi) || has_char_in(
        v,
        '<',
        lo,
        hi,
    )
}

/// The start of the last fence in `v[lo..hi]`, if there is one.
fn last_fence(v: &Vec<char>, lo: usize, hi: usize) -> (r: Option<usize>)
    requires
        lo <= hi <= v@.len(),
    ensures
        match r {
            Some(i) => lo <= i && i + 3 <= hi && last_index(v@.subrange(lo as int, hi as int), fence())
                == i - lo,
            None => last_index(v@.subrange(lo as int, hi as int), fence()) == -1,
        },
{
    reveal(last_index);
    let ghost t = v@.subrange(lo as int, hi as int);
    let mut f: Vec<char> = Vec::new();
    f.push('`');
    f.push('`');
    f.push('`');
    assert(f@ =~= fence());
    if hi - lo < 3 {
        assert forall|j: int| !occurs_at(t, fence(), j) by {}
        return None;
    }
    let mut e: usize = hi - 3;
    loop
        invariant
            lo <= e <= hi - 3,
            hi <= v@.len(),
            f@ == fence(),
            t == v@.subrange(lo as int, hi as int),
            forall|j: int| j > e - lo ==> !occurs_at(t, fence(), j),
        decreases e - lo,
    {
        proof {
            reveal(last_index);
        }
        if chars_at(v, &f, e) {
            proof {
                assert(t.subrange(e - lo, e - lo + 3) =~= v@.subrange(e as int, e + 3));
                assert(occurs_at(t, fence(), e - lo));
                let k = choose|i: int| occurs_at(t, fence(), i) && forall|j: int| j > i ==> !occurs_at(t, fence(), j);
                assert(occurs_at(t, fence(), k) && forall|j: int| j > k ==> !occurs_at(t, fence(), j));
                assert(k == e - lo);
            }
            return Some(e);
        }
        proof {
            assert(t.subrange(e - lo, e - lo + 3) =~= v@.subrange(e as int, e + 3));
        }
        if e == lo {
            assert forall|j: int| !occurs_at(t, fence(), j) by {}
            return None;
        }
        e = e - 1;
    }
}

/// Whether `v[a..b]` starts with a fence.
fn starts_with_fence(v: &Vec<char>, a: usize, b: usize) -> (r: bool)
    requires
        a <= b <= v@.len(),
    ensures
        r == starts_with(v@.subrange(a as int, b as int), fence()),
{
    let ghost text = v@.subrange(a as int, b as int);
    if b - a >= 3 && v[a] == '`' && v[a + 1] == '`' && v[a + 2] == '`' {
        assert(text.subrange(0, 3) =~= fence());
        true
    } else {
        assert(!starts_with(text, fence())) by {
            if starts_with(text, fence()) {
                assert(text.subrange(0, 3)[0] == text[0]);
                assert(text.subrange(0, 3)[1] == text[1]);
                assert(text.subrange(0, 3)[2] == text[2]);
                assert(text[0] == v@[a as int]);
                assert(text[1] == v@[a + 1]);
                assert(text[2] == v@[a + 2]);
            }
        }
        false
    }
}

/// The bounds of `strip_fence(v[a..b])` within `v`.
fn fence_bounds(v: &Vec<char>, a: usize, b: usize) -> (r: (usize, usize))
    requires
        a <= b <= v@.len(),
    ensures
        r.0 <= r.1 <= v@.len(),
        v@.subrange(r.0 as int, r.1 as int) == strip_fence(v@.subrange(a as int, b as int)),
{
    let ghost text = v@.subrange(a as int, b as int);
    if !starts_with_fence(v, a, b) {
        return (a, b);
    }
    let p = skip_run(v, '`', a, b);
    let ghost after = text.skip(leading_count(text, '`'));
    assert(after =~= v@.subrange(p as int, b as int));
    let nl = find_char(v, '\n', p, b);
    let cs = if nl < b {
        nl + 1
    } else {
        p
    };
    let ghost content = if char_index(after, '\n') < after.len() {
        after.skip(char_index(after, '\n') + 1)
    } else {
        after
    };
    assert(content =~= v@.subrange(cs as int, b as int));
    let r = match last_fence(v, cs, b) {
        Some(i) => {
            assert(content.take(i - cs) =~= v@.subrange(cs as int, i as int));
            let r = trim_bounds(v, cs, i);
            assert(v@.subrange(r.0 as int, r.1 as int) == trim(content.take(last_index(content, fence()))));
            r
        },
        None => {
            let r = trim_bounds(v, cs, b);
            assert(v@.subrange(r.0 as int, r.1 as int) == trim(content));
            r
        },
    };
    assert(strip_fence(text) == (if last_index(content, fence()) >= 0 {
        trim(content.take(last_index(content, fence())))
    } else {
        trim(content)
    }));
    r
}

/// The bounds of `strip_backticks(v[lo..hi])` within `v`.
fn backtick_bounds(v: &Vec<char>, lo: usize, hi: usize) -> (r: (usize, usize))
    requires
        lo <= hi <= v@.len(),
    ensures
        r.0 <= r.1 <= v@.len(),
        v@.subrange(r.0 as int, r.1 as int) == strip_backticks(v@.subrange(lo as int, hi as int)),
{
    let ghost t = v@.subrange(lo as int, hi as int);
    if !has_char_in(v, '\n', lo, hi) && hi - lo > 2 && v[lo] == '`' && v[hi - 1] == '`' {
        assert(t.subrange(1, t.len() - 1) =~= v@.subrange(lo + 1, hi - 1));
        (lo + 1, hi - 1)
    } else {
        (lo, hi)
    }
}

/// The bounds within `v` of the first line of `v[lo..hi]` that looks like
/// a command, or else of its first line; trimmed either way.
fn command_line_bounds(v: &Vec<char>, lo: usize, hi: usize) -> (r: (usize, usize))
    requires
        lo <= hi <= v@.len(),
    ensures
        r.0 <= r.1 <= v@.len(),
        v@.subrange(r.0 as int, r.1 as int) == (match first_command_line(
            v@.subrange(lo as int, hi as int),
        ) {
            Some(l) => l,
            None => first_line(v@.subrange(lo as int, hi as int)),
        }),
{
    let ghost t = v@.subrange(lo as int, hi as int);
    let mut pos = lo;
    loop
        invariant
            lo <= pos <= hi <= v@.len(),
            t == v@.subrange(lo as int, hi as int),
            first_command_line(t) == first_command_line(v@.subrange(pos as int, hi as int)),
        decreases hi - pos,
    {
        let ghost rest = v@.subrange(pos as int, hi as int);
        let k = find_char(v, '\n', pos, hi);
        let (x, y) = trim_bounds(v, pos, k);
        proof {
            lemma_char_index(rest, '\n');
            assert(rest.take(k - pos) =~= v@.subrange(pos as int, k as int));
        }
        if looks_like_command_in(v, x, y) {
            return (x, y);
        }
        if k < hi {
            proof {
                assert(rest.skip(k - pos + 1) =~= v@.subrange(k + 1, hi as int));
            }
            pos = k + 1;
        } else {
            assert(first_command_line(t) is None);
            let k0 = find_char(v, '\n', lo, hi);
            assert(t.take(k0 - lo) =~= v@.subrange(lo as int, k0 as int));
            return trim_bounds(v, lo, k0);
        }
    }
}

/// Reduces raw model output to a single shell command; `None` when it
/// cannot be reduced to a usable command.
pub fn clean_llm_output(raw: &str) -> (r: Option<String>)
    ensures
        opt_view(r) == clean_spec(raw@),
{
    let v = chars_of(raw);
    let n = v.len();
    let (a, b) = trim_bounds(&v, 0, n);
    assert(v@.subrange(0, n as int) =~= v@);
    let (lo, hi) = fence_bounds(&v, a, b);
    let (lo, hi) = backtick_bounds(&v, lo, hi);
    let (x, y) = command_line_bounds(&v, lo, hi);
    let ghost line = v@.subrange(x as int, y as int);
    if x == y {
        return None;
    }
    let lit = chars_of("CANNOT_TRANSLATE");
    if y - x == lit.len() && chars_at(&v, &lit, x) {
        assert(line =~= cannot_translate());
        return None;
    }
    assert(line != cannot_translate()) by {
        if line == cannot_translate() {
            assert(v@.subrange(x as int, x + lit@.len()) =~= lit@);
        }
    }
    Some(substring(raw, x, y))
}

} // verus!
