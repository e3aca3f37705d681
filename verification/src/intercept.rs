//! The keystroke interceptor: bytes typed at the host terminal are either
//! forwarded to the child shell at once or collected into a line, which is
//! handed over for classification when Enter is pressed.
//!
//! The interceptor is a state machine. `InterceptLoop::step` takes one byte
//! and returns the actions to perform, in order; the program around it reads
//! the bytes and performs the actions.
use vstd::prelude::*;
use crate::classify::{LineKind, classify, classify_spec};
use crate::confirm::ConfirmResult;
use crate::llm::{LlmError, LlmErrorModel};
use crate::parser::{clean_llm_output, clean_spec};
use crate::safety::{has_destructive_pattern, is_destructive, lowercase_text};
use crate::text::{contains_bytes, contains_seq, is_ws, lemma_trim_empty_iff, trim, trimmed};

verus! {

/// The escape sequence that turns bracketed paste on.
pub open spec fn paste_on() -> Seq<u8> {
    seq![0x1bu8, 0x5bu8, 0x3fu8, 0x32u8, 0x30u8, 0x30u8, 0x34u8, 0x68u8]
}

/// The escape sequence that turns bracketed paste off.
pub open spec fn paste_off() -> Seq<u8> {
    seq![0x1bu8, 0x5bu8, 0x3fu8, 0x32u8, 0x30u8, 0x30u8, 0x34u8, 0x6cu8]
}

/// What erasing one echoed character writes: back, blank, back.
pub open spec fn erase_one() -> Seq<u8> {
    seq![0x08u8, 0x20u8, 0x08u8]
}

/// What erasing `n` echoed characters writes.
pub open spec fn erase_seq(n: nat) -> Seq<u8>
    decreases n,
{
    if n == 0 {
        Seq::empty()
    } else {
        erase_seq((n - 1) as nat) + erase_one()
    }
}

/// Printable ASCII, the bytes that are collected into the line.
pub open spec fn is_printable(b: u8) -> bool {
    0x20 <= b <= 0x7e
}

/// A byte that ends an escape sequence: an ASCII letter or `~`.
pub open spec fn ends_escape(b: u8) -> bool {
    (0x41 <= b <= 0x5a) || (0x61 <= b <= 0x7a) || b == 0x7e
}

/// One thing the interceptor asks to be done.
pub enum Action {
    /// Write these bytes to the child shell.
    ToShell(Vec<u8>),
    /// Write these bytes to the host terminal.
    Echo(Vec<u8>),
    /// Visually erase this many echoed characters on the host terminal.
    Erase(usize),
    /// A complete line was entered: route it (these bytes are its text).
    Submit(Vec<u8>),
}

/// The mathematical form of an `Action`.
pub enum ActionModel {
    ToShell(Seq<u8>),
    Echo(Seq<u8>),
    Erase(nat),
    Submit(Seq<u8>),
}

impl View for Action {
    type V = ActionModel;

    open spec fn view(&self) -> ActionModel {
        match self {
            Action::ToShell(b) => ActionModel::ToShell(b@),
            Action::Echo(b) => ActionModel::Echo(b@),
            Action::Erase(n) => ActionModel::Erase(*n as nat),
            Action::Submit(b) => ActionModel::Submit(b@),
        }
    }
}

/// The views of a list of actions.
pub open spec fn actions_view(v: Seq<Action>) -> Seq<ActionModel> {
    v.map_values(|a: Action| a@)
}

/// The interceptor's input state: the line typed so far, the escape
/// sequence being read, and whether bracketed paste is on.
pub struct InputModel {
    pub line: Seq<u8>,
    pub esc: Seq<u8>,
    pub in_esc: bool,
    pub in_paste: bool,
}

/// The state before any byte was read.
pub open spec fn fresh_input() -> InputModel {
    InputModel { line: Seq::empty(), esc: Seq::empty(), in_esc: false, in_paste: false }
}

/// The invariant of the input state: the line holds printable ASCII only,
/// and an escape sequence being read starts with ESC.
pub open spec fn input_wf(m: InputModel) -> bool {
    &&& forall|j: int| 0 <= j < m.line.len() ==> is_printable(#[trigger] m.line[j])
    &&& m.in_esc ==> m.esc.len() >= 1 && m.esc[0] == 0x1b
    &&& !m.in_esc ==> m.esc.len() == 0
}

/// One step of the interceptor: the state after byte `b` and the actions
/// it calls for. `passthrough` is set while a full-screen program runs.
/// Once bracketed paste is on, every byte goes straight to the shell (the
/// check for it comes before any escape handling, so it stays on).
pub open spec fn step_spec(m: InputModel, b: u8, passthrough: bool) -> (InputModel, Seq<ActionModel>) {
    if passthrough || m.in_paste {
        (m, seq![ActionModel::ToShell(seq![b])])
    } else if m.in_esc {
        let e = m.esc.push(b);
        if e == paste_on() {
            (InputModel { esc: Seq::empty(), in_esc: false, in_paste: true, ..m }, seq![ActionModel::ToShell(e)])
        } else if e == paste_off() {
            (InputModel { esc: Seq::empty(), in_esc: false, in_paste: false, ..m }, seq![ActionModel::ToShell(e)])
        } else if e.len() > 1 && ends_escape(b) {
            (
                InputModel { line: Seq::empty(), esc: Seq::empty(), in_esc: false, ..m },
                seq![ActionModel::ToShell(m.line), ActionModel::ToShell(e)],
            )
        } else {
            (InputModel { esc: e, ..m }, Seq::empty())
        }
    } else if b == 0x1b {
        (InputModel { esc: seq![0x1bu8], in_esc: true, ..m }, Seq::empty())
    } else if b == 0x09 {
        (
            InputModel { line: Seq::empty(), ..m },
            seq![ActionModel::ToShell(m.line), ActionModel::ToShell(seq![0x09u8])],
        )
    } else if b == 0x03 {
        if m.line.len() > 0 {
            (
                InputModel { line: Seq::empty(), ..m },
                seq![ActionModel::Erase(m.line.len()), ActionModel::ToShell(seq![0x03u8])],
            )
        } else {
            (m, seq![ActionModel::ToShell(seq![0x03u8])])
        }
    } else if b == 0x04 {
        if m.line.len() == 0 {
            (m, seq![ActionModel::ToShell(seq![0x04u8])])
        } else {
            (m, Seq::empty())
        }
    } else if b == 0x7f || b == 0x08 {
        if m.line.len() > 0 {
            (InputModel { line: m.line.drop_last(), ..m }, seq![ActionModel::Echo(erase_one())])
        } else {
            (m, Seq::empty())
        }
    } else if b == 0x0d || b == 0x0a {
        (
            InputModel { line: Seq::empty(), ..m },
            seq![ActionModel::Echo(seq![0x0du8, 0x0au8]), ActionModel::Submit(m.line)],
        )
    } else if is_printable(b) {
        (InputModel { line: m.line.push(b), ..m }, seq![ActionModel::Echo(seq![b])])
    } else {
        (m, seq![ActionModel::ToShell(seq![b])])
    }
}

/// The line editor: what was typed since the last line was handed over.
pub struct LineEditor {
    line_buf: Vec<u8>,
    esc_buf: Vec<u8>,
    in_esc: bool,
    in_paste: bool,
}

/// The interceptor run over the bytes `bytes`, one step after another:
/// the final state and all the actions, in order.
pub open spec fn run_spec(m: InputModel, bytes: Seq<u8>, passthrough: bool) -> (InputModel, Seq<ActionModel>)
    decreases bytes.len(),
{
    if bytes.len() == 0 {
        (m, Seq::empty())
    } else {
        let first = step_spec(m, bytes[0], passthrough);
        let rest = run_spec(first.0, bytes.drop_first(), passthrough);
        (rest.0, first.1 + rest.1)
    }
}

/// The echo of each byte of `s`, one action per byte.
pub open spec fn echoes(s: Seq<u8>) -> Seq<ActionModel>
    decreases s.len(),
{
    if s.len() == 0 {
        Seq::empty()
    } else {
        seq![ActionModel::Echo(seq![s[0]])] + echoes(s.drop_first())
    }
}

/// Running over `a + b` is running over `a`, then over `b`.
pub proof fn lemma_run_concat(m: InputModel, a: Seq<u8>, b: Seq<u8>, passthrough: bool)
    ensures
        run_spec(m, a + b, passthrough).0 == run_spec(run_spec(m, a, passthrough).0, b, passthrough).0,
        run_spec(m, a + b, passthrough).1 == run_spec(m, a, passthrough).1 + run_spec(
            run_spec(m, a, passthrough).0,
            b,
            passthrough,
        ).1,
    decreases a.len(),
{
    if a.len() == 0 {
        assert(a + b =~= b);
    } else {
        let first = step_spec(m, a[0], passthrough);
        assert((a + b).drop_first() =~= a.drop_first() + b);
        assert((a + b)[0] == a[0]);
        lemma_run_concat(first.0, a.drop_first(), b, passthrough);
        let r1 = run_spec(first.0, a.drop_first(), passthrough);
        let r2 = run_spec(r1.0, b, passthrough);
        assert(first.1 + (r1.1 + r2.1) =~= (first.1 + r1.1) + r2.1);
    }
}

/// Typing printable characters, with no escape sequence or paste under
/// way, appends them to the line and echoes each; nothing reaches the
/// shell.
pub proof fn lemma_typing(m: InputModel, s: Seq<u8>)
    requires
        !m.in_esc,
        !m.in_paste,
        forall|j: int| 0 <= j < s.len() ==> is_printable(#[trigger] s[j]),
    ensures
        run_spec(m, s, false) == (InputModel { line: m.line + s, ..m }, echoes(s)),
    decreases s.len(),
{
    if s.len() == 0 {
        assert(m.line + s =~= m.line);
    } else {
        let b = s[0];
        assert(is_printable(b));
        let m1 = InputModel { line: m.line.push(b), ..m };
        assert(step_spec(m, b, false) == (m1, seq![ActionModel::Echo(seq![b])]));
        let t = s.drop_first();
        assert forall|j: int| 0 <= j < t.len() implies is_printable(#[trigger] t[j]) by {
            assert(t[j] == s[j + 1]);
        }
        lemma_typing(m1, t);
        assert(m1.line + t =~= m.line + s);
    }
}

/// Law: a line typed from a fresh state and ended by Enter is handed over
/// exactly as typed, and the editor is fresh again. Before Enter, the
/// typed characters are only echoed, never sent to the shell.
pub proof fn law_typed_line_is_submitted(s: Seq<u8>)
    requires
        forall|j: int| 0 <= j < s.len() ==> is_printable(#[trigger] s[j]),
    ensures
        run_spec(fresh_input(), s, false).1 == echoes(s),
        run_spec(fresh_input(), s.push(0x0du8), false).0 == fresh_input(),
        run_spec(fresh_input(), s.push(0x0du8), false).1 == echoes(s) + seq![
            ActionModel::Echo(seq![0x0du8, 0x0au8]),
            ActionModel::Submit(s),
        ],
{
    let m = fresh_input();
    lemma_typing(m, s);
    assert(m.line + s =~= s);
    let typed = InputModel { line: s, ..m };
    assert(s.push(0x0du8) =~= s + seq![0x0du8]);
    lemma_run_concat(m, s, seq![0x0du8], false);
    let enter = step_spec(typed, 0x0du8, false);
    assert(enter.0 == fresh_input());
    let one = seq![0x0du8];
    assert(one[0] == 0x0du8);
    assert(one.drop_first() =~= Seq::<u8>::empty());
    assert(run_spec(enter.0, one.drop_first(), false) == (enter.0, Seq::<ActionModel>::empty()));
    assert(run_spec(typed, one, false) == (enter.0, enter.1 + Seq::<ActionModel>::empty()));
    assert(enter.1 + Seq::<ActionModel>::empty() =~= enter.1);
}

/// Law: every step keeps the input state well formed, and every line
/// handed over holds printable ASCII only.
pub proof fn law_step_keeps_wf(m: InputModel, b: u8, passthrough: bool)
    requires
        input_wf(m),
    ensures
        input_wf(step_spec(m, b, passthrough).0),
        forall|k: int|
            0 <= k < step_spec(m, b, passthrough).1.len() ==> (
            #[trigger] step_spec(m, b, passthrough).1[k] matches ActionModel::Submit(l) ==> forall|j: int|
                0 <= j < l.len() ==> is_printable(#[trigger] l[j])),
{
    let r = step_spec(m, b, passthrough);
    if !(passthrough || m.in_paste) && !m.in_esc && b != 0x1b && b != 0x09 && b != 0x03 && b
        != 0x04 && b != 0x7f && b != 0x08 && b != 0x0d && b != 0x0a && is_printable(b) {
        assert forall|j: int| 0 <= j < r.0.line.len() implies is_printable(#[trigger] r.0.line[j]) by {
            if j < m.line.len() {
                assert(r.0.line[j] == m.line[j]);
            }
        }
    }
    if !(passthrough || m.in_paste) && !m.in_esc && (b == 0x7f || b == 0x08) && m.line.len() > 0 {
        assert forall|j: int| 0 <= j < r.0.line.len() implies is_printable(#[trigger] r.0.line[j]) by {
            assert(r.0.line[j] == m.line[j]);
        }
    }
    if !(passthrough || m.in_paste) && m.in_esc {
        let e = m.esc.push(b);
        assert(e[0] == m.esc[0]);
    }
}

/// Law: once bracketed paste is on, every byte goes to the shell
/// unchanged, alone, and the editor is left as it was.
pub proof fn law_paste_forwards(m: InputModel, b: u8)
    requires
        m.in_paste,
    ensures
        step_spec(m, b, false) == (m, seq![ActionModel::ToShell(seq![b])]),
{
}

/// Law: with no escape sequence or paste under way, a byte from 0x20 to
/// 0x7e (printable ASCII) is added to the line and echoed, and nothing
/// else happens.
pub proof fn law_printable_byte_is_typed(m: InputModel, b: u8)
    requires
        !m.in_esc,
        !m.in_paste,
        0x20 <= b <= 0x7e,
    ensures
        step_spec(m, b, false) == (InputModel { line: m.line.push(b), ..m }, seq![
            ActionModel::Echo(seq![b]),
        ]),
{
}

/// Law: bytes from 0x20 to 0x7e typed from a fresh state are each echoed
/// and nothing reaches the shell; Enter then hands over exactly those
/// bytes as the line and leaves the editor fresh.
pub proof fn law_typed_bytes_are_submitted(s: Seq<u8>)
    requires
        forall|j: int| 0 <= j < s.len() ==> 0x20 <= #[trigger] s[j] <= 0x7e,
    ensures
        run_spec(fresh_input(), s, false).1 == echoes(s),
        run_spec(fresh_input(), s.push(0x0du8), false).0 == fresh_input(),
        run_spec(fresh_input(), s.push(0x0du8), false).1 == echoes(s) + seq![
            ActionModel::Echo(seq![0x0du8, 0x0au8]),
            ActionModel::Submit(s),
        ],
{
    assert forall|j: int| 0 <= j < s.len() implies is_printable(#[trigger] s[j]) by {
        assert(0x20 <= s[j] <= 0x7e);
    }
    law_typed_line_is_submitted(s);
}

/// Law: what the editing keys do, with no escape sequence or paste under
/// way: Enter (CR or LF) echoes CR LF and hands over the line; Tab sends
/// the line and then the Tab to the shell; Ctrl+D goes to the shell only
/// on an empty line; Backspace (DEL or BS) removes the last character and
/// rubs it out on the screen; ESC starts an escape sequence; any other
/// byte below 0x20 or above 0x7f goes to the shell as it is.
pub proof fn law_editing_keys(m: InputModel, b: u8)
    requires
        !m.in_esc,
        !m.in_paste,
    ensures
        b == 0x0d || b == 0x0a ==> step_spec(m, b, false) == (InputModel { line: Seq::empty(), ..m }, seq![
            ActionModel::Echo(seq![0x0du8, 0x0au8]),
            ActionModel::Submit(m.line),
        ]),
        b == 0x09 ==> step_spec(m, b, false) == (InputModel { line: Seq::empty(), ..m }, seq![
            ActionModel::ToShell(m.line),
            ActionModel::ToShell(seq![0x09u8]),
        ]),
        b == 0x04 && m.line.len() == 0 ==> step_spec(m, b, false) == (m, seq![
            ActionModel::ToShell(seq![0x04u8]),
        ]),
        b == 0x04 && m.line.len() > 0 ==> step_spec(m, b, false) == (m, Seq::<ActionModel>::empty()),
        (b == 0x7f || b == 0x08) && m.line.len() > 0 ==> step_spec(m, b, false) == (
        InputModel { line: m.line.take(m.line.len() - 1), ..m },
        seq![ActionModel::Echo(seq![0x08u8, 0x20u8, 0x08u8])],
        ),
        b == 0x1b ==> step_spec(m, b, false) == (
        InputModel { esc: seq![0x1bu8], in_esc: true, ..m },
        Seq::<ActionModel>::empty(),
        ),
        (b < 0x20 || b > 0x7f) && b != 0x0d && b != 0x0a && b != 0x09 && b != 0x03 && b != 0x04
            && b != 0x08 && b != 0x1b ==> step_spec(m, b, false) == (m, seq![
            ActionModel::ToShell(seq![b]),
        ]),
{
    if (b == 0x7f || b == 0x08) && m.line.len() > 0 {
        assert(m.line.drop_last() =~= m.line.take(m.line.len() - 1));
    }
}

/// Law: Ctrl+C (0x03), with no escape sequence or paste under way, throws
/// the typed line away (rubbing it out when there is one) and sends Ctrl+C
/// to the shell.
pub proof fn law_ctrl_c(m: InputModel)
    requires
        !m.in_esc,
        !m.in_paste,
    ensures
        m.line.len() > 0 ==> step_spec(m, 0x03, false) == (InputModel { line: Seq::empty(), ..m }, seq![
            ActionModel::Erase(m.line.len()),
            ActionModel::ToShell(seq![0x03u8]),
        ]),
        m.line.len() == 0 ==> step_spec(m, 0x03, false) == (m, seq![ActionModel::ToShell(seq![0x03u8])]),
{
}

/// Law: inside an escape sequence (no paste under way), the bytes are
/// collected; the sequence `ESC [ ? 2 0 0 4 h` turns bracketed paste on and
/// is sent to the shell; otherwise an ASCII letter or `~` after at least
/// one byte ends the sequence: the typed line, then the sequence, go to
/// the shell and the line is emptied; any other byte is kept, and nothing
/// is sent.
pub proof fn law_escape_sequences(m: InputModel, b: u8)
    requires
        m.in_esc,
        !m.in_paste,
    ensures
        m.esc.push(b) == seq![0x1bu8, 0x5bu8, 0x3fu8, 0x32u8, 0x30u8, 0x30u8, 0x34u8, 0x68u8]
            ==> step_spec(m, b, false) == (
        InputModel { esc: Seq::empty(), in_esc: false, in_paste: true, ..m },
        seq![ActionModel::ToShell(m.esc.push(b))],
        ),
        m.esc.push(b) != seq![0x1bu8, 0x5bu8, 0x3fu8, 0x32u8, 0x30u8, 0x30u8, 0x34u8, 0x68u8]
            && m.esc.push(b) != seq![0x1bu8, 0x5bu8, 0x3fu8, 0x32u8, 0x30u8, 0x30u8, 0x34u8, 0x6cu8]
            && m.esc.len() >= 1 && (0x41 <= b <= 0x5a || 0x61 <= b <= 0x7a || b == 0x7e)
            ==> step_spec(m, b, false) == (
        InputModel { line: Seq::empty(), esc: Seq::empty(), in_esc: false, ..m },
        seq![ActionModel::ToShell(m.line), ActionModel::ToShell(m.esc.push(b))],
        ),
        m.esc.push(b) != seq![0x1bu8, 0x5bu8, 0x3fu8, 0x32u8, 0x30u8, 0x30u8, 0x34u8, 0x68u8]
            && m.esc.push(b) != seq![0x1bu8, 0x5bu8, 0x3fu8, 0x32u8, 0x30u8, 0x30u8, 0x34u8, 0x6cu8]
            && !(0x41 <= b <= 0x5a || 0x61 <= b <= 0x7a || b == 0x7e) ==> step_spec(m, b, false) == (
        InputModel { esc: m.esc.push(b), ..m },
        Seq::<ActionModel>::empty(),
        ),
{
    assert(paste_on() =~= seq![0x1bu8, 0x5bu8, 0x3fu8, 0x32u8, 0x30u8, 0x30u8, 0x34u8, 0x68u8]);
    assert(paste_off() =~= seq![0x1bu8, 0x5bu8, 0x3fu8, 0x32u8, 0x30u8, 0x30u8, 0x34u8, 0x6cu8]);
}

/// Law: the bytes that send a typed line to the shell are its UTF-8
/// encoding and a newline (0x0a), never with a leading blank; a generated
/// command gets one blank (0x20) before it exactly when history is to be
/// kept clean and the command holds a character that is not whitespace.
pub proof fn law_shell_bytes(no_hist: bool, line: Seq<char>)
    ensures
        shell_bytes_spec(line) == vstd::utf8::encode_utf8(line) + seq![0x0au8],
        generated_bytes_spec(no_hist, line) == (if no_hist && exists|i: int|
            0 <= i < line.len() && !is_ws(#[trigger] line[i]) {
            seq![0x20u8] + vstd::utf8::encode_utf8(line) + seq![0x0au8]
        } else {
            vstd::utf8::encode_utf8(line) + seq![0x0au8]
        }),
{
    lemma_trim_empty_iff(line);
    assert(seq![0x20u8] + (vstd::utf8::encode_utf8(line) + seq![0x0au8]) =~= seq![0x20u8]
        + vstd::utf8::encode_utf8(line) + seq![0x0au8]);
    assert(Seq::<u8>::empty() + (vstd::utf8::encode_utf8(line) + seq![0x0au8]) =~= vstd::utf8::encode_utf8(line) + seq![0x0au8]);
}

/// Law: a full-screen program is taken to run once the shell writes
/// `ESC [ ? 1 0 4 9 h` (taking the alternate screen), and to stop once it
/// writes `ESC [ ? 1 0 4 9 l`, which wins when both come in one chunk; a
/// chunk with neither changes nothing.
pub proof fn law_alt_screen(chunk: Seq<u8>, active: bool)
    ensures
        contains_seq(chunk, seq![0x1bu8, 0x5bu8, 0x3fu8, 0x31u8, 0x30u8, 0x34u8, 0x39u8, 0x6cu8])
            ==> !passthrough_after_spec(chunk, active),
        !contains_seq(chunk, seq![0x1bu8, 0x5bu8, 0x3fu8, 0x31u8, 0x30u8, 0x34u8, 0x39u8, 0x6cu8])
            && contains_seq(chunk, seq![0x1bu8, 0x5bu8, 0x3fu8, 0x31u8, 0x30u8, 0x34u8, 0x39u8, 0x68u8])
            ==> passthrough_after_spec(chunk, active),
        !contains_seq(chunk, seq![0x1bu8, 0x5bu8, 0x3fu8, 0x31u8, 0x30u8, 0x34u8, 0x39u8, 0x6cu8])
            && !contains_seq(chunk, seq![0x1bu8, 0x5bu8, 0x3fu8, 0x31u8, 0x30u8, 0x34u8, 0x39u8, 0x68u8])
            ==> passthrough_after_spec(chunk, active) == active,
{
    assert(alt_screen_on() =~= seq![0x1bu8, 0x5bu8, 0x3fu8, 0x31u8, 0x30u8, 0x34u8, 0x39u8, 0x68u8]);
    assert(alt_screen_off() =~= seq![0x1bu8, 0x5bu8, 0x3fu8, 0x31u8, 0x30u8, 0x34u8, 0x39u8, 0x6cu8]);
}

/// Law: what follows the model's answer to the request `line`. An
/// unavailable model sends the typed line to the shell as its UTF-8 bytes
/// and a newline; another error is reported with its message; an answer
/// that cleans to no command is reported as untranslatable; a command is
/// shown in a dry run, else confirmed with the warning set exactly when
/// its lowercase form holds a destructive pattern.
pub proof fn law_after_generation(dry_run: bool, line: Seq<char>, raw: Seq<char>, msg: Seq<char>)
    ensures
        after_generation_spec(dry_run, line, Err(LlmErrorModel::Unavailable))
            == NlActionModel::ToShell(vstd::utf8::encode_utf8(line) + seq![0x0au8]),
        after_generation_spec(dry_run, line, Err(LlmErrorModel::Other(msg)))
            == NlActionModel::Report(msg),
        clean_spec(raw) is None ==> after_generation_spec(dry_run, line, Ok(raw))
            == NlActionModel::Untranslatable,
        clean_spec(raw) matches Some(cmd) ==> after_generation_spec(dry_run, line, Ok(raw)) == (
        if dry_run {
            NlActionModel::DryRun(cmd)
        } else {
            NlActionModel::Confirm { cmd, destructive: has_destructive_pattern(lowercase_text(cmd)) }
        }),
{
}

/// Law: the freshly started editor is well formed.
pub proof fn law_fresh_wf()
    ensures
        input_wf(fresh_input()),
{
}

/// Law: while a full-screen program runs, every byte goes to the shell
/// unchanged, alone, and the line editor is left as it was.
pub proof fn law_passthrough_forwards(m: InputModel, b: u8)
    ensures
        step_spec(m, b, true) == (m, seq![ActionModel::ToShell(seq![b])]),
{
}

/// Law: backspace undoes a typed character: typing a printable character
/// and then erasing it leaves the editor as it was.
pub proof fn law_backspace_undoes_typing(m: InputModel, c: u8, bs: u8)
    requires
        !m.in_esc,
        !m.in_paste,
        is_printable(c),
        bs == 0x7f || bs == 0x08,
    ensures
        step_spec(step_spec(m, c, false).0, bs, false).0 == m,
        step_spec(step_spec(m, c, false).0, bs, false).1 == seq![ActionModel::Echo(erase_one())],
{
    let m1 = step_spec(m, c, false).0;
    assert(m1.line.drop_last() =~= m.line);
}

/// Law: Ctrl+C throws the typed line away and sends Ctrl+C to the shell.
pub proof fn law_interrupt_discards_line(m: InputModel)
    requires
        !m.in_esc,
        !m.in_paste,
    ensures
        step_spec(m, 0x03, false).0.line.len() == 0,
        step_spec(m, 0x03, false).1.last() == ActionModel::ToShell(seq![0x03u8]),
{
}

/// The bytes that erase `char_count` echoed characters from the host
/// terminal: back, blank, back, once per character.
pub fn erase_line(char_count: usize) -> (r: Vec<u8>)
    ensures
        r@ == erase_seq(char_count as nat),
{
    let mut r: Vec<u8> = Vec::new();
    let mut i: usize = 0;
    while i < char_count
        invariant
            i <= char_count,
            r@ == erase_seq(i as nat),
        decreases char_count - i,
    {
        r.push(0x08);
        r.push(0x20);
        r.push(0x08);
        i = i + 1;
        assert(r@ =~= erase_seq(i as nat));
    }
    r
}

/// The bytes that send `line` to the shell: the line and a newline.
pub open spec fn shell_bytes_spec(line: Seq<char>) -> Seq<u8> {
    vstd::utf8::encode_utf8(line) + seq![0x0au8]
}

/// The bytes that send the generated command `cmd` to the shell: as for a
/// typed line, after a blank when history is to be kept clean and the
/// command is not blank (a shell that ignores commands starting with a
/// space keeps it out of its history).
pub open spec fn generated_bytes_spec(no_hist: bool, cmd: Seq<char>) -> Seq<u8> {
    (if no_hist && trim(cmd).len() > 0 {
        seq![0x20u8]
    } else {
        Seq::empty()
    }) + shell_bytes_spec(cmd)
}

/// Where a finished line goes: to the shell when routing to the model is
/// off, else where `classify` sends it.
pub open spec fn route_spec(nl_disabled: bool, line: Seq<char>, word_is_command: bool) -> LineKind {
    if nl_disabled {
        LineKind::Shell
    } else {
        classify_spec(line, word_is_command)
    }
}

/// What to do once the model answered a request.
pub enum NlAction {
    /// Show the command without running it (dry run).
    DryRun(String),
    /// Ask for confirmation of the command; `destructive` adds a warning.
    Confirm { cmd: String, destructive: bool },
    /// Tell the user the request could not be translated.
    Untranslatable,
    /// The model is unavailable: warn, and send the line to the shell as
    /// these bytes.
    ToShell(Vec<u8>),
    /// Report the model's error message.
    Report(String),
}

/// The mathematical form of an `NlAction`.
pub enum NlActionModel {
    DryRun(Seq<char>),
    Confirm { cmd: Seq<char>, destructive: bool },
    Untranslatable,
    ToShell(Seq<u8>),
    Report(Seq<char>),
}

impl View for NlAction {
    type V = NlActionModel;

    open spec fn view(&self) -> NlActionModel {
        match self {
            NlAction::DryRun(c) => NlActionModel::DryRun(c@),
            NlAction::Confirm { cmd, destructive } => NlActionModel::Confirm {
                cmd: cmd@,
                destructive: *destructive,
            },
            NlAction::Untranslatable => NlActionModel::Untranslatable,
            NlAction::ToShell(b) => NlActionModel::ToShell(b@),
            NlAction::Report(m) => NlActionModel::Report(m@),
        }
    }
}

/// What to do with the model's answer `answer` to the request `line`:
/// the cleaned command is shown (dry run) or confirmed, with a warning when
/// destructive; no command means the request could not be translated; an
/// unavailable model sends the line to the shell instead; other errors are
/// reported.
pub open spec fn after_generation_spec(
    dry_run: bool,
    line: Seq<char>,
    answer: Result<Seq<char>, LlmErrorModel>,
) -> NlActionModel {
    match answer {
        Ok(raw) => match clean_spec(raw) {
            Some(cmd) => if dry_run {
                NlActionModel::DryRun(cmd)
            } else {
                NlActionModel::Confirm {
                    cmd,
                    destructive: has_destructive_pattern(lowercase_text(cmd)),
                }
            },
            None => NlActionModel::Untranslatable,
        },
        Err(LlmErrorModel::Unavailable) => NlActionModel::ToShell(shell_bytes_spec(line)),
        Err(LlmErrorModel::Other(m)) => NlActionModel::Report(m),
    }
}

/// The sequence a full-screen program writes when it takes the screen.
pub open spec fn alt_screen_on() -> Seq<u8> {
    seq![0x1bu8, 0x5bu8, 0x3fu8, 0x31u8, 0x30u8, 0x34u8, 0x39u8, 0x68u8]
}

/// The sequence a full-screen program writes when it gives the screen back.
pub open spec fn alt_screen_off() -> Seq<u8> {
    seq![0x1bu8, 0x5bu8, 0x3fu8, 0x31u8, 0x30u8, 0x34u8, 0x39u8, 0x6cu8]
}

/// Whether a full-screen program runs after the shell wrote `chunk`, when
/// `active` said so before: giving the screen back wins over taking it in
/// the same chunk.
pub open spec fn passthrough_after_spec(chunk: Seq<u8>, active: bool) -> bool {
    if contains_seq(chunk, alt_screen_off()) {
        false
    } else if contains_seq(chunk, alt_screen_on()) {
        true
    } else {
        active
    }
}

/// Whether keystrokes must pass straight through after the shell wrote
/// `chunk` to the terminal: on while a full-screen program (an editor, a
/// pager) holds the alternate screen.
pub fn passthrough_after(chunk: &[u8], active: bool) -> (r: bool)
    ensures
        r == passthrough_after_spec(chunk@, active),
{
    let on: [u8; 8] = [0x1b, 0x5b, 0x3f, 0x31, 0x30, 0x34, 0x39, 0x68];
    let off: [u8; 8] = [0x1b, 0x5b, 0x3f, 0x31, 0x30, 0x34, 0x39, 0x6c];
    assert(on@ =~= alt_screen_on());
    assert(off@ =~= alt_screen_off());
    if contains_bytes(chunk, &off) {
        false
    } else if contains_bytes(chunk, &on) {
        true
    } else {
        active
    }
}

/// The interceptor of the keystrokes sent to the child shell.
pub struct InterceptLoop {
    /// Natural-language routing is off (the model was unavailable).
    pub nl_disabled: bool,
    /// Show generated commands without running them.
    pub dry_run: bool,
    /// Prefix generated commands with a space so the shell keeps them out
    /// of its history.
    pub no_hist: bool,
    /// The line being typed.
    pub editor: LineEditor,
}

/// The bytes of an optional byte vector.
pub open spec fn opt_bytes(v: Option<Vec<u8>>) -> Option<Seq<u8>> {
    match v {
        Some(b) => Some(b@),
        None => None,
    }
}

/// The bytes of `line` and a newline, after a blank when `blank` is set.
fn line_bytes(blank: bool, line: &str) -> (r: Vec<u8>)
    ensures
        r@ == (if blank {
            seq![0x20u8]
        } else {
            Seq::empty()
        }) + shell_bytes_spec(line@),
{
    let mut out: Vec<u8> = Vec::new();
    if blank {
        out.push(0x20);
    }
    let ghost before = out@;
    let bytes = line.as_bytes();
    let mut i: usize = 0;
    while i < bytes.len()
        invariant
            bytes@ == vstd::utf8::encode_utf8(line@),
            i <= bytes@.len(),
            out@ == before + bytes@.take(i as int),
        decreases bytes@.len() - i,
    {
        out.push(bytes[i]);
        i = i + 1;
        assert(out@ =~= before + bytes@.take(i as int));
    }
    assert(bytes@.take(bytes@.len() as int) =~= bytes@);
    out.push(0x0a);
    assert(out@ =~= before + shell_bytes_spec(line@));
    out
}

/// Whether `a` holds exactly the bytes `b`.
fn same_bytes(a: &Vec<u8>, b: &[u8]) -> (r: bool)
    ensures
        r == (a@ == b@),
{
    if a.len() != b.len() {
        return false;
    }
    let mut i: usize = 0;
    while i < a.len()
        invariant
            a@.len() == b@.len(),
            0 <= i <= a@.len(),
            forall|j: int| 0 <= j < i ==> a@[j] == b@[j],
        decreases a@.len() - i,
    {
        if a[i] != b[i] {
            return false;
        }
        i = i + 1;
    }
    assert(a@ =~= b@);
    true
}

/// A vector holding the one byte `b`.
fn one_byte(b: u8) -> (r: Vec<u8>)
    ensures
        r@ == seq![b],
{
    let mut v = Vec::new();
    v.push(b);
    assert(v@ =~= seq![b]);
    v
}

impl LineEditor {
    /// The state of the line editor.
    pub closed spec fn input(&self) -> InputModel {
        InputModel {
            line: self.line_buf@,
            esc: self.esc_buf@,
            in_esc: self.in_esc,
            in_paste: self.in_paste,
        }
    }

    /// An editor with nothing typed.
    pub fn new() -> (r: LineEditor)
        ensures
            r.input() == fresh_input(),
    {
        LineEditor { line_buf: Vec::new(), esc_buf: Vec::new(), in_esc: false, in_paste: false }
    }

    /// Takes the line typed so far, leaving it empty.
    fn take_line(&mut self) -> (r: Vec<u8>)
        ensures
            r@ == old(self).line_buf@,
            final(self).line_buf@ == Seq::<u8>::empty(),
            final(self).esc_buf == old(self).esc_buf,
            final(self).in_esc == old(self).in_esc,
            final(self).in_paste == old(self).in_paste,
    {
        let mut taken: Vec<u8> = Vec::new();
        std::mem::swap(&mut taken, &mut self.line_buf);
        taken
    }

    /// Feeds one byte read from the host terminal; returns what to do.
    /// `passthrough` is set while a full-screen program runs in the shell.
    pub fn step(&mut self, byte: u8, passthrough: bool) -> (acts: Vec<Action>)
        ensures
            final(self).input() == step_spec(old(self).input(), byte, passthrough).0,
            actions_view(acts@) == step_spec(old(self).input(), byte, passthrough).1,
    {
        let ghost m = self.input();
        let mut acts: Vec<Action> = Vec::new();
        if passthrough || self.in_paste {
            acts.push(Action::ToShell(one_byte(byte)));
        } else if self.in_esc {
            self.esc_buf.push(byte);
            let on: [u8; 8] = [0x1b, 0x5b, 0x3f, 0x32, 0x30, 0x30, 0x34, 0x68];
            let off: [u8; 8] = [0x1b, 0x5b, 0x3f, 0x32, 0x30, 0x30, 0x34, 0x6c];
            assert(on@ =~= paste_on());
            assert(off@ =~= paste_off());
            if same_bytes(&self.esc_buf, &on) {
                let mut e: Vec<u8> = Vec::new();
                std::mem::swap(&mut e, &mut self.esc_buf);
                self.in_paste = true;
                self.in_esc = false;
                acts.push(Action::ToShell(e));
            } else if same_bytes(&self.esc_buf, &off) {
                let mut e: Vec<u8> = Vec::new();
                std::mem::swap(&mut e, &mut self.esc_buf);
                self.in_paste = false;
                self.in_esc = false;
                acts.push(Action::ToShell(e));
            } else if self.esc_buf.len() > 1 && ((0x41 <= byte && byte <= 0x5a) || (0x61 <= byte
                && byte <= 0x7a) || byte == 0x7e) {
                let line = self.take_line();
                let mut e: Vec<u8> = Vec::new();
                std::mem::swap(&mut e, &mut self.esc_buf);
                self.in_esc = false;
                acts.push(Action::ToShell(line));
                acts.push(Action::ToShell(e));
            }
        } else if byte == 0x1b {
            self.in_esc = true;
            self.esc_buf.clear();
            self.esc_buf.push(byte);
            assert(self.esc_buf@ =~= seq![0x1bu8]);
        } else if byte == 0x09 {
            let line = self.take_line();
            acts.push(Action::ToShell(line));
            acts.push(Action::ToShell(one_byte(0x09)));
        } else if byte == 0x03 {
            if self.line_buf.len() > 0 {
                let n = self.line_buf.len();
                self.line_buf.clear();
                acts.push(Action::Erase(n));
            }
            acts.push(Action::ToShell(one_byte(0x03)));
        } else if byte == 0x04 {
            if self.line_buf.len() == 0 {
                acts.push(Action::ToShell(one_byte(0x04)));
            }
        } else if byte == 0x7f || byte == 0x08 {
            if self.line_buf.len() > 0 {
                self.line_buf.pop();
                let mut e: Vec<u8> = Vec::new();
                e.push(0x08);
                e.push(0x20);
                e.push(0x08);
                assert(e@ =~= erase_one());
                acts.push(Action::Echo(e));
            }
        } else if byte == 0x0d || byte == 0x0a {
            let line = self.take_line();
            let mut e: Vec<u8> = Vec::new();
            e.push(0x0d);
            e.push(0x0a);
            assert(e@ =~= seq![0x0du8, 0x0au8]);
            acts.push(Action::Echo(e));
            acts.push(Action::Submit(line));
        } else if 0x20 <= byte && byte <= 0x7e {
            self.line_buf.push(byte);
            acts.push(Action::Echo(one_byte(byte)));
        } else {
            acts.push(Action::ToShell(one_byte(byte)));
        }
        proof {
            let want = step_spec(m, byte, passthrough);
            assert(self.input() == want.0);
            assert(actions_view(acts@) =~= want.1);
        }
        acts
    }
}

impl InterceptLoop {
    /// An interceptor with the given options and nothing typed yet.
    pub fn new(nl_disabled: bool, dry_run: bool, no_hist: bool) -> (r: InterceptLoop)
        ensures
            r.nl_disabled == nl_disabled,
            r.dry_run == dry_run,
            r.no_hist == no_hist,
            r.editor.input() == fresh_input(),
    {
        InterceptLoop { nl_disabled, dry_run, no_hist, editor: LineEditor::new() }
    }

    /// Feeds one byte read from the host terminal; returns what to do.
    /// `passthrough` is set while a full-screen program runs in the shell.
    pub fn step(&mut self, byte: u8, passthrough: bool) -> (acts: Vec<Action>)
        ensures
            final(self).editor.input() == step_spec(old(self).editor.input(), byte, passthrough).0,
            actions_view(acts@) == step_spec(old(self).editor.input(), byte, passthrough).1,
            final(self).nl_disabled == old(self).nl_disabled,
            final(self).dry_run == old(self).dry_run,
            final(self).no_hist == old(self).no_hist,
    {
        self.editor.step(byte, passthrough)
    }

    /// Where the finished line `line` goes, given whether its first word
    /// is a known command (see `classify`; the answer is not used when
    /// routing to the model is off).
    pub fn handle_line(&self, line: &str, word_is_command: bool) -> (r: LineKind)
        ensures
            r == route_spec(self.nl_disabled, line@, word_is_command),
    {
        if self.nl_disabled {
            return LineKind::Shell;
        }
        classify(line, word_is_command)
    }

    /// The bytes that send the typed line `line` to the shell.
    pub fn send_to_shell(&self, line: &str) -> (r: Vec<u8>)
        ensures
            r@ == shell_bytes_spec(line@),
    {
        line_bytes(false, line)
    }

    /// The bytes that send the generated command `cmd`, once confirmed, to
    /// the shell.
    pub fn send_generated(&self, cmd: &str) -> (r: Vec<u8>)
        ensures
            r@ == generated_bytes_spec(self.no_hist, cmd@),
    {
        line_bytes(self.no_hist && !trimmed(cmd).as_str().is_empty(), cmd)
    }

    /// What the outcome of a confirmation sends to the shell: the
    /// confirmed command, or nothing when cancelled.
    pub fn after_confirm(&self, result: ConfirmResult) -> (r: Option<Vec<u8>>)
        ensures
            opt_bytes(r) == (match result {
                ConfirmResult::Execute(cmd) => Some(generated_bytes_spec(self.no_hist, cmd@)),
                ConfirmResult::Cancel => None::<Seq<u8>>,
            }),
    {
        match result {
            ConfirmResult::Execute(cmd) => Some(self.send_generated(cmd.as_str())),
            ConfirmResult::Cancel => None,
        }
    }

    /// What to do with the model's answer `answer` to the request `line`.
    pub fn after_generation(&self, line: &str, answer: Result<String, LlmError>) -> (r: NlAction)
        ensures
            r@ == after_generation_spec(
                self.dry_run,
                line@,
                crate::llm::answer_view(answer),
            ),
    {
        match answer {
            Ok(raw) => match clean_llm_output(raw.as_str()) {
                Some(cmd) => {
                    if self.dry_run {
                        NlAction::DryRun(cmd)
                    } else {
                        let destructive = is_destructive(cmd.as_str());
                        NlAction::Confirm { cmd, destructive }
                    }
                },
                None => NlAction::Untranslatable,
            },
            Err(LlmError::Unavailable) => NlAction::ToShell(self.send_to_shell(line)),
            Err(LlmError::Other(m)) => NlAction::Report(m),
        }
    }
}

} // verus!
