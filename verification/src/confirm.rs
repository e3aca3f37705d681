//! The confirmation of a generated command: the prompt shown, and what a
//! key press decides.
use vstd::prelude::*;
use crate::text::{is_ws, lemma_trim_empty_iff, opt_view, trim, trimmed};

verus! {

/// The outcome of a confirmation.
pub enum ConfirmResult {
    /// Run this command.
    Execute(String),
    /// Run nothing.
    Cancel,
}

/// What a key pressed at the confirmation prompt asks for.
#[derive(Debug, Clone, Copy, PartialEq, Eq, Structural)]
pub enum KeyChoice {
    /// Enter or `y`: run the command.
    Run,
    /// `e`: edit the command first.
    Edit,
    /// Any other key: cancel.
    Cancel,
}

/// What the key `key` asks for: Enter (CR or LF) or `y` runs, `e` or `E`
/// edits, anything else (`n`, Escape) cancels.
pub open spec fn key_choice_spec(key: u8) -> KeyChoice {
    if key == 0x0d || key == 0x0a || key == 0x79 {
        KeyChoice::Run
    } else if key == 0x65 || key == 0x45 {
        KeyChoice::Edit
    } else {
        KeyChoice::Cancel
    }
}

/// What the key `key` pressed at the confirmation prompt asks for.
pub fn key_choice(key: u8) -> (r: KeyChoice)
    ensures
        r == key_choice_spec(key),
{
    if key == 0x0d || key == 0x0a || key == 0x79 {
        KeyChoice::Run
    } else if key == 0x65 || key == 0x45 {
        KeyChoice::Edit
    } else {
        KeyChoice::Cancel
    }
}

/// The confirmation prompt for `cmd`: the line is cleared, a warning
/// stands before a destructive command, and the keys are listed.
pub open spec fn prompt_text_spec(cmd: Seq<char>, destructive: bool) -> Seq<char> {
    (if destructive {
        "\r\x1b[2K  \x1b[1;31m⚠ DESTRUCTIVE:\x1b[0m "@
    } else {
        "\r\x1b[2K  \x1b[1;32m❯\x1b[0m "@
    }) + cmd + "  \x1b[2m[enter=run  e=edit  n=cancel]\x1b[0m"@
}

/// The confirmation prompt shown for `cmd`.
pub fn prompt_text(cmd: &str, destructive: bool) -> (r: String)
    ensures
        r@ == prompt_text_spec(cmd@, destructive),
{
    let mut s = if destructive {
        String::from_str("\r\x1b[2K  \x1b[1;31m⚠ DESTRUCTIVE:\x1b[0m ")
    } else {
        String::from_str("\r\x1b[2K  \x1b[1;32m❯\x1b[0m ")
    };
    s.append(cmd);
    s.append("  \x1b[2m[enter=run  e=edit  n=cancel]\x1b[0m");
    s
}

/// The command after editing, from the text the editor left: trimmed;
/// nothing (the confirmation is cancelled) when that is empty.
pub open spec fn edited_command_spec(content: Seq<char>) -> Option<Seq<char>> {
    if trim(content).len() == 0 {
        None
    } else {
        Some(trim(content))
    }
}

/// The command after editing, from the text the editor left; `None` when
/// nothing is left of it.
pub fn edited_command(content: &str) -> (r: Option<String>)
    ensures
        opt_view(r) == edited_command_spec(content@),
{
    let t = trimmed(content);
    if t.as_str().is_empty() {
        None
    } else {
        Some(t)
    }
}

/// Law: the keys at the confirmation prompt: Enter (CR or LF) and `y` run
/// the command; `e` and `E` edit it; every other byte cancels.
pub proof fn law_confirm_keys(key: u8)
    ensures
        key == 0x0d || key == 0x0a || key == 0x79 ==> key_choice_spec(key) == KeyChoice::Run,
        key == 0x65 || key == 0x45 ==> key_choice_spec(key) == KeyChoice::Edit,
        key != 0x0d && key != 0x0a && key != 0x79 && key != 0x65 && key != 0x45 ==> key_choice_spec(key)
            == KeyChoice::Cancel,
{
}

/// Law: an edited command is the edited text trimmed, and the
/// confirmation is cancelled exactly when the text is all whitespace (or
/// empty).
pub proof fn law_edited_command(content: Seq<char>)
    ensures
        edited_command_spec(content) is None == (forall|i: int|
            0 <= i < content.len() ==> is_ws(#[trigger] content[i])),
        edited_command_spec(content) matches Some(c) ==> c == trim(content),
{
    lemma_trim_empty_iff(content);
}

/// Law: the prompt shows the command between a lead and the list of keys
/// that do not depend on it; the lead is a red `⚠ DESTRUCTIVE:` warning
/// exactly when the command is destructive, else a green `❯`.
pub proof fn law_prompt_text(cmd: Seq<char>, destructive: bool)
    ensures
        prompt_text_spec(cmd, destructive) == (if destructive {
            "\r\x1b[2K  \x1b[1;31m⚠ DESTRUCTIVE:\x1b[0m "@
        } else {
            "\r\x1b[2K  \x1b[1;32m❯\x1b[0m "@
        }) + cmd + "  \x1b[2m[enter=run  e=edit  n=cancel]\x1b[0m"@,
        prompt_text_spec(cmd, destructive) == prompt_text_spec(Seq::empty(), destructive).take(
            prompt_text_spec(Seq::empty(), destructive).len() - 39,
        ) + cmd + "  \x1b[2m[enter=run  e=edit  n=cancel]\x1b[0m"@,
{
    reveal_strlit("  \x1b[2m[enter=run  e=edit  n=cancel]\x1b[0m");
    let lead = if destructive {
        "\r\x1b[2K  \x1b[1;31m⚠ DESTRUCTIVE:\x1b[0m "@
    } else {
        "\r\x1b[2K  \x1b[1;32m❯\x1b[0m "@
    };
    let tail = "  \x1b[2m[enter=run  e=edit  n=cancel]\x1b[0m"@;
    assert(tail.len() == 39);
    assert((lead + Seq::<char>::empty() + tail).take(lead.len() as int) =~= lead);
}

} // verus!
