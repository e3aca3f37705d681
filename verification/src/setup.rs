//! The first-run setup: the choice of backend and model, and the steps
//! that make the chosen backend ready.
//!
//! The screens and the installation are run by the program around this
//! crate. Here stand the decisions: what a key press means, how the menus
//! move, and which step comes next (`run_setup`).
use vstd::prelude::*;
use crate::config::{Backend, NlshConfig, default_config};
use crate::text::{
    char_index, chars_of, find_char, has_char, lemma_char_index, lemma_char_index_is, trim, trim_bounds,
};

verus! {

/// One logical key press.
#[derive(Debug, Clone, Copy, PartialEq, Eq, Structural)]
pub enum Key {
    /// A printable character; `q` also stands for `Q` and Ctrl+C.
    Char(char),
    Enter,
    Escape,
    Up,
    Down,
}

/// The key that the byte `first` starts, given the bytes `follow` that
/// could be read at once after an ESC: an arrow is ESC `[` `A` or `B`.
pub open spec fn decode_key_spec(first: u8, follow: Seq<u8>) -> Option<Key> {
    if first == 0x0d || first == 0x0a {
        Some(Key::Enter)
    } else if first == 0x1b {
        if follow.len() == 2 && follow[0] == 0x5b {
            if follow[1] == 0x41 {
                Some(Key::Up)
            } else if follow[1] == 0x42 {
                Some(Key::Down)
            } else {
                Some(Key::Escape)
            }
        } else {
            Some(Key::Escape)
        }
    } else if first == 0x03 || first == 0x71 || first == 0x51 {
        Some(Key::Char('q'))
    } else if 0x21 <= first <= 0x7e {
        Some(Key::Char(first as char))
    } else {
        None
    }
}

/// The key that the byte `first` starts; `follow` holds what could be
/// read at once after it when it is ESC (nothing otherwise).
pub fn decode_key(first: u8, follow: &[u8]) -> (r: Option<Key>)
    ensures
        r == decode_key_spec(first, follow@),
{
    if first == 0x0d || first == 0x0a {
        Some(Key::Enter)
    } else if first == 0x1b {
        if follow.len() == 2 && follow[0] == 0x5b {
            if follow[1] == 0x41 {
                Some(Key::Up)
            } else if follow[1] == 0x42 {
                Some(Key::Down)
            } else {
                Some(Key::Escape)
            }
        } else {
            Some(Key::Escape)
        }
    } else if first == 0x03 || first == 0x71 || first == 0x51 {
        Some(Key::Char('q'))
    } else if 0x21 <= first && first <= 0x7e {
        Some(Key::Char(first as char))
    } else {
        None
    }
}

/// Where a menu goes after a key press.
#[derive(Debug, Clone, Copy, PartialEq, Eq, Structural)]
pub enum MenuStep<T> {
    /// Stay in the menu with this entry selected.
    Select(usize),
    /// The user chose.
    Done(T),
    /// The user went back to the screen before.
    Back,
    /// The user quit.
    Cancel,
}

/// The backend of a menu entry: the first is Apple Intelligence.
pub open spec fn backend_at(sel: usize) -> Backend {
    if sel == 0 {
        Backend::Apple
    } else {
        Backend::Ollama
    }
}

/// The entry selected when the backend menu opens: Ollama when Apple
/// Intelligence is unavailable.
pub fn backend_menu_start(apple_ok: bool) -> (r: usize)
    ensures
        r == (if apple_ok {
            0usize
        } else {
            1usize
        }),
{
    if apple_ok {
        0
    } else {
        1
    }
}

/// The backend menu after `key`, with entry `sel` selected: the arrows
/// move round the two entries, skipping Apple Intelligence when it is
/// unavailable; `1` and `2` choose (`1` only when available); Enter
/// chooses the selected entry; `q` and Escape quit.
pub open spec fn backend_menu_spec(sel: usize, apple_ok: bool, key: Option<Key>) -> MenuStep<Backend> {
    match key {
        Some(Key::Up) => {
            let s: usize = if sel == 0 {
                1
            } else {
                (sel - 1) as usize
            };
            MenuStep::Select(
                if s == 0 && !apple_ok {
                    1
                } else {
                    s
                },
            )
        },
        Some(Key::Down) => {
            let s: usize = ((sel + 1) % 2) as usize;
            MenuStep::Select(
                if s == 0 && !apple_ok {
                    1
                } else {
                    s
                },
            )
        },
        Some(Key::Char('1')) => if apple_ok {
            MenuStep::Done(Backend::Apple)
        } else {
            MenuStep::Select(sel)
        },
        Some(Key::Char('2')) => MenuStep::Done(Backend::Ollama),
        Some(Key::Enter) => MenuStep::Done(backend_at(sel)),
        Some(Key::Char('q')) => MenuStep::Cancel,
        Some(Key::Escape) => MenuStep::Cancel,
        _ => MenuStep::Select(sel),
    }
}

/// The backend menu after the key press `key`, with entry `sel` selected.
pub fn backend_menu_step(sel: usize, apple_ok: bool, key: Option<Key>) -> (r: MenuStep<Backend>)
    requires
        sel < 2,
    ensures
        r == backend_menu_spec(sel, apple_ok, key),
{
    match key {
        Some(Key::Up) => {
            let s: usize = if sel == 0 {
                1
            } else {
                sel - 1
            };
            MenuStep::Select(
                if s == 0 && !apple_ok {
                    1
                } else {
                    s
                },
            )
        },
        Some(Key::Down) => {
            let s: usize = (sel + 1) % 2;
            MenuStep::Select(
                if s == 0 && !apple_ok {
                    1
                } else {
                    s
                },
            )
        },
        Some(Key::Char('1')) => {
            if apple_ok {
                MenuStep::Done(Backend::Apple)
            } else {
                MenuStep::Select(sel)
            }
        },
        Some(Key::Char('2')) => MenuStep::Done(Backend::Ollama),
        Some(Key::Enter) => MenuStep::Done(if sel == 0 {
            Backend::Apple
        } else {
            Backend::Ollama
        }),
        Some(Key::Char('q')) => MenuStep::Cancel,
        Some(Key::Escape) => MenuStep::Cancel,
        _ => MenuStep::Select(sel),
    }
}

/// Law: when Apple Intelligence is unavailable, the backend menu keeps
/// Ollama selected and never chooses Apple Intelligence, whatever the key.
pub proof fn law_unavailable_apple_never_chosen(key: Option<Key>)
    ensures
        backend_menu_spec(1, false, key) != MenuStep::<Backend>::Done(Backend::Apple),
        backend_menu_spec(1, false, key) matches MenuStep::Select(s) ==> s == 1,
{
}

/// Law: what each key does on the backend menu, whose first entry is Apple
/// Intelligence and second Ollama: Enter chooses the selected entry; `2`
/// chooses Ollama; `1` chooses Apple Intelligence when it is available and
/// is ignored otherwise; `q` and Escape quit; the arrows move between the
/// entries, landing on Ollama when Apple Intelligence is unavailable.
pub proof fn law_backend_menu_keys(sel: usize, apple_ok: bool)
    requires
        sel < 2,
    ensures
        backend_menu_spec(sel, apple_ok, Some(Key::Enter)) == MenuStep::Done(
            if sel == 0 {
                Backend::Apple
            } else {
                Backend::Ollama
            },
        ),
        backend_menu_spec(sel, apple_ok, Some(Key::Char('2'))) == MenuStep::Done(Backend::Ollama),
        backend_menu_spec(sel, apple_ok, Some(Key::Char('1'))) == (if apple_ok {
            MenuStep::Done(Backend::Apple)
        } else {
            MenuStep::<Backend>::Select(sel)
        }),
        backend_menu_spec(sel, apple_ok, Some(Key::Char('q'))) == MenuStep::<Backend>::Cancel,
        backend_menu_spec(sel, apple_ok, Some(Key::Escape)) == MenuStep::<Backend>::Cancel,
        backend_menu_spec(sel, apple_ok, Some(Key::Down)) == MenuStep::<Backend>::Select(
            if sel == 0 || !apple_ok {
                1
            } else {
                0
            },
        ),
        backend_menu_spec(sel, apple_ok, Some(Key::Up)) == MenuStep::<Backend>::Select(
            if sel == 0 || !apple_ok {
                1
            } else {
                0
            },
        ),
        backend_menu_spec(sel, apple_ok, None) == MenuStep::<Backend>::Select(sel),
{
}

/// Law: the selection stays on one of the two entries.
pub proof fn law_backend_menu_in_range(sel: usize, apple_ok: bool, key: Option<Key>)
    requires
        sel < 2,
    ensures
        backend_menu_spec(sel, apple_ok, key) matches MenuStep::Select(s) ==> s < 2,
{
}

/// The tags of the Ollama models offered, the recommended one first.
pub open spec fn model_tags() -> Seq<Seq<char>> {
    seq!["qwen2.5-coder:1.5b"@, "qwen2.5-coder:3b"@]
}

/// The tag of the offered model `i`.
pub fn model_tag(i: usize) -> (r: &'static str)
    requires
        i < 2,
    ensures
        r@ == model_tags()[i as int],
{
    if i == 0 {
        "qwen2.5-coder:1.5b"
    } else {
        "qwen2.5-coder:3b"
    }
}

/// The number of entries of the model menu: the offered models, then the
/// entry that asks for a model name.
pub open spec fn model_menu_len() -> nat {
    model_tags().len() + 1
}

/// The model menu after `key`, with entry `sel` selected: the arrows move
/// round the three entries, `1` to `3` choose, Enter chooses the selected
/// entry, Escape goes back to the backend menu and `q` quits. A choice is
/// the entry's number; the last entry asks for a model name.
pub open spec fn model_menu_spec(sel: usize, key: Option<Key>) -> MenuStep<usize> {
    match key {
        Some(Key::Up) => MenuStep::Select(
            if sel == 0 {
                2
            } else {
                (sel - 1) as usize
            },
        ),
        Some(Key::Down) => MenuStep::Select(((sel + 1) % 3) as usize),
        Some(Key::Char('1')) => MenuStep::Done(0),
        Some(Key::Char('2')) => MenuStep::Done(1),
        Some(Key::Char('3')) => MenuStep::Done(2),
        Some(Key::Enter) => MenuStep::Done(sel),
        Some(Key::Escape) => MenuStep::Back,
        Some(Key::Char('q')) => MenuStep::Cancel,
        _ => MenuStep::Select(sel),
    }
}

/// The model menu after the key press `key`, with entry `sel` selected.
pub fn model_menu_step(sel: usize, key: Option<Key>) -> (r: MenuStep<usize>)
    requires
        sel < 3,
    ensures
        r == model_menu_spec(sel, key),
{
    match key {
        Some(Key::Up) => MenuStep::Select(
            if sel == 0 {
                2
            } else {
                sel - 1
            },
        ),
        Some(Key::Down) => MenuStep::Select((sel + 1) % 3),
        Some(Key::Char('1')) => MenuStep::Done(0),
        Some(Key::Char('2')) => MenuStep::Done(1),
        Some(Key::Char('3')) => MenuStep::Done(2),
        Some(Key::Enter) => MenuStep::Done(sel),
        Some(Key::Escape) => MenuStep::Back,
        Some(Key::Char('q')) => MenuStep::Cancel,
        _ => MenuStep::Select(sel),
    }
}

/// Law: in the model menu, Down then Up comes back to the same entry, the
/// selection stays on an entry, every choice is an entry, and Escape goes
/// back.
pub proof fn law_model_menu_round_trip(sel: usize, key: Option<Key>)
    requires
        sel < 3,
    ensures
        model_menu_spec(sel, Some(Key::Down)) matches MenuStep::Select(s) && model_menu_spec(
            s,
            Some(Key::Up),
        ) == MenuStep::<usize>::Select(sel),
        model_menu_spec(sel, key) matches MenuStep::Select(s) ==> s < model_menu_len(),
        model_menu_spec(sel, key) matches MenuStep::Done(i) ==> i < model_menu_len(),
        model_menu_spec(sel, Some(Key::Escape)) == MenuStep::<usize>::Back,
{
}

/// Law: what each key does on the model menu, whose entries are the two
/// offered models and then the entry that asks for a name: `1`, `2`, `3`
/// choose the first, second and third entry; Enter chooses the selected
/// one; Escape goes back; `q` quits; Down moves to the next entry and Up to
/// the one before, going round.
pub proof fn law_model_menu_keys(sel: usize)
    requires
        sel < 3,
    ensures
        model_menu_spec(sel, Some(Key::Char('1'))) == MenuStep::<usize>::Done(0),
        model_menu_spec(sel, Some(Key::Char('2'))) == MenuStep::<usize>::Done(1),
        model_menu_spec(sel, Some(Key::Char('3'))) == MenuStep::<usize>::Done(2),
        model_menu_spec(sel, Some(Key::Enter)) == MenuStep::<usize>::Done(sel),
        model_menu_spec(sel, Some(Key::Escape)) == MenuStep::<usize>::Back,
        model_menu_spec(sel, Some(Key::Char('q'))) == MenuStep::<usize>::Cancel,
        model_menu_spec(sel, Some(Key::Down)) == MenuStep::<usize>::Select(
            if sel == 2 {
                0
            } else {
                (sel + 1) as usize
            },
        ),
        model_menu_spec(sel, Some(Key::Up)) == MenuStep::<usize>::Select(
            if sel == 0 {
                2
            } else {
                (sel - 1) as usize
            },
        ),
        model_tags()[0] == "qwen2.5-coder:1.5b"@,
        model_tags()[1] == "qwen2.5-coder:3b"@,
{
}

/// Where typing a model name goes after a key press.
#[derive(Debug, Clone, Copy, PartialEq, Eq, Structural)]
pub enum NameStep {
    /// Still typing.
    Typing,
    /// Enter: the name is complete.
    Done,
    /// Escape: back to the model menu.
    Back,
    /// Ctrl+C: quit.
    Cancel,
}

/// Typing a model name: the name (its bytes) and the step after the byte
/// `first`, with `follow` the bytes read at once after an ESC. A printable
/// ASCII character is added; Backspace or DEL removes the last one; Enter
/// completes a name that is not empty; a lone ESC goes back (an arrow is
/// ignored); Ctrl+C quits; other bytes are ignored.
pub open spec fn name_edit_spec(name: Seq<u8>, first: u8, follow: Seq<u8>) -> (Seq<u8>, NameStep) {
    if first == 0x0d || first == 0x0a {
        (name, if name.len() > 0 { NameStep::Done } else { NameStep::Typing })
    } else if first == 0x1b {
        (name, if follow.len() == 2 && follow[0] == 0x5b { NameStep::Typing } else { NameStep::Back })
    } else if first == 0x03 {
        (name, NameStep::Cancel)
    } else if first == 0x7f || first == 0x08 {
        (if name.len() > 0 { name.drop_last() } else { name }, NameStep::Typing)
    } else if 0x21 <= first <= 0x7e {
        (name.push(first), NameStep::Typing)
    } else {
        (name, NameStep::Typing)
    }
}

/// Applies the byte `first` (and `follow`, what came at once after an
/// ESC) to the model name being typed.
pub fn edit_name(name: &mut Vec<u8>, first: u8, follow: &[u8]) -> (r: NameStep)
    ensures
        final(name)@ == name_edit_spec(old(name)@, first, follow@).0,
        r == name_edit_spec(old(name)@, first, follow@).1,
{
    if first == 0x0d || first == 0x0a {
        if name.len() > 0 {
            NameStep::Done
        } else {
            NameStep::Typing
        }
    } else if first == 0x1b {
        if follow.len() == 2 && follow[0] == 0x5b {
            NameStep::Typing
        } else {
            NameStep::Back
        }
    } else if first == 0x03 {
        NameStep::Cancel
    } else if first == 0x7f || first == 0x08 {
        if name.len() > 0 {
            name.pop();
        }
        NameStep::Typing
    } else if 0x21 <= first && first <= 0x7e {
        name.push(first);
        NameStep::Typing
    } else {
        NameStep::Typing
    }
}

/// Law: a printable character typed and then erased leaves the name as it
/// was, and a name is complete only when it is not empty.
pub proof fn law_name_erase_undoes_typing(name: Seq<u8>, c: u8, follow: Seq<u8>, first: u8)
    requires
        0x21 <= c <= 0x7e,
    ensures
        name_edit_spec(name_edit_spec(name, c, follow).0, 0x7f, follow).0 == name,
        name_edit_spec(name, first, follow).1 == NameStep::Done ==> name.len() > 0,
{
    assert(name.push(c).drop_last() =~= name);
}

/// The header of every setup screen.
pub open spec fn header_spec() -> Seq<char> {
    "  \x1b[1m╭────────────────────────────────────────────╮\x1b[0m\r\n"@
        + "  \x1b[1m│\x1b[36m         nlsh · model setup                 \x1b[0m\x1b[1m│\x1b[0m\r\n"@
        + "  \x1b[1m╰────────────────────────────────────────────╯\x1b[0m\r\n"@ + "\r\n"@
}

/// The header drawn at the top of every setup screen.
pub fn draw_header() -> (r: String)
    ensures
        r@ == header_spec(),
{
    let mut s = String::from_str("  \x1b[1m╭────────────────────────────────────────────╮\x1b[0m\r\n");
    s.append(
        "  \x1b[1m│\x1b[36m         nlsh · model setup                 \x1b[0m\x1b[1m│\x1b[0m\r\n",
    );
    s.append("  \x1b[1m╰────────────────────────────────────────────╯\x1b[0m\r\n");
    s.append("\r\n");
    s
}

/// The cursor drawn before a menu entry: a cyan arrow on the selected one.
pub open spec fn cursor_spec(selected: bool) -> Seq<char> {
    if selected {
        "\x1b[36m▶\x1b[0m"@
    } else {
        " "@
    }
}

/// A menu entry's name, in bold when selected.
pub open spec fn label_spec(name: Seq<char>, selected: bool) -> Seq<char> {
    if selected {
        "\x1b[1m"@ + name + "\x1b[0m"@
    } else {
        name
    }
}

/// Entry `i` of the backend menu.
pub open spec fn backend_line_spec(i: int, sel: usize, apple_ok: bool) -> Seq<char> {
    let name = if i == 0 { "Apple Intelligence"@ } else { "Ollama local model"@ };
    let desc = if i == 0 { "on-device, no download"@ } else { "~986 MB download"@ };
    let n = if i == 0 { "1"@ } else { "2"@ };
    let cursor = cursor_spec(i == sel);
    if i == 0 && !apple_ok {
        "  "@ + cursor + " \x1b[2m"@ + n + "  "@ + name + "  "@ + desc
            + "  (unavailable on this device)\x1b[0m\r\n"@
    } else {
        "  "@ + cursor + " "@ + n + "  "@ + label_spec(name, i == sel) + "  \x1b[2m"@ + desc
            + "\x1b[0m\r\n"@
    }
}

/// The backend menu screen with entry `sel` selected.
pub open spec fn backend_screen_spec(sel: usize, apple_ok: bool) -> Seq<char> {
    header_spec() + "  Choose an AI backend:\r\n"@ + "\r\n"@ + backend_line_spec(0, sel, apple_ok)
        + backend_line_spec(1, sel, apple_ok) + "\r\n"@
        + "  \x1b[2m[↑↓ / 1-2] navigate   [Enter] confirm   [q] quit\x1b[0m\r\n"@
}

/// Entry `i` of the model menu.
pub open spec fn model_line_spec(i: int, sel: usize) -> Seq<char> {
    let cursor = cursor_spec(i == sel);
    if i == 2 {
        "  "@ + cursor + " 3  "@ + label_spec("Enter custom model name..."@, i == sel) + "\r\n"@
    } else {
        let n = if i == 0 { "1"@ } else { "2"@ };
        let size = if i == 0 { "~986 MB"@ } else { "~2.0 GB"@ };
        let color = if i == 0 { "\x1b[32m"@ } else { "\x1b[2m"@ };
        let note = if i == 0 { "recommended"@ } else { "higher quality"@ };
        "  "@ + cursor + " "@ + n + "  "@ + label_spec(model_tags()[i], i == sel) + "  \x1b[2m"@
            + size + "\x1b[0m  "@ + color + note + "\x1b[0m\r\n"@
    }
}

/// The model menu screen with entry `sel` selected.
pub open spec fn model_screen_spec(sel: usize) -> Seq<char> {
    header_spec() + "  Select model:\r\n"@ + "\r\n"@ + model_line_spec(0, sel) + model_line_spec(1, sel)
        + model_line_spec(2, sel) + "\r\n"@
        + "  \x1b[2m[↑↓ / 1-3] navigate   [Enter] confirm   [Esc] back\x1b[0m\r\n"@
}

/// Appends the cursor of a menu entry and the separating space.
fn push_cursor(s: &mut String, selected: bool)
    ensures
        final(s)@ == old(s)@ + "  "@ + cursor_spec(selected),
{
    s.append("  ");
    if selected {
        s.append("\x1b[36m▶\x1b[0m");
    } else {
        s.append(" ");
    }
}

/// Appends a menu entry's name, in bold when selected.
fn push_label(s: &mut String, name: &str, selected: bool)
    ensures
        final(s)@ == old(s)@ + label_spec(name@, selected),
{
    if selected {
        s.append("\x1b[1m");
        s.append(name);
        s.append("\x1b[0m");
    } else {
        s.append(name);
    }
}

/// Appends entry `i` of the backend menu.
fn push_backend_line(s: &mut String, i: usize, sel: usize, apple_ok: bool)
    requires
        i < 2,
    ensures
        final(s)@ == old(s)@ + backend_line_spec(i as int, sel, apple_ok),
{
    let name = if i == 0 { "Apple Intelligence" } else { "Ollama local model" };
    let desc = if i == 0 { "on-device, no download" } else { "~986 MB download" };
    let n = if i == 0 { "1" } else { "2" };
    let ghost start = s@;
    push_cursor(s, i == sel);
    if i == 0 && !apple_ok {
        s.append(" \x1b[2m");
        s.append(n);
        s.append("  ");
        s.append(name);
        s.append("  ");
        s.append(desc);
        s.append("  (unavailable on this device)\x1b[0m\r\n");
    } else {
        s.append(" ");
        s.append(n);
        s.append("  ");
        push_label(s, name, i == sel);
        s.append("  \x1b[2m");
        s.append(desc);
        s.append("\x1b[0m\r\n");
    }
    assert(s@ =~= start + backend_line_spec(i as int, sel, apple_ok));
}

/// The backend menu screen, header included, with entry `sel` selected.
pub fn backend_screen(sel: usize, apple_ok: bool) -> (r: String)
    ensures
        r@ == backend_screen_spec(sel, apple_ok),
{
    let mut s = draw_header();
    s.append("  Choose an AI backend:\r\n");
    s.append("\r\n");
    push_backend_line(&mut s, 0, sel, apple_ok);
    push_backend_line(&mut s, 1, sel, apple_ok);
    s.append("\r\n");
    s.append("  \x1b[2m[↑↓ / 1-2] navigate   [Enter] confirm   [q] quit\x1b[0m\r\n");
    assert(s@ =~= backend_screen_spec(sel, apple_ok));
    s
}

/// Appends entry `i` of the model menu, one of the offered models.
fn push_offered_line(s: &mut String, i: usize, sel: usize)
    requires
        i < 2,
    ensures
        final(s)@ == old(s)@ + model_line_spec(i as int, sel),
{
    let ghost start = s@;
    let n = if i == 0 { "1" } else { "2" };
    let size = if i == 0 { "~986 MB" } else { "~2.0 GB" };
    let color = if i == 0 { "\x1b[32m" } else { "\x1b[2m" };
    let note = if i == 0 { "recommended" } else { "higher quality" };
    push_cursor(s, i == sel);
    s.append(" ");
    s.append(n);
    s.append("  ");
    let ghost mid = s@;
    push_label(s, model_tag(i), i == sel);
    let ghost lab = s@;
    s.append("  \x1b[2m");
    s.append(size);
    s.append("\x1b[0m  ");
    s.append(color);
    s.append(note);
    s.append("\x1b[0m\r\n");
    assert(lab == mid + label_spec(model_tags()[i as int], i == sel));
    assert(s@ =~= start + model_line_spec(i as int, sel));
}

/// Appends the last entry of the model menu, which asks for a name.
fn push_custom_line(s: &mut String, sel: usize)
    ensures
        final(s)@ == old(s)@ + model_line_spec(2, sel),
{
    let ghost start = s@;
    push_cursor(s, 2 == sel);
    s.append(" 3  ");
    push_label(s, "Enter custom model name...", 2 == sel);
    s.append("\r\n");
    assert(s@ =~= start + model_line_spec(2, sel));
}

/// The model menu screen, header included, with entry `sel` selected.
pub fn model_screen(sel: usize) -> (r: String)
    ensures
        r@ == model_screen_spec(sel),
{
    let mut s = draw_header();
    s.append("  Select model:\r\n");
    s.append("\r\n");
    push_offered_line(&mut s, 0, sel);
    push_offered_line(&mut s, 1, sel);
    push_custom_line(&mut s, sel);
    s.append("\r\n");
    s.append("  \x1b[2m[↑↓ / 1-3] navigate   [Enter] confirm   [Esc] back\x1b[0m\r\n");
    assert(s@ =~= model_screen_spec(sel));
    s
}

/// What a key answers to the offer to make nlsh the default shell: `y`
/// accepts; `n`, Enter and Escape decline; other keys are ignored.
pub open spec fn default_shell_answer_spec(key: Option<Key>) -> Option<bool> {
    match key {
        Some(Key::Char('y')) => Some(true),
        Some(Key::Char('Y')) => Some(true),
        Some(Key::Char('n')) => Some(false),
        Some(Key::Char('N')) => Some(false),
        Some(Key::Enter) => Some(false),
        Some(Key::Escape) => Some(false),
        _ => None,
    }
}

/// What the key `key` answers to the offer to make nlsh the default
/// shell; `None` when it is no answer.
pub fn default_shell_answer(key: Option<Key>) -> (r: Option<bool>)
    ensures
        r == default_shell_answer_spec(key),
{
    match key {
        Some(Key::Char('y')) => Some(true),
        Some(Key::Char('Y')) => Some(true),
        Some(Key::Char('n')) => Some(false),
        Some(Key::Char('N')) => Some(false),
        Some(Key::Enter) => Some(false),
        Some(Key::Escape) => Some(false),
        _ => None,
    }
}

/// Whether some line of `text`, trimmed, is `entry`.
pub open spec fn lists_line(text: Seq<char>, entry: Seq<char>) -> bool
    decreases text.len(),
{
    let k = char_index(text, '\n');
    if trim(text.take(k)) == entry {
        true
    } else if 0 <= k < text.len() {
        lists_line(text.skip(k + 1), entry)
    } else {
        false
    }
}

/// Whether the list of login shells `shells` (the text of `/etc/shells`)
/// has a line that, trimmed, is `entry`.
pub fn shells_list(shells: &str, entry: &str) -> (r: bool)
    ensures
        r == lists_line(shells@, entry@),
{
    let v = chars_of(shells);
    let e = chars_of(entry);
    let n = v.len();
    let mut pos: usize = 0;
    assert(v@.subrange(0, n as int) =~= v@);
    loop
        invariant
            v@ == shells@,
            e@ == entry@,
            n == v@.len(),
            pos <= n,
            lists_line(shells@, entry@) == lists_line(v@.subrange(pos as int, n as int), entry@),
        decreases n - pos,
    {
        let ghost rest = v@.subrange(pos as int, n as int);
        let k = find_char(&v, '\n', pos, n);
        let (x, y) = trim_bounds(&v, pos, k);
        proof {
            lemma_char_index(rest, '\n');
            assert(rest.take(k - pos) =~= v@.subrange(pos as int, k as int));
        }
        if y - x == e.len() && crate::text::chars_at(&v, &e, x) {
            assert(v@.subrange(x as int, y as int) =~= e@);
            return true;
        }
        assert(v@.subrange(x as int, y as int) != e@) by {
            if v@.subrange(x as int, y as int) == e@ {
                assert(v@.subrange(x as int, x + e@.len()) =~= e@);
            }
        }
        if k < n {
            assert(rest.skip(k - pos + 1) =~= v@.subrange(k + 1, n as int));
            pos = k + 1;
        } else {
            return false;
        }
    }
}

/// Law: a list of shells lists `entry` exactly when one of its lines,
/// trimmed, is `entry`: a single line lists it when it trims to it, and a
/// first line followed by the rest lists it when either does.
pub proof fn law_listed_by_line(first: Seq<char>, rest: Seq<char>, entry: Seq<char>)
    requires
        !has_char(first, '\n'),
    ensures
        lists_line(first, entry) == (trim(first) == entry),
        lists_line(first + seq!['\n'] + rest, entry) == (trim(first) == entry || lists_line(rest, entry)),
{
    assert forall|j: int| 0 <= j < first.len() implies first[j] != '\n' by {
        if first[j] == '\n' {
            assert(has_char(first, '\n'));
        }
    }
    lemma_char_index_is(first, '\n', first.len() as int);
    assert(first.take(first.len() as int) =~= first);
    let t = first + seq!['\n'] + rest;
    assert forall|j: int| 0 <= j < first.len() implies t[j] != '\n' by {
        assert(t[j] == first[j]);
    }
    lemma_char_index_is(t, '\n', first.len() as int);
    assert(t.take(first.len() as int) =~= first);
    assert(t.skip(first.len() as int + 1) =~= rest);
}

/// Law: appending `entry` as a line of its own to a list of login shells
/// that is empty or ends with a line break gives a list that lists it. So
/// adding the entry only when it is not listed adds it once: a second
/// time finds it and leaves the list as it is.
pub proof fn law_appended_entry_listed(shells: Seq<char>, entry: Seq<char>)
    requires
        shells.len() == 0 || shells.last() == '\n',
        !entry.contains('\n'),
        trim(entry) == entry,
    ensures
        lists_line(shells + entry + seq!['\n'], entry),
    decreases shells.len(),
{
    let text = shells + entry + seq!['\n'];
    lemma_char_index(shells, '\n');
    let k = char_index(shells, '\n');
    if shells.len() == 0 {
        assert(text =~= entry + seq!['\n']);
        assert forall|j: int| 0 <= j < entry.len() implies text[j] != '\n' by {
            assert(text[j] == entry[j]);
        }
        lemma_char_index_is(text, '\n', entry.len() as int);
        assert(text.take(entry.len() as int) =~= entry);
    } else {
        assert(shells[shells.len() - 1] == '\n');
        assert(k < shells.len());
        assert forall|j: int| 0 <= j < k implies text[j] != '\n' by {
            assert(text[j] == shells[j]);
        }
        lemma_char_index_is(text, '\n', k);
        if trim(text.take(k)) != entry {
            let rest = shells.skip(k + 1);
            assert(text.skip(k + 1) =~= rest + entry + seq!['\n']);
            law_appended_entry_listed(rest, entry);
        }
    }
}

/// The list of login shells after installing `entry`: as it was when it
/// lists the entry, else with the entry appended as a line of its own.
pub open spec fn installed_shells(shells: Seq<char>, entry: Seq<char>) -> Seq<char> {
    if lists_line(shells, entry) {
        shells
    } else {
        shells + entry + seq!['\n']
    }
}

/// Law: installing is idempotent: on a list that is empty or ends with a
/// line break, installing the entry a second time leaves the list exactly
/// as the first time did, and the entry is listed.
pub proof fn law_install_idempotent(shells: Seq<char>, entry: Seq<char>)
    requires
        shells.len() == 0 || shells.last() == '\n',
        !entry.contains('\n'),
        trim(entry) == entry,
    ensures
        lists_line(installed_shells(shells, entry), entry),
        installed_shells(installed_shells(shells, entry), entry) == installed_shells(shells, entry),
{
    if !lists_line(shells, entry) {
        law_appended_entry_listed(shells, entry);
    }
}

/// How Ollama is made available.
#[derive(Debug, Clone, Copy, PartialEq, Eq, Structural)]
pub enum InstallPlan {
    /// It is installed already.
    Present,
    /// It is missing and Homebrew too: show how to install it, and stop.
    NoHomebrew,
    /// It is missing: install it with Homebrew.
    ViaHomebrew,
}

/// How Ollama is made available, from whether `ollama` and `brew` are
/// found on the PATH.
pub open spec fn install_plan_spec(ollama_found: bool, brew_found: bool) -> InstallPlan {
    if ollama_found {
        InstallPlan::Present
    } else if !brew_found {
        InstallPlan::NoHomebrew
    } else {
        InstallPlan::ViaHomebrew
    }
}

/// How Ollama is made available, from whether `ollama` and `brew` are
/// found on the PATH.
pub fn install_plan(ollama_found: bool, brew_found: bool) -> (r: InstallPlan)
    ensures
        r == install_plan_spec(ollama_found, brew_found),
{
    if ollama_found {
        InstallPlan::Present
    } else if !brew_found {
        InstallPlan::NoHomebrew
    } else {
        InstallPlan::ViaHomebrew
    }
}

/// What the end of `brew install` means.
#[derive(Debug, Clone, Copy, PartialEq, Eq, Structural)]
pub enum BrewOutcome {
    /// Installed, and `ollama` is found on the PATH.
    Installed,
    /// Installed, but the PATH must first get Homebrew's directory.
    InstalledAddPath,
    /// Homebrew failed.
    Failed,
}

/// What the end of `brew install` means, from whether it succeeded and
/// whether `ollama` is then found on the PATH.
pub open spec fn brew_outcome_spec(success: bool, ollama_found: bool) -> BrewOutcome {
    if !success {
        BrewOutcome::Failed
    } else if ollama_found {
        BrewOutcome::Installed
    } else {
        BrewOutcome::InstalledAddPath
    }
}

/// What the end of `brew install` means.
pub fn brew_outcome(success: bool, ollama_found: bool) -> (r: BrewOutcome)
    ensures
        r == brew_outcome_spec(success, ollama_found),
{
    if !success {
        BrewOutcome::Failed
    } else if ollama_found {
        BrewOutcome::Installed
    } else {
        BrewOutcome::InstalledAddPath
    }
}

/// Homebrew's directory of programs: `/opt/homebrew/bin` when it holds
/// `ollama`, else `/usr/local/bin`.
pub open spec fn homebrew_bin_spec(opt_has_ollama: bool) -> Seq<char> {
    if opt_has_ollama {
        "/opt/homebrew/bin"@
    } else {
        "/usr/local/bin"@
    }
}

/// Homebrew's directory of programs, given whether
/// `/opt/homebrew/bin/ollama` exists.
pub fn homebrew_bin(opt_has_ollama: bool) -> (r: &'static str)
    ensures
        r@ == homebrew_bin_spec(opt_has_ollama),
{
    if opt_has_ollama {
        "/opt/homebrew/bin"
    } else {
        "/usr/local/bin"
    }
}

/// The search path `path` with the directory `dir` put first.
pub fn path_with_prefix(dir: &str, path: &str) -> (r: String)
    ensures
        r@ == dir@ + ":"@ + path@,
{
    let mut s = String::from_str(dir);
    s.append(":");
    s.append(path);
    s
}

/// What to do while making sure the Ollama server runs.
#[derive(Debug, Clone, Copy, PartialEq, Eq, Structural)]
pub enum StartStep {
    /// It runs.
    Ready,
    /// It does not run: start `ollama serve`, wait, and check again.
    StartServer,
    /// It does not run yet: wait and check again.
    Wait,
    /// It still does not run: give up.
    GiveUp,
}

/// The number of checks made after starting the server, half a second
/// apart, before giving up (five seconds).
pub open spec fn start_polls() -> int {
    10
}

/// What to do after the `checks`-th check of the server (counted from 1),
/// which found it running or not: the first check starts the server when
/// it does not run; then it is checked up to ten more times.
pub open spec fn start_step_spec(checks: u32, running: bool) -> StartStep {
    if running {
        StartStep::Ready
    } else if checks <= 1 {
        StartStep::StartServer
    } else if checks <= start_polls() {
        StartStep::Wait
    } else {
        StartStep::GiveUp
    }
}

/// What to do after the `checks`-th check of the server.
pub fn start_step(checks: u32, running: bool) -> (r: StartStep)
    ensures
        r == start_step_spec(checks, running),
{
    if running {
        StartStep::Ready
    } else if checks <= 1 {
        StartStep::StartServer
    } else if checks <= 10 {
        StartStep::Wait
    } else {
        StartStep::GiveUp
    }
}

/// Law: the setup gives up on the server only when it does not run and
/// after ten checks following its start, and never gives up while the
/// server runs.
pub proof fn law_start_gives_up_late(checks: u32, running: bool)
    ensures
        start_step_spec(checks, running) == StartStep::GiveUp ==> !running && checks > start_polls(),
        running ==> start_step_spec(checks, running) == StartStep::Ready,
        !running && 1 < checks <= start_polls() ==> start_step_spec(checks, running)
            == StartStep::Wait,
{
}

/// The address of the local Ollama server.
pub open spec fn local_ollama_url() -> Seq<char> {
    "http://localhost:11434"@
}

/// The step of the setup that is under way. The steps between the backend
/// menu and the model menu remember whether Apple Intelligence is usable,
/// so that the model menu can go back to the backend menu.
#[derive(Debug, Clone, Copy, PartialEq, Eq, Structural)]
pub enum SetupStage {
    /// Nothing done yet.
    Start,
    /// Waiting for the check of the Apple Intelligence helper.
    CheckingShim,
    /// Waiting for the backend menu.
    ChoosingBackend(bool),
    /// Waiting for Ollama to be installed.
    InstallingOllama(bool),
    /// Waiting for the model menu.
    ChoosingModel(bool),
    /// Waiting for the Ollama server to run.
    StartingOllama,
    /// Waiting to learn whether the model is already there.
    CheckingModel,
    /// Waiting for the model download.
    Pulling,
    /// Waiting for the configuration to be saved.
    Saving,
    /// Waiting for the offer to make nlsh the default shell.
    OfferingShell,
    /// Done; the configuration has been handed over.
    Finished,
}

/// The model the model menu chose.
pub enum ModelChoice {
    /// The offered model with this number.
    Offered(usize),
    /// A model name the user typed.
    Custom(String),
}

/// The mathematical form of a model choice.
pub enum ModelChoiceModel {
    Offered(usize),
    Custom(Seq<char>),
}

impl View for ModelChoice {
    type V = ModelChoiceModel;

    open spec fn view(&self) -> ModelChoiceModel {
        match self {
            ModelChoice::Offered(i) => ModelChoiceModel::Offered(*i),
            ModelChoice::Custom(n) => ModelChoiceModel::Custom(n@),
        }
    }
}

/// What the program reports back after doing what the setup asked.
pub enum SetupEvent {
    /// Setup was asked for.
    Begin,
    /// The Apple Intelligence helper's check answered.
    ShimChecked(bool),
    /// The backend menu chose.
    BackendChosen(Backend),
    /// Ollama is installed.
    OllamaInstalled,
    /// The model menu chose.
    ModelChosen(ModelChoice),
    /// The model menu was left with Escape.
    ModelMenuBack,
    /// The Ollama server runs.
    OllamaRunning,
    /// Whether the server already has the model.
    ModelPresent(bool),
    /// The model was downloaded.
    ModelPulled,
    /// The configuration was saved.
    Saved,
    /// The offer to make nlsh the default shell is over.
    ShellOffered,
}

/// What the setup asks the program to do next.
pub enum SetupAction {
    /// Check whether the Apple Intelligence helper works.
    CheckAppleShim,
    /// Show the backend menu (Apple Intelligence usable or not).
    SelectBackend(bool),
    /// Make sure Ollama is installed.
    EnsureOllamaInstalled,
    /// Show the model menu.
    SelectModel,
    /// Make sure the Ollama server at this address runs.
    EnsureOllamaRunning(String),
    /// Ask the server whether it has the model.
    CheckModel,
    /// Download the model.
    PullModel,
    /// Save this configuration.
    SaveConfig(NlshConfig),
    /// Offer to make nlsh the default shell.
    OfferDefaultShell,
    /// Setup is over: use this configuration.
    Finish(NlshConfig),
    /// The event did not fit the step under way: stop.
    Abort,
}

/// The state of a setup under way.
pub struct SetupFlow {
    /// The step under way.
    pub stage: SetupStage,
    /// The configuration being built.
    pub config: NlshConfig,
}

/// The mathematical form of what the setup asks.
pub enum SetupActionModel {
    CheckAppleShim,
    SelectBackend(bool),
    EnsureOllamaInstalled,
    SelectModel,
    EnsureOllamaRunning(Seq<char>),
    CheckModel,
    PullModel,
    SaveConfig(crate::config::ConfigModel),
    OfferDefaultShell,
    Finish(crate::config::ConfigModel),
    Abort,
}

impl View for SetupAction {
    type V = SetupActionModel;

    open spec fn view(&self) -> SetupActionModel {
        match self {
            SetupAction::CheckAppleShim => SetupActionModel::CheckAppleShim,
            SetupAction::SelectBackend(b) => SetupActionModel::SelectBackend(*b),
            SetupAction::EnsureOllamaInstalled => SetupActionModel::EnsureOllamaInstalled,
            SetupAction::SelectModel => SetupActionModel::SelectModel,
            SetupAction::EnsureOllamaRunning(u) => SetupActionModel::EnsureOllamaRunning(u@),
            SetupAction::CheckModel => SetupActionModel::CheckModel,
            SetupAction::PullModel => SetupActionModel::PullModel,
            SetupAction::SaveConfig(c) => SetupActionModel::SaveConfig(c@),
            SetupAction::OfferDefaultShell => SetupActionModel::OfferDefaultShell,
            SetupAction::Finish(c) => SetupActionModel::Finish(c@),
            SetupAction::Abort => SetupActionModel::Abort,
        }
    }
}

/// The event with its text taken by view.
pub enum SetupEventModel {
    Begin,
    ShimChecked(bool),
    BackendChosen(Backend),
    OllamaInstalled,
    ModelChosen(ModelChoiceModel),
    ModelMenuBack,
    OllamaRunning,
    ModelPresent(bool),
    ModelPulled,
    Saved,
    ShellOffered,
}

impl View for SetupEvent {
    type V = SetupEventModel;

    open spec fn view(&self) -> SetupEventModel {
        match self {
            SetupEvent::Begin => SetupEventModel::Begin,
            SetupEvent::ShimChecked(b) => SetupEventModel::ShimChecked(*b),
            SetupEvent::BackendChosen(b) => SetupEventModel::BackendChosen(*b),
            SetupEvent::OllamaInstalled => SetupEventModel::OllamaInstalled,
            SetupEvent::ModelChosen(m) => SetupEventModel::ModelChosen(m@),
            SetupEvent::ModelMenuBack => SetupEventModel::ModelMenuBack,
            SetupEvent::OllamaRunning => SetupEventModel::OllamaRunning,
            SetupEvent::ModelPresent(b) => SetupEventModel::ModelPresent(*b),
            SetupEvent::ModelPulled => SetupEventModel::ModelPulled,
            SetupEvent::Saved => SetupEventModel::Saved,
            SetupEvent::ShellOffered => SetupEventModel::ShellOffered,
        }
    }
}

/// The configuration recorded when the model `m` is chosen: Ollama, that
/// model, and the local server address.
pub open spec fn ollama_config(m: Seq<char>) -> crate::config::ConfigModel {
    crate::config::ConfigModel { backend: Backend::Ollama, model: m, url: local_ollama_url() }
}

/// One step of the setup: from the stage and configuration under way and
/// the event reported, the next stage, configuration and request.
///
/// The helper is checked first, then the backend menu shown. Apple
/// Intelligence: its configuration (the defaults) is saved. Ollama: it is
/// installed and a model is chosen: an offered one, or a name typed (an
/// empty name asks again); Escape on the model menu goes back to the
/// backend menu. The backend, the model and the local address are
/// recorded, the server is started, the model is pulled when missing, and
/// the configuration saved. Last, the default shell is offered and the
/// configuration handed over.
pub open spec fn setup_spec(
    stage: SetupStage,
    c: crate::config::ConfigModel,
    e: SetupEventModel,
) -> (SetupStage, crate::config::ConfigModel, SetupActionModel) {
    match (stage, e) {
        (SetupStage::Start, SetupEventModel::Begin) => (
            SetupStage::CheckingShim,
            default_config(),
            SetupActionModel::CheckAppleShim,
        ),
        (SetupStage::CheckingShim, SetupEventModel::ShimChecked(ok)) => (
            SetupStage::ChoosingBackend(ok),
            c,
            SetupActionModel::SelectBackend(ok),
        ),
        (SetupStage::ChoosingBackend(_), SetupEventModel::BackendChosen(Backend::Apple)) => {
            let c2 = crate::config::ConfigModel { backend: Backend::Apple, ..c };
            (SetupStage::Saving, c2, SetupActionModel::SaveConfig(c2))
        },
        (SetupStage::ChoosingBackend(ok), SetupEventModel::BackendChosen(Backend::Ollama)) => (
            SetupStage::InstallingOllama(ok),
            c,
            SetupActionModel::EnsureOllamaInstalled,
        ),
        (SetupStage::InstallingOllama(ok), SetupEventModel::OllamaInstalled) => (
            SetupStage::ChoosingModel(ok),
            c,
            SetupActionModel::SelectModel,
        ),
        (SetupStage::ChoosingModel(ok), SetupEventModel::ModelMenuBack) => (
            SetupStage::ChoosingBackend(ok),
            c,
            SetupActionModel::SelectBackend(ok),
        ),
        (SetupStage::ChoosingModel(ok), SetupEventModel::ModelChosen(choice)) => match choice {
            ModelChoiceModel::Offered(i) => if i < model_tags().len() {
                let c2 = ollama_config(model_tags()[i as int]);
                (SetupStage::StartingOllama, c2, SetupActionModel::EnsureOllamaRunning(c2.url))
            } else {
                (stage, c, SetupActionModel::Abort)
            },
            ModelChoiceModel::Custom(name) => if name.len() > 0 {
                let c2 = ollama_config(name);
                (SetupStage::StartingOllama, c2, SetupActionModel::EnsureOllamaRunning(c2.url))
            } else {
                (SetupStage::ChoosingModel(ok), c, SetupActionModel::SelectModel)
            },
        },
        (SetupStage::StartingOllama, SetupEventModel::OllamaRunning) => (
            SetupStage::CheckingModel,
            c,
            SetupActionModel::CheckModel,
        ),
        (SetupStage::CheckingModel, SetupEventModel::ModelPresent(true)) => (
            SetupStage::Saving,
            c,
            SetupActionModel::SaveConfig(c),
        ),
        (SetupStage::CheckingModel, SetupEventModel::ModelPresent(false)) => (
            SetupStage::Pulling,
            c,
            SetupActionModel::PullModel,
        ),
        (SetupStage::Pulling, SetupEventModel::ModelPulled) => (
            SetupStage::Saving,
            c,
            SetupActionModel::SaveConfig(c),
        ),
        (SetupStage::Saving, SetupEventModel::Saved) => (
            SetupStage::OfferingShell,
            c,
            SetupActionModel::OfferDefaultShell,
        ),
        (SetupStage::OfferingShell, SetupEventModel::ShellOffered) => (
            SetupStage::Finished,
            c,
            SetupActionModel::Finish(c),
        ),
        _ => (stage, c, SetupActionModel::Abort),
    }
}

impl SetupFlow {
    /// A setup not yet begun.
    pub fn new() -> (r: SetupFlow)
        ensures
            r.stage == SetupStage::Start,
            r.config@ == default_config(),
    {
        SetupFlow { stage: SetupStage::Start, config: NlshConfig::default() }
    }

    /// Runs the setup one step: takes what the program reports and
    /// returns what it must do next.
    pub fn run_setup(&mut self, event: SetupEvent) -> (r: SetupAction)
        ensures
            final(self).stage == setup_spec(old(self).stage, old(self).config@, event@).0,
            final(self).config@ == setup_spec(old(self).stage, old(self).config@, event@).1,
            r@ == setup_spec(old(self).stage, old(self).config@, event@).2,
    {
        match (self.stage, event) {
            (SetupStage::Start, SetupEvent::Begin) => {
                self.stage = SetupStage::CheckingShim;
                self.config = NlshConfig::default();
                SetupAction::CheckAppleShim
            },
            (SetupStage::CheckingShim, SetupEvent::ShimChecked(ok)) => {
                self.stage = SetupStage::ChoosingBackend(ok);
                SetupAction::SelectBackend(ok)
            },
            (SetupStage::ChoosingBackend(_), SetupEvent::BackendChosen(Backend::Apple)) => {
                self.stage = SetupStage::Saving;
                self.config.backend = Backend::Apple;
                SetupAction::SaveConfig(self.copy_config())
            },
            (SetupStage::ChoosingBackend(ok), SetupEvent::BackendChosen(Backend::Ollama)) => {
                self.stage = SetupStage::InstallingOllama(ok);
                SetupAction::EnsureOllamaInstalled
            },
            (SetupStage::InstallingOllama(ok), SetupEvent::OllamaInstalled) => {
                self.stage = SetupStage::ChoosingModel(ok);
                SetupAction::SelectModel
            },
            (SetupStage::ChoosingModel(ok), SetupEvent::ModelMenuBack) => {
                self.stage = SetupStage::ChoosingBackend(ok);
                SetupAction::SelectBackend(ok)
            },
            (SetupStage::ChoosingModel(ok), SetupEvent::ModelChosen(choice)) => {
                let model = match choice {
                    ModelChoice::Offered(i) => {
                        if i < 2 {
                            String::from_str(model_tag(i))
                        } else {
                            return SetupAction::Abort;
                        }
                    },
                    ModelChoice::Custom(name) => {
                        if name.as_str().unicode_len() > 0 {
                            name
                        } else {
                            return SetupAction::SelectModel;
                        }
                    },
                };
                self.stage = SetupStage::StartingOllama;
                self.config = NlshConfig {
                    backend: Backend::Ollama,
                    ollama_model: model,
                    ollama_url: String::from_str("http://localhost:11434"),
                };
                SetupAction::EnsureOllamaRunning(String::from_str("http://localhost:11434"))
            },
            (SetupStage::StartingOllama, SetupEvent::OllamaRunning) => {
                self.stage = SetupStage::CheckingModel;
                SetupAction::CheckModel
            },
            (SetupStage::CheckingModel, SetupEvent::ModelPresent(present)) => {
                if present {
                    self.stage = SetupStage::Saving;
                    SetupAction::SaveConfig(self.copy_config())
                } else {
                    self.stage = SetupStage::Pulling;
                    SetupAction::PullModel
                }
            },
            (SetupStage::Pulling, SetupEvent::ModelPulled) => {
                self.stage = SetupStage::Saving;
                SetupAction::SaveConfig(self.copy_config())
            },
            (SetupStage::Saving, SetupEvent::Saved) => {
                self.stage = SetupStage::OfferingShell;
                SetupAction::OfferDefaultShell
            },
            (SetupStage::OfferingShell, SetupEvent::ShellOffered) => {
                self.stage = SetupStage::Finished;
                SetupAction::Finish(self.copy_config())
            },
            _ => SetupAction::Abort,
        }
    }

    /// A copy of the configuration being built.
    fn copy_config(&self) -> (r: NlshConfig)
        ensures
            r@ == self.config@,
    {
        NlshConfig {
            backend: self.config.backend,
            ollama_model: self.config.ollama_model.clone(),
            ollama_url: self.config.ollama_url.clone(),
        }
    }
}

/// Law: the setup hands over only the configuration it saved: `Finish`
/// comes only after `Saved`, and hands over the configuration of the
/// `SaveConfig` request (nothing changes it in between).
pub proof fn law_finish_after_save(stage: SetupStage, c: crate::config::ConfigModel, e: SetupEventModel)
    ensures
        setup_spec(stage, c, e).2 matches SetupActionModel::Finish(f) ==> stage
            == SetupStage::OfferingShell && f == c,
        setup_spec(stage, c, e).0 == SetupStage::OfferingShell && stage != SetupStage::OfferingShell
            ==> stage == SetupStage::Saving && setup_spec(stage, c, e).1 == c,
{
}

/// Law: choosing an offered Ollama model records its tag with the local
/// server address, a typed name is recorded as typed, and choosing Apple
/// Intelligence keeps the other defaults.
pub proof fn law_backend_choice_recorded(
    ok: bool,
    c: crate::config::ConfigModel,
    i: usize,
    name: Seq<char>,
)
    requires
        i < model_tags().len(),
        name.len() > 0,
    ensures
        setup_spec(
            SetupStage::ChoosingModel(ok),
            c,
            SetupEventModel::ModelChosen(ModelChoiceModel::Offered(i)),
        ).1 == ollama_config(model_tags()[i as int]),
        setup_spec(
            SetupStage::ChoosingModel(ok),
            c,
            SetupEventModel::ModelChosen(ModelChoiceModel::Custom(name)),
        ).1 == ollama_config(name),
        setup_spec(SetupStage::ChoosingBackend(ok), c, SetupEventModel::BackendChosen(Backend::Apple)).1
            == (crate::config::ConfigModel { backend: Backend::Apple, ..c }),
{
}

/// Law: Escape on the model menu goes back to the backend menu, shown as
/// it was (Apple Intelligence usable or not), with nothing recorded.
pub proof fn law_model_menu_back(ok: bool, c: crate::config::ConfigModel)
    ensures
        setup_spec(SetupStage::ChoosingModel(ok), c, SetupEventModel::ModelMenuBack) == (
        SetupStage::ChoosingBackend(ok),
        c,
        SetupActionModel::SelectBackend(ok),
        ),
{
}

/// Law: whatever events come, when the setup moves on to start Ollama it
/// has recorded Ollama, the local address, and a model name that is not
/// empty.
pub proof fn law_recorded_model(stage: SetupStage, c: crate::config::ConfigModel, e: SetupEventModel)
    ensures
        setup_spec(stage, c, e).0 == SetupStage::StartingOllama && stage != SetupStage::StartingOllama
            ==> setup_spec(stage, c, e).1.backend == Backend::Ollama && setup_spec(stage, c, e).1.url
            == local_ollama_url() && setup_spec(stage, c, e).1.model.len() > 0,
{
    reveal_strlit("qwen2.5-coder:1.5b");
    reveal_strlit("qwen2.5-coder:3b");
}

/// Law: how bytes read from the terminal become keys: CR and LF are
/// Enter; ESC followed at once by `[A` or `[B` is Up or Down, and any other
/// ESC is Escape; Ctrl+C, `q` and `Q` are `q`; any other byte from `!` to
/// `~` is that character; everything else (a blank, DEL, other control
/// bytes, bytes past ASCII) is no key.
pub proof fn law_key_decoding(first: u8, follow: Seq<u8>)
    ensures
        first == 0x0d || first == 0x0a ==> decode_key_spec(first, follow) == Some(Key::Enter),
        first == 0x1b && follow == seq![0x5bu8, 0x41u8] ==> decode_key_spec(first, follow) == Some(
            Key::Up,
        ),
        first == 0x1b && follow == seq![0x5bu8, 0x42u8] ==> decode_key_spec(first, follow) == Some(
            Key::Down,
        ),
        first == 0x1b && follow != seq![0x5bu8, 0x41u8] && follow != seq![0x5bu8, 0x42u8]
            ==> decode_key_spec(first, follow) == Some(Key::Escape),
        first == 0x03 || first == 0x71 || first == 0x51 ==> decode_key_spec(first, follow) == Some(
            Key::Char('q'),
        ),
        0x21 <= first <= 0x7e && first != 0x71 && first != 0x51 ==> decode_key_spec(first, follow)
            == Some(Key::Char(first as char)),
        (first < 0x21 || first > 0x7e) && first != 0x0d && first != 0x0a && first != 0x1b && first
            != 0x03 ==> decode_key_spec(first, follow) == None::<Key>,
{
    if first == 0x1b && follow.len() == 2 && follow[0] == 0x5b {
        if follow[1] == 0x41 {
            assert(follow =~= seq![0x5bu8, 0x41u8]);
        } else if follow[1] == 0x42 {
            assert(follow =~= seq![0x5bu8, 0x42u8]);
        }
    }
}

/// Law: the answer to the offer to make nlsh the default shell: `y` or `Y`
/// accepts; `n`, `N`, Enter and Escape decline; every other key (or none)
/// is no answer.
pub proof fn law_default_shell_keys(key: Option<Key>)
    ensures
        key == Some(Key::Char('y')) || key == Some(Key::Char('Y')) ==> default_shell_answer_spec(key)
            == Some(true),
        key == Some(Key::Char('n')) || key == Some(Key::Char('N')) || key == Some(Key::Enter) || key
            == Some(Key::Escape) ==> default_shell_answer_spec(key) == Some(false),
        key != Some(Key::Char('y')) && key != Some(Key::Char('Y')) && key != Some(Key::Char('n'))
            && key != Some(Key::Char('N')) && key != Some(Key::Enter) && key != Some(Key::Escape)
            ==> default_shell_answer_spec(key) == None::<bool>,
{
}

/// Law: typing a model name: a byte from `!` to `~` is added; Backspace
/// (DEL or BS) removes the last byte; Enter (CR or LF) completes a name
/// that is not empty and is ignored on an empty one; a lone ESC goes back
/// and ESC `[` with another byte (an arrow) is ignored; Ctrl+C quits; any
/// other byte is ignored.
pub proof fn law_name_keys(name: Seq<u8>, b: u8, follow: Seq<u8>)
    ensures
        0x21 <= b <= 0x7e ==> name_edit_spec(name, b, follow) == (name.push(b), NameStep::Typing),
        (b == 0x7f || b == 0x08) && name.len() > 0 ==> name_edit_spec(name, b, follow) == (
        name.take(name.len() - 1),
        NameStep::Typing,
        ),
        (b == 0x0d || b == 0x0a) && name.len() > 0 ==> name_edit_spec(name, b, follow) == (
        name,
        NameStep::Done,
        ),
        (b == 0x0d || b == 0x0a) && name.len() == 0 ==> name_edit_spec(name, b, follow) == (
        name,
        NameStep::Typing,
        ),
        b == 0x1b && follow.len() == 0 ==> name_edit_spec(name, b, follow) == (name, NameStep::Back),
        b == 0x1b && follow.len() == 2 && follow[0] == 0x5b ==> name_edit_spec(name, b, follow) == (
        name,
        NameStep::Typing,
        ),
        b == 0x03 ==> name_edit_spec(name, b, follow) == (name, NameStep::Cancel),
        (b < 0x21 || b > 0x7f) && b != 0x0d && b != 0x0a && b != 0x1b && b != 0x03 && b != 0x08
            ==> name_edit_spec(name, b, follow) == (name, NameStep::Typing),
{
    if (b == 0x7f || b == 0x08) && name.len() > 0 {
        assert(name.drop_last() =~= name.take(name.len() - 1));
    }
}

/// Law: Ollama is made available as found: nothing to do when `ollama` is
/// on the PATH; otherwise installed with Homebrew when `brew` is, else the
/// user is told how to install it. After Homebrew, a failure is reported,
/// and a success needs the PATH to get Homebrew's directory
/// (`/opt/homebrew/bin` when it holds `ollama`, else `/usr/local/bin`)
/// only when `ollama` is still not found.
pub proof fn law_install_decisions(ollama_found: bool, brew_found: bool, success: bool, opt: bool)
    ensures
        ollama_found ==> install_plan_spec(ollama_found, brew_found) == InstallPlan::Present,
        !ollama_found && brew_found ==> install_plan_spec(ollama_found, brew_found)
            == InstallPlan::ViaHomebrew,
        !ollama_found && !brew_found ==> install_plan_spec(ollama_found, brew_found)
            == InstallPlan::NoHomebrew,
        !success ==> brew_outcome_spec(success, ollama_found) == BrewOutcome::Failed,
        success && ollama_found ==> brew_outcome_spec(success, ollama_found) == BrewOutcome::Installed,
        success && !ollama_found ==> brew_outcome_spec(success, ollama_found)
            == BrewOutcome::InstalledAddPath,
        homebrew_bin_spec(opt) == (if opt {
            "/opt/homebrew/bin"@
        } else {
            "/usr/local/bin"@
        }),
{
}

/// Law: starting the server: a running server is ready at any check; the
/// first check of one that does not run starts it; the second to tenth
/// checks wait half a second more; the eleventh gives up (ten checks, five
/// seconds, after the start).
pub proof fn law_start_checks(checks: u32, running: bool)
    ensures
        running ==> start_step_spec(checks, running) == StartStep::Ready,
        !running && checks <= 1 ==> start_step_spec(checks, running) == StartStep::StartServer,
        !running && 2 <= checks <= 10 ==> start_step_spec(checks, running) == StartStep::Wait,
        !running && checks >= 11 ==> start_step_spec(checks, running) == StartStep::GiveUp,
{
}

/// Law: the Ollama configuration recorded by the setup names the Ollama
/// backend, the chosen model, and the local address
/// `http://localhost:11434`; the offered models are `qwen2.5-coder:1.5b`
/// and `qwen2.5-coder:3b`, in that order.
pub proof fn law_recorded_address(ok: bool, c: crate::config::ConfigModel, i: usize)
    requires
        i < 2,
    ensures
        setup_spec(
            SetupStage::ChoosingModel(ok),
            c,
            SetupEventModel::ModelChosen(ModelChoiceModel::Offered(i)),
        ).1 == (crate::config::ConfigModel {
            backend: Backend::Ollama,
            model: if i == 0 {
                "qwen2.5-coder:1.5b"@
            } else {
                "qwen2.5-coder:3b"@
            },
            url: "http://localhost:11434"@,
        }),
        setup_spec(
            SetupStage::ChoosingModel(ok),
            c,
            SetupEventModel::ModelChosen(ModelChoiceModel::Offered(i)),
        ).2 == SetupActionModel::EnsureOllamaRunning("http://localhost:11434"@),
{
}

/// Law: the order of the setup. Begin checks the Apple Intelligence
/// helper and starts from the defaults; its answer shows the backend menu;
/// Apple Intelligence is saved at once; Ollama is installed, then its model
/// chosen; after the server runs the model is checked, pulled only when
/// missing, then the configuration saved; after saving the default shell
/// is offered, and then the saved configuration handed over. An event that
/// does not fit the step under way stops the setup.
pub proof fn law_setup_order(ok: bool, present: bool, c: crate::config::ConfigModel)
    ensures
        setup_spec(SetupStage::Start, c, SetupEventModel::Begin) == (
            SetupStage::CheckingShim,
            default_config(),
            SetupActionModel::CheckAppleShim,
        ),
        setup_spec(SetupStage::CheckingShim, c, SetupEventModel::ShimChecked(ok)).2
            == SetupActionModel::SelectBackend(ok),
        setup_spec(SetupStage::ChoosingBackend(ok), c, SetupEventModel::BackendChosen(Backend::Apple)).2
            == SetupActionModel::SaveConfig(crate::config::ConfigModel { backend: Backend::Apple, ..c }),
        setup_spec(SetupStage::ChoosingBackend(ok), c, SetupEventModel::BackendChosen(Backend::Ollama)).2
            == SetupActionModel::EnsureOllamaInstalled,
        setup_spec(SetupStage::InstallingOllama(ok), c, SetupEventModel::OllamaInstalled).2
            == SetupActionModel::SelectModel,
        setup_spec(SetupStage::StartingOllama, c, SetupEventModel::OllamaRunning).2
            == SetupActionModel::CheckModel,
        setup_spec(SetupStage::CheckingModel, c, SetupEventModel::ModelPresent(present)).2 == (if present {
            SetupActionModel::SaveConfig(c)
        } else {
            SetupActionModel::PullModel
        }),
        setup_spec(SetupStage::Pulling, c, SetupEventModel::ModelPulled).2
            == SetupActionModel::SaveConfig(c),
        setup_spec(SetupStage::Saving, c, SetupEventModel::Saved).2
            == SetupActionModel::OfferDefaultShell,
        setup_spec(SetupStage::OfferingShell, c, SetupEventModel::ShellOffered).2
            == SetupActionModel::Finish(c),
        setup_spec(SetupStage::Start, c, SetupEventModel::Saved).2 == SetupActionModel::Abort,
        setup_spec(SetupStage::Finished, c, SetupEventModel::Begin).2 == SetupActionModel::Abort,
{
}

} // verus!
