use nlsh::classify::LineKind;
use nlsh::confirm::ConfirmResult;
use nlsh::intercept::{erase_line, passthrough_after, Action, InterceptLoop, NlAction};
use nlsh::llm::LlmError;

fn feed(lp: &mut InterceptLoop, bytes: &[u8], passthrough: bool) -> Vec<Action> {
    let mut all = Vec::new();
    for &b in bytes {
        all.extend(lp.step(b, passthrough));
    }
    all
}

fn describe(actions: &[Action]) -> Vec<String> {
    actions
        .iter()
        .map(|a| match a {
            Action::ToShell(b) => format!("shell:{:?}", b),
            Action::Echo(b) => format!("echo:{:?}", b),
            Action::Erase(n) => format!("erase:{n}"),
            Action::Submit(b) => format!("submit:{}", String::from_utf8_lossy(b)),
        })
        .collect()
}

#[test]
fn typed_line_is_echoed_then_submitted() {
    let mut lp = InterceptLoop::new(false, false, false);
    let acts = describe(&feed(&mut lp, b"ls -la\r", false));
    assert_eq!(acts.len(), 8);
    assert_eq!(acts[0], "echo:[108]");
    assert_eq!(acts[6], "echo:[13, 10]");
    assert_eq!(acts[7], "submit:ls -la");
    // The editor is fresh again: Enter alone submits an empty line.
    let acts = describe(&feed(&mut lp, b"\n", false));
    assert_eq!(acts, vec!["echo:[13, 10]".to_string(), "submit:".to_string()]);
}

#[test]
fn backspace_removes_last_character() {
    let mut lp = InterceptLoop::new(false, false, false);
    let acts = describe(&feed(&mut lp, b"lsx\x7f\r", false));
    assert_eq!(acts[3], "echo:[8, 32, 8]");
    assert_eq!(acts.last().unwrap(), "submit:ls");
    let acts = describe(&feed(&mut lp, b"\x08", false));
    assert!(acts.is_empty());
}

#[test]
fn ctrl_c_erases_and_interrupts() {
    let mut lp = InterceptLoop::new(false, false, false);
    let acts = describe(&feed(&mut lp, b"abc\x03", false));
    assert_eq!(acts[3], "erase:3");
    assert_eq!(acts[4], "shell:[3]");
    let acts = describe(&feed(&mut lp, b"\x03", false));
    assert_eq!(acts, vec!["shell:[3]".to_string()]);
}

#[test]
fn ctrl_d_only_on_empty_line() {
    let mut lp = InterceptLoop::new(false, false, false);
    assert_eq!(describe(&feed(&mut lp, b"\x04", false)), vec!["shell:[4]".to_string()]);
    let acts = describe(&feed(&mut lp, b"a\x04", false));
    assert_eq!(acts, vec!["echo:[97]".to_string()]);
}

#[test]
fn tab_flushes_line_to_shell() {
    let mut lp = InterceptLoop::new(false, false, false);
    let acts = describe(&feed(&mut lp, b"gi\t", false));
    assert_eq!(acts[2], "shell:[103, 105]");
    assert_eq!(acts[3], "shell:[9]");
}

#[test]
fn arrow_key_flushes_line_and_sequence() {
    let mut lp = InterceptLoop::new(false, false, false);
    let acts = describe(&feed(&mut lp, b"ab\x1b[A", false));
    assert_eq!(acts[2], "shell:[97, 98]");
    assert_eq!(acts[3], "shell:[27, 91, 65]");
    assert_eq!(acts.len(), 4);
}

#[test]
fn bracketed_paste_passes_through() {
    let mut lp = InterceptLoop::new(false, false, false);
    let acts = describe(&feed(&mut lp, b"\x1b[?2004h", false));
    assert_eq!(acts, vec!["shell:[27, 91, 63, 50, 48, 48, 52, 104]".to_string()]);
    let acts = describe(&feed(&mut lp, b"x\r", false));
    assert_eq!(acts, vec!["shell:[120]".to_string(), "shell:[13]".to_string()]);
    // Paste mode stays on: even the end sequence and later keys pass
    // straight through.
    let acts = describe(&feed(&mut lp, b"\x1b[?2004l", false));
    let want: Vec<String> = b"\x1b[?2004l".iter().map(|b| format!("shell:[{b}]")).collect();
    assert_eq!(acts, want);
    let acts = describe(&feed(&mut lp, b"ab\r", false));
    assert_eq!(acts, vec!["shell:[97]", "shell:[98]", "shell:[13]"]);
}

#[test]
fn paste_end_typed_outside_a_paste_is_forwarded() {
    let mut lp = InterceptLoop::new(false, false, false);
    let acts = describe(&feed(&mut lp, b"\x1b[?2004l", false));
    assert_eq!(acts, vec!["shell:[27, 91, 63, 50, 48, 48, 52, 108]".to_string()]);
    let acts = describe(&feed(&mut lp, b"a", false));
    assert_eq!(acts, vec!["echo:[97]"]);
}

#[test]
fn passthrough_forwards_every_byte() {
    let mut lp = InterceptLoop::new(false, false, false);
    let acts = describe(&feed(&mut lp, b"q\r\x03", true));
    assert_eq!(
        acts,
        vec!["shell:[113]".to_string(), "shell:[13]".to_string(), "shell:[3]".to_string()]
    );
}

#[test]
fn other_control_bytes_go_to_shell() {
    let mut lp = InterceptLoop::new(false, false, false);
    assert_eq!(describe(&feed(&mut lp, b"\x01", false)), vec!["shell:[1]".to_string()]);
}

#[test]
fn erase_line_bytes() {
    assert_eq!(erase_line(0), Vec::<u8>::new());
    assert_eq!(erase_line(2), b"\x08 \x08\x08 \x08".to_vec());
}

#[test]
fn send_to_shell_bytes() {
    let lp = InterceptLoop::new(false, false, true);
    assert_eq!(lp.send_to_shell("ls -la"), b"ls -la\n".to_vec());
    assert_eq!(lp.send_to_shell("  "), b"  \n".to_vec());
    let lp = InterceptLoop::new(false, false, false);
    assert_eq!(lp.send_to_shell("écho"), "écho\n".as_bytes().to_vec());
}

#[test]
fn no_hist_prefixes_generated_commands_only() {
    let lp = InterceptLoop::new(true, false, true);
    assert_eq!(lp.send_to_shell("ls -la"), b"ls -la\n".to_vec());
    assert_eq!(lp.send_generated("ls -la"), b" ls -la\n".to_vec());
    assert_eq!(lp.send_generated("  "), b"  \n".to_vec());
    let plain = InterceptLoop::new(false, false, false);
    assert_eq!(plain.send_generated("ls -la"), b"ls -la\n".to_vec());
    assert_eq!(
        lp.after_confirm(ConfirmResult::Execute("du -sh".to_string())),
        Some(b" du -sh\n".to_vec())
    );
    assert_eq!(lp.after_confirm(ConfirmResult::Cancel), None);
    match lp.after_generation("show disk", Err(LlmError::Unavailable)) {
        NlAction::ToShell(b) => assert_eq!(b, b"show disk\n".to_vec()),
        _ => panic!("expected forwarding"),
    }
}

#[test]
fn handle_line_routes() {
    let off = InterceptLoop::new(true, false, false);
    assert_eq!(off.handle_line("show me things", false), LineKind::Shell);
    let on = InterceptLoop::new(false, false, false);
    assert_eq!(on.handle_line("show me things", false), LineKind::NaturalLanguage);
    assert_eq!(on.handle_line("ls -la", true), LineKind::Shell);
}

#[test]
fn after_generation_decisions() {
    let lp = InterceptLoop::new(false, false, false);
    match lp.after_generation("clean up", Ok("```\nrm -rf build\n```".to_string())) {
        NlAction::Confirm { cmd, destructive } => {
            assert_eq!(cmd, "rm -rf build");
            assert!(destructive);
        }
        _ => panic!("expected a confirmation"),
    }
    match lp.after_generation("list", Ok("ls".to_string())) {
        NlAction::Confirm { cmd, destructive } => {
            assert_eq!(cmd, "ls");
            assert!(!destructive);
        }
        _ => panic!("expected a confirmation"),
    }
    assert!(matches!(
        lp.after_generation("x", Ok("CANNOT_TRANSLATE".to_string())),
        NlAction::Untranslatable
    ));
    match lp.after_generation("show disk", Err(LlmError::Unavailable)) {
        NlAction::ToShell(b) => assert_eq!(b, b"show disk\n".to_vec()),
        _ => panic!("expected forwarding"),
    }
    match lp.after_generation("x", Err(LlmError::Other("boom".to_string()))) {
        NlAction::Report(m) => assert_eq!(m, "boom"),
        _ => panic!("expected a report"),
    }
    let dry = InterceptLoop::new(false, true, false);
    match dry.after_generation("x", Ok("du -sh".to_string())) {
        NlAction::DryRun(cmd) => assert_eq!(cmd, "du -sh"),
        _ => panic!("expected a dry run"),
    }
}

#[test]
fn alternate_screen_detection() {
    assert!(passthrough_after(b"xx\x1b[?1049hyy", false));
    assert!(!passthrough_after(b"\x1b[?1049l", true));
    assert!(!passthrough_after(b"\x1b[?1049h...\x1b[?1049l", false));
    assert!(passthrough_after(b"plain", true));
    assert!(!passthrough_after(b"plain", false));
}

#[test]
fn submitted_lines_hold_printable_ascii_only() {
    let mut lp = InterceptLoop::new(false, false, false);
    let acts = describe(&feed(&mut lp, b"a\x01b\x80c\r", false));
    assert_eq!(acts.last().unwrap(), "submit:abc");
}
