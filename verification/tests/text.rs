use nlsh::prompt::{build_prompt, ShellContext};
use nlsh::text::{decimal_int_string, decimal_string, is_whitespace, trimmed};

#[test]
fn whitespace_matches_std_everywhere() {
    for u in 0u32..=0x10FFFF {
        if let Some(c) = char::from_u32(u) {
            assert_eq!(is_whitespace(c), c.is_whitespace(), "{u:#x}");
        }
    }
}

#[test]
fn trimming_matches_std() {
    for s in ["", "  ", " a b ", "\u{3000}x\u{85}", "\r\nx\t"] {
        assert_eq!(trimmed(s), s.trim());
    }
}

#[test]
fn numerals() {
    assert_eq!(decimal_string(0), "0");
    assert_eq!(decimal_string(1234567890), "1234567890");
    assert_eq!(decimal_string(u64::MAX), u64::MAX.to_string());
    assert_eq!(decimal_int_string(-42), "-42");
    assert_eq!(decimal_int_string(i32::MIN), i32::MIN.to_string());
}

#[test]
fn prompt_text() {
    let ctx = ShellContext { cwd: "/home/me".to_string(), user: "me".to_string() };
    let p = build_prompt("list files", &ctx);
    assert!(p.starts_with(
        "You are a shell command translator. The user is in a zsh session on macOS.\nCurrent directory: /home/me\nUser: me\n\nRules:\n"
    ));
    assert!(p.contains("- If the request cannot be translated to a single shell command, output exactly: CANNOT_TRANSLATE\n\n"));
    assert!(p.ends_with("User request: list files"));
}
