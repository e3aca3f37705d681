use nlsh::confirm::{edited_command, key_choice, prompt_text, KeyChoice};

#[test]
fn keys() {
    assert_eq!(key_choice(b'\r'), KeyChoice::Run);
    assert_eq!(key_choice(b'\n'), KeyChoice::Run);
    assert_eq!(key_choice(b'y'), KeyChoice::Run);
    assert_eq!(key_choice(b'e'), KeyChoice::Edit);
    assert_eq!(key_choice(b'E'), KeyChoice::Edit);
    assert_eq!(key_choice(b'n'), KeyChoice::Cancel);
    assert_eq!(key_choice(0x1b), KeyChoice::Cancel);
}

#[test]
fn prompt_texts() {
    assert_eq!(
        prompt_text("ls", false),
        "\r\x1b[2K  \x1b[1;32m❯\x1b[0m ls  \x1b[2m[enter=run  e=edit  n=cancel]\x1b[0m"
    );
    assert_eq!(
        prompt_text("rm -rf x", true),
        "\r\x1b[2K  \x1b[1;31m⚠ DESTRUCTIVE:\x1b[0m rm -rf x  \x1b[2m[enter=run  e=edit  n=cancel]\x1b[0m"
    );
}

#[test]
fn edited_commands() {
    assert_eq!(edited_command("  ls -la \n"), Some("ls -la".to_string()));
    assert_eq!(edited_command(" \n\t"), None);
}
