use nlsh::parser::clean_llm_output;

#[test]
fn plain_command() {
    assert_eq!(clean_llm_output("df -h"), Some("df -h".to_string()));
}

#[test]
fn strips_bash_fence() {
    assert_eq!(clean_llm_output("```bash\ndf -h\n```"), Some("df -h".to_string()));
}

#[test]
fn strips_plain_fence() {
    assert_eq!(clean_llm_output("```\nls -la\n```"), Some("ls -la".to_string()));
}

#[test]
fn strips_inline_backtick() {
    assert_eq!(clean_llm_output("`ls -la`"), Some("ls -la".to_string()));
}

#[test]
fn skips_explanation_line() {
    assert_eq!(
        clean_llm_output("Here is the command to show disk usage:\ndf -h"),
        Some("df -h".to_string())
    );
}

#[test]
fn cannot_translate_returns_none() {
    assert_eq!(clean_llm_output("CANNOT_TRANSLATE"), None);
}

#[test]
fn empty_returns_none() {
    assert_eq!(clean_llm_output(""), None);
    assert_eq!(clean_llm_output("   "), None);
}

#[test]
fn pipeline() {
    assert_eq!(
        clean_llm_output("find . -type f | sort -k5 -n"),
        Some("find . -type f | sort -k5 -n".to_string())
    );
}

#[test]
fn parser_handles_verbose_output() {
    let verbose = "To list files sorted by size on macOS, use:\n\
                   ```bash\n\
                   ls -lS\n\
                   ```\n\
                   The `-S` flag sorts by file size, largest first.";
    assert_eq!(clean_llm_output(verbose), Some("ls -lS".to_string()));

    let with_preamble = "Here is the command:\ndu -sh *";
    assert_eq!(clean_llm_output(with_preamble), Some("du -sh *".to_string()));

    let plain = "find . -mtime -1";
    assert_eq!(clean_llm_output(plain), Some("find . -mtime -1".to_string()));
}

#[test]
fn falls_back_to_first_line_when_none_looks_like_a_command() {
    assert_eq!(
        clean_llm_output("Sorry\nI cannot help"),
        Some("Sorry".to_string())
    );
}

#[test]
fn fence_without_closing_keeps_content() {
    assert_eq!(clean_llm_output("```sh\nls -la"), Some("ls -la".to_string()));
}

#[test]
fn fence_on_one_line_keeps_what_precedes_the_close() {
    assert_eq!(clean_llm_output("```bash```"), Some("bash".to_string()));
    assert_eq!(clean_llm_output("```\n```"), None);
}

#[test]
fn picks_line_with_pipe_even_if_capitalised() {
    assert_eq!(
        clean_llm_output("Explanation first\nPS aux | grep x"),
        Some("PS aux | grep x".to_string())
    );
}

#[test]
fn windows_line_endings_are_trimmed() {
    assert_eq!(clean_llm_output("Answer:\r\nls -la\r\n"), Some("ls -la".to_string()));
}

#[test]
fn two_backticks_are_not_stripped() {
    assert_eq!(clean_llm_output("``"), Some("``".to_string()));
}

#[test]
fn lowercase_non_ascii_start_counts_as_command() {
    // 'é' is lowercase, so the second line is chosen over the first.
    assert_eq!(clean_llm_output("Note\nécho x"), Some("écho x".to_string()));
}

#[test]
fn plain_command_comes_back_unchanged() {
    for cmd in ["Get-ChildItem", "du -sh *", "x", "ls | wc -l"] {
        assert_eq!(clean_llm_output(cmd), Some(cmd.to_string()));
    }
}

#[test]
fn result_is_one_trimmed_line() {
    for raw in ["  a\n b\n", "```\n  x y  \n```", "\n\n  hello world  ", "`  z `"] {
        if let Some(cmd) = clean_llm_output(raw) {
            assert!(!cmd.contains('\n'));
            assert_eq!(cmd.trim(), cmd);
            assert!(!cmd.is_empty());
        }
    }
}
