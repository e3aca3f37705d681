use nlsh::config::Backend;
use nlsh::setup::{
    brew_outcome, homebrew_bin, install_plan, path_with_prefix, start_step, BrewOutcome, InstallPlan,
    StartStep,
    backend_menu_start, backend_menu_step, backend_screen, decode_key, default_shell_answer,
    draw_header, edit_name, model_menu_step, model_screen, model_tag, shells_list, Key, MenuStep,
    ModelChoice, NameStep, SetupAction, SetupEvent, SetupFlow,
};

#[test]
fn key_decoding() {
    assert_eq!(decode_key(b'\r', &[]), Some(Key::Enter));
    assert_eq!(decode_key(0x1b, b"[A"), Some(Key::Up));
    assert_eq!(decode_key(0x1b, b"[B"), Some(Key::Down));
    assert_eq!(decode_key(0x1b, b"[C"), Some(Key::Escape));
    assert_eq!(decode_key(0x1b, b"["), Some(Key::Escape));
    assert_eq!(decode_key(0x1b, &[]), Some(Key::Escape));
    assert_eq!(decode_key(0x03, &[]), Some(Key::Char('q')));
    assert_eq!(decode_key(b'Q', &[]), Some(Key::Char('q')));
    assert_eq!(decode_key(b'1', &[]), Some(Key::Char('1')));
    assert_eq!(decode_key(b' ', &[]), None);
    assert_eq!(decode_key(0x7f, &[]), None);
}

#[test]
fn backend_menu() {
    assert_eq!(backend_menu_start(true), 0);
    assert_eq!(backend_menu_start(false), 1);
    assert_eq!(backend_menu_step(0, true, Some(Key::Down)), MenuStep::Select(1));
    assert_eq!(backend_menu_step(1, true, Some(Key::Down)), MenuStep::Select(0));
    assert_eq!(backend_menu_step(0, true, Some(Key::Up)), MenuStep::Select(1));
    assert_eq!(backend_menu_step(1, false, Some(Key::Up)), MenuStep::Select(1));
    assert_eq!(backend_menu_step(1, false, Some(Key::Down)), MenuStep::Select(1));
    assert_eq!(backend_menu_step(1, false, Some(Key::Char('1'))), MenuStep::Select(1));
    assert_eq!(backend_menu_step(1, true, Some(Key::Char('1'))), MenuStep::Done(Backend::Apple));
    assert_eq!(backend_menu_step(0, true, Some(Key::Char('2'))), MenuStep::Done(Backend::Ollama));
    assert_eq!(backend_menu_step(0, true, Some(Key::Enter)), MenuStep::Done(Backend::Apple));
    assert_eq!(backend_menu_step(0, true, Some(Key::Escape)), MenuStep::Cancel);
    assert_eq!(backend_menu_step(0, true, Some(Key::Char('q'))), MenuStep::Cancel);
    assert_eq!(backend_menu_step(0, true, None), MenuStep::Select(0));
}

#[test]
fn model_menu() {
    assert_eq!(model_menu_step(0, Some(Key::Down)), MenuStep::Select(1));
    assert_eq!(model_menu_step(1, Some(Key::Down)), MenuStep::Select(2));
    assert_eq!(model_menu_step(2, Some(Key::Down)), MenuStep::Select(0));
    assert_eq!(model_menu_step(1, Some(Key::Up)), MenuStep::Select(0));
    assert_eq!(model_menu_step(0, Some(Key::Up)), MenuStep::Select(2));
    assert_eq!(model_menu_step(1, Some(Key::Enter)), MenuStep::Done(1));
    assert_eq!(model_menu_step(1, Some(Key::Char('1'))), MenuStep::Done(0));
    assert_eq!(model_menu_step(0, Some(Key::Char('3'))), MenuStep::Done(2));
    assert_eq!(model_menu_step(0, Some(Key::Escape)), MenuStep::Back);
    assert_eq!(model_menu_step(0, Some(Key::Char('q'))), MenuStep::Cancel);
    assert_eq!(model_menu_step(2, Some(Key::Char('x'))), MenuStep::Select(2));
    assert_eq!(model_tag(0), "qwen2.5-coder:1.5b");
    assert_eq!(model_tag(1), "qwen2.5-coder:3b");
}

#[test]
fn model_name_typing() {
    let mut name: Vec<u8> = Vec::new();
    assert_eq!(edit_name(&mut name, b'\r', &[]), NameStep::Typing);
    for &b in b"llama3:8b" {
        assert_eq!(edit_name(&mut name, b, &[]), NameStep::Typing);
    }
    assert_eq!(edit_name(&mut name, b'x', &[]), NameStep::Typing);
    assert_eq!(edit_name(&mut name, 0x7f, &[]), NameStep::Typing);
    assert_eq!(edit_name(&mut name, b' ', &[]), NameStep::Typing);
    assert_eq!(edit_name(&mut name, 0x1b, b"[A"), NameStep::Typing);
    assert_eq!(name, b"llama3:8b".to_vec());
    assert_eq!(edit_name(&mut name, b'\r', &[]), NameStep::Done);
    assert_eq!(edit_name(&mut name, 0x1b, &[]), NameStep::Back);
    assert_eq!(edit_name(&mut name, 0x03, &[]), NameStep::Cancel);
    assert_eq!(edit_name(&mut name, b'q', &[]), NameStep::Typing);
    assert_eq!(name, b"llama3:8bq".to_vec());
}

#[test]
fn menu_screens() {
    let b = backend_screen(1, false);
    assert!(b.starts_with(&draw_header()));
    assert!(b.contains("  Choose an AI backend:\r\n\r\n"));
    assert!(b.contains(
        "    \x1b[2m1  Apple Intelligence  on-device, no download  (unavailable on this device)\x1b[0m\r\n"
    ));
    assert!(b.contains(
        "  \x1b[36m▶\x1b[0m 2  \x1b[1mOllama local model\x1b[0m  \x1b[2m~986 MB download\x1b[0m\r\n"
    ));
    assert!(b.ends_with("\r\n  \x1b[2m[↑↓ / 1-2] navigate   [Enter] confirm   [q] quit\x1b[0m\r\n"));
    let b = backend_screen(0, true);
    assert!(b.contains(
        "  \x1b[36m▶\x1b[0m 1  \x1b[1mApple Intelligence\x1b[0m  \x1b[2mon-device, no download\x1b[0m\r\n"
    ));
    let m = model_screen(0);
    assert_eq!(
        m,
        format!(
            "{}  Select model:\r\n\r\n  \x1b[36m▶\x1b[0m 1  \x1b[1mqwen2.5-coder:1.5b\x1b[0m  \x1b[2m~986 MB\x1b[0m  \x1b[32mrecommended\x1b[0m\r\n    2  qwen2.5-coder:3b  \x1b[2m~2.0 GB\x1b[0m  \x1b[2mhigher quality\x1b[0m\r\n    3  Enter custom model name...\r\n\r\n  \x1b[2m[↑↓ / 1-3] navigate   [Enter] confirm   [Esc] back\x1b[0m\r\n",
            draw_header()
        )
    );
    assert!(model_screen(2).contains("  \x1b[36m▶\x1b[0m 3  \x1b[1mEnter custom model name...\x1b[0m\r\n"));
}

#[test]
fn default_shell_answers() {
    assert_eq!(default_shell_answer(Some(Key::Char('y'))), Some(true));
    assert_eq!(default_shell_answer(Some(Key::Char('N'))), Some(false));
    assert_eq!(default_shell_answer(Some(Key::Enter)), Some(false));
    assert_eq!(default_shell_answer(Some(Key::Char('x'))), None);
    assert_eq!(default_shell_answer(None), None);
}

#[test]
fn etc_shells_lookup() {
    let shells = "# List of acceptable shells\n/bin/bash\n  /usr/local/bin/nlsh  \n/bin/zsh";
    assert!(shells_list(shells, "/usr/local/bin/nlsh"));
    assert!(shells_list(shells, "/bin/zsh"));
    assert!(!shells_list(shells, "/usr/local/bin/nls"));
    assert!(!shells_list("", "/bin/sh"));
}

#[test]
fn appended_shell_entry_is_listed() {
    for shells in ["", "/bin/bash\n", "# comment\n/bin/zsh\n"] {
        assert!(!shells_list(shells, "/usr/local/bin/nlsh"));
        let after = format!("{shells}/usr/local/bin/nlsh\n");
        assert!(shells_list(&after, "/usr/local/bin/nlsh"));
    }
}

#[test]
fn header_text() {
    let h = draw_header();
    assert!(h.contains("nlsh · model setup"));
    assert_eq!(h.matches("\r\n").count(), 4);
}

#[test]
fn setup_flow_apple() {
    let mut f = SetupFlow::new();
    assert!(matches!(f.run_setup(SetupEvent::Begin), SetupAction::CheckAppleShim));
    assert!(matches!(f.run_setup(SetupEvent::ShimChecked(true)), SetupAction::SelectBackend(true)));
    match f.run_setup(SetupEvent::BackendChosen(Backend::Apple)) {
        SetupAction::SaveConfig(c) => {
            assert_eq!(c.backend, Backend::Apple);
            assert_eq!(c.ollama_model, "qwen2.5-coder:1.5b");
        }
        _ => panic!(),
    }
    assert!(matches!(f.run_setup(SetupEvent::Saved), SetupAction::OfferDefaultShell));
    match f.run_setup(SetupEvent::ShellOffered) {
        SetupAction::Finish(c) => assert_eq!(c.backend, Backend::Apple),
        _ => panic!(),
    }
}

#[test]
fn setup_flow_ollama_pulls_missing_model() {
    let mut f = SetupFlow::new();
    f.run_setup(SetupEvent::Begin);
    f.run_setup(SetupEvent::ShimChecked(false));
    assert!(matches!(
        f.run_setup(SetupEvent::BackendChosen(Backend::Ollama)),
        SetupAction::EnsureOllamaInstalled
    ));
    assert!(matches!(f.run_setup(SetupEvent::OllamaInstalled), SetupAction::SelectModel));
    match f.run_setup(SetupEvent::ModelChosen(ModelChoice::Offered(1))) {
        SetupAction::EnsureOllamaRunning(u) => assert_eq!(u, "http://localhost:11434"),
        _ => panic!(),
    }
    assert!(matches!(f.run_setup(SetupEvent::OllamaRunning), SetupAction::CheckModel));
    assert!(matches!(f.run_setup(SetupEvent::ModelPresent(false)), SetupAction::PullModel));
    match f.run_setup(SetupEvent::ModelPulled) {
        SetupAction::SaveConfig(c) => {
            assert_eq!(c.backend, Backend::Ollama);
            assert_eq!(c.ollama_model, "qwen2.5-coder:3b");
            assert_eq!(c.ollama_url, "http://localhost:11434");
        }
        _ => panic!(),
    }
    assert!(matches!(f.run_setup(SetupEvent::ModelPulled), SetupAction::Abort));
}

#[test]
fn escape_on_model_menu_goes_back_to_backends() {
    let mut f = SetupFlow::new();
    f.run_setup(SetupEvent::Begin);
    f.run_setup(SetupEvent::ShimChecked(true));
    f.run_setup(SetupEvent::BackendChosen(Backend::Ollama));
    assert!(matches!(f.run_setup(SetupEvent::OllamaInstalled), SetupAction::SelectModel));
    assert!(matches!(f.run_setup(SetupEvent::ModelMenuBack), SetupAction::SelectBackend(true)));
    match f.run_setup(SetupEvent::BackendChosen(Backend::Apple)) {
        SetupAction::SaveConfig(c) => assert_eq!(c.backend, Backend::Apple),
        _ => panic!(),
    }
    assert!(matches!(f.run_setup(SetupEvent::Saved), SetupAction::OfferDefaultShell));
    match f.run_setup(SetupEvent::ShellOffered) {
        SetupAction::Finish(c) => assert_eq!(c.backend, Backend::Apple),
        _ => panic!(),
    }
}

#[test]
fn custom_model_name_is_recorded() {
    let mut f = SetupFlow::new();
    f.run_setup(SetupEvent::Begin);
    f.run_setup(SetupEvent::ShimChecked(false));
    f.run_setup(SetupEvent::BackendChosen(Backend::Ollama));
    f.run_setup(SetupEvent::OllamaInstalled);
    assert!(matches!(
        f.run_setup(SetupEvent::ModelChosen(ModelChoice::Custom(String::new()))),
        SetupAction::SelectModel
    ));
    assert!(matches!(
        f.run_setup(SetupEvent::ModelChosen(ModelChoice::Custom("llama3:8b".to_string()))),
        SetupAction::EnsureOllamaRunning(_)
    ));
    assert_eq!(f.config.ollama_model, "llama3:8b");
    assert_eq!(f.config.backend, Backend::Ollama);
    f.run_setup(SetupEvent::OllamaRunning);
    match f.run_setup(SetupEvent::ModelPresent(true)) {
        SetupAction::SaveConfig(c) => assert_eq!(c.ollama_model, "llama3:8b"),
        _ => panic!(),
    }
}

#[test]
fn offered_model_number_out_of_range_stops() {
    let mut f = SetupFlow::new();
    f.run_setup(SetupEvent::Begin);
    f.run_setup(SetupEvent::ShimChecked(true));
    f.run_setup(SetupEvent::BackendChosen(Backend::Ollama));
    f.run_setup(SetupEvent::OllamaInstalled);
    assert!(matches!(
        f.run_setup(SetupEvent::ModelChosen(ModelChoice::Offered(2))),
        SetupAction::Abort
    ));
}

#[test]
fn ollama_install_decisions() {
    assert_eq!(install_plan(true, false), InstallPlan::Present);
    assert_eq!(install_plan(true, true), InstallPlan::Present);
    assert_eq!(install_plan(false, false), InstallPlan::NoHomebrew);
    assert_eq!(install_plan(false, true), InstallPlan::ViaHomebrew);
    assert_eq!(brew_outcome(false, true), BrewOutcome::Failed);
    assert_eq!(brew_outcome(true, true), BrewOutcome::Installed);
    assert_eq!(brew_outcome(true, false), BrewOutcome::InstalledAddPath);
    assert_eq!(homebrew_bin(true), "/opt/homebrew/bin");
    assert_eq!(homebrew_bin(false), "/usr/local/bin");
    assert_eq!(path_with_prefix("/opt/homebrew/bin", "/usr/bin:/bin"), "/opt/homebrew/bin:/usr/bin:/bin");
    assert_eq!(path_with_prefix("/usr/local/bin", ""), "/usr/local/bin:");
}

#[test]
fn ollama_start_waits_ten_checks() {
    assert_eq!(start_step(1, true), StartStep::Ready);
    assert_eq!(start_step(1, false), StartStep::StartServer);
    let mut waits = 0;
    let mut checks = 1u32;
    loop {
        checks += 1;
        match start_step(checks, false) {
            StartStep::Wait => waits += 1,
            StartStep::GiveUp => break,
            other => panic!("{other:?}"),
        }
    }
    // Ten checks after the start: nine waits, then the tenth gives up.
    assert_eq!(waits, 9);
    assert_eq!(checks, 11);
    assert_eq!(start_step(7, true), StartStep::Ready);
}
