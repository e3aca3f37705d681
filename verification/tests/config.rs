use nlsh::config::{Backend, NlshConfig};

#[test]
fn round_trip_apple() {
    let cfg = NlshConfig {
        backend: Backend::Apple,
        ollama_model: "qwen2.5-coder:1.5b".to_string(),
        ollama_url: "http://localhost:11434".to_string(),
    };
    let content = cfg.render_config();
    let out = NlshConfig::parse_config(&content).unwrap();
    assert_eq!(out.backend, Backend::Apple);
    assert_eq!(out.ollama_model, "qwen2.5-coder:1.5b");
}

#[test]
fn round_trip_ollama() {
    let content = "backend = \"ollama\"\nollama_model = \"qwen2.5-coder:3b\"\nollama_url = \"http://localhost:11434\"\n";
    let cfg = NlshConfig::parse_config(content).unwrap();
    assert_eq!(cfg.backend, Backend::Ollama);
    assert_eq!(cfg.ollama_model, "qwen2.5-coder:3b");
}

#[test]
fn render_text_is_exact() {
    let cfg = NlshConfig {
        backend: Backend::Ollama,
        ollama_model: "m".to_string(),
        ollama_url: "u".to_string(),
    };
    assert_eq!(
        cfg.render_config(),
        "# nlsh configuration\nbackend = \"ollama\"\nollama_model = \"m\"\nollama_url = \"u\"\n"
    );
}

#[test]
fn round_trip_any_clean_values() {
    for (b, m, u) in [
        (Backend::Ollama, "llama3:8b", "http://127.0.0.1:9999"),
        (Backend::Apple, "", ""),
        (Backend::Ollama, "a = b", "x\"y"),
        (Backend::Apple, "  padded model ", " \t http://h "),
        (Backend::Ollama, "   ", "a\rb"),
    ] {
        let cfg = NlshConfig { backend: b, ollama_model: m.to_string(), ollama_url: u.to_string() };
        let back = NlshConfig::parse_config(&cfg.render_config()).unwrap();
        assert_eq!(back.backend, b);
        assert_eq!(back.ollama_model, m);
        assert_eq!(back.ollama_url, u);
    }
}

#[test]
fn defaults_when_empty() {
    let cfg = NlshConfig::parse_config("").unwrap();
    let d = NlshConfig::default();
    assert_eq!(cfg.backend, Backend::Apple);
    assert_eq!(cfg.ollama_model, d.ollama_model);
    assert_eq!(cfg.ollama_url, "http://localhost:11434");
    assert_eq!(d.ollama_model, "qwen2.5-coder:1.5b");
}

#[test]
fn comments_unknown_keys_and_junk_are_ignored() {
    let cfg = NlshConfig::parse_config(
        "# backend = \"ollama\"\ncolour = \"red\"\njust words\n  ollama_url=  \"\"http://h\"\"  \r\n",
    )
    .unwrap();
    assert_eq!(cfg.backend, Backend::Apple);
    assert_eq!(cfg.ollama_url, "http://h");
}

#[test]
fn unknown_backend_means_first_run() {
    assert!(NlshConfig::parse_config("backend = \"gpt\"\n").is_none());
    assert!(NlshConfig::parse_config("backend = \"ollama\"\nbackend = \"other\"\n").is_none());
    assert!(NlshConfig::parse_config("backend =\n").is_none());
    let cfg = NlshConfig::parse_config("backend = \"ollama\"\nbackend = apple\n").unwrap();
    assert_eq!(cfg.backend, Backend::Apple);
    assert!(NlshConfig::parse_config("# backend = \"gpt\"\n").is_some());
}

#[test]
fn backend_names() {
    assert_eq!(Backend::Apple.as_str(), "apple");
    assert_eq!(Backend::Ollama.as_str(), "ollama");
    assert_eq!(Backend::Apple.label(), "Apple Intelligence");
    assert_eq!(Backend::Ollama.label(), "Ollama");
}
