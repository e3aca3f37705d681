use nlsh::config::{Backend, NlshConfig};
use nlsh::llm::{check_available, shim_outcome, LlmError};

#[test]
fn availability_depends_on_the_configured_backend() {
    let mut cfg = NlshConfig::default();
    assert!(check_available(&cfg, true, false, false));
    assert!(!check_available(&cfg, false, true, true));
    cfg.backend = Backend::Ollama;
    assert!(check_available(&cfg, false, true, true));
    assert!(!check_available(&cfg, true, true, false));
    assert!(!check_available(&cfg, true, false, true));
}

#[test]
fn shim_outcomes() {
    match shim_outcome(true, Some(0), "", "  ls -la\n") {
        Ok(s) => assert_eq!(s, "ls -la"),
        Err(_) => panic!(),
    }
    assert!(matches!(shim_outcome(false, Some(1), "", ""), Err(LlmError::Unavailable)));
    match shim_outcome(false, Some(2), "error: guardrailViolation here", "") {
        Err(LlmError::Other(m)) => {
            assert_eq!(m, "Apple Intelligence declined to answer this request (safety filter)")
        }
        _ => panic!(),
    }
    match shim_outcome(false, Some(3), "", "") {
        Err(LlmError::Other(m)) => assert_eq!(m, "nlsh-model exited 3"),
        _ => panic!(),
    }
    match shim_outcome(false, None, "", "") {
        Err(LlmError::Other(m)) => assert_eq!(m, "nlsh-model exited -1"),
        _ => panic!(),
    }
    match shim_outcome(false, Some(i32::MIN), "", "") {
        Err(LlmError::Other(m)) => assert_eq!(m, format!("nlsh-model exited {}", i32::MIN)),
        _ => panic!(),
    }
}

#[test]
fn error_messages() {
    assert_eq!(LlmError::Unavailable.message(), "model not available");
    assert_eq!(LlmError::Other("x".to_string()).message(), "x");
}
