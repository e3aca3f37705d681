//! The model backends: whether the configured one is ready, and what its
//! answer means.
//!
//! The Apple Intelligence backend is the `nlsh-model` helper program; the
//! Ollama backend is a local HTTP server (see `ollama`). Running them is
//! left to the program around this crate, which hands back what it saw.
use vstd::prelude::*;
use crate::config::{Backend, NlshConfig};
use crate::text::{
    chars_of, contains_chars, contains_seq, decimal_int, decimal_int_string, trim, trimmed,
};

verus! {

/// Why the model gave no answer.
#[derive(Debug)]
pub enum LlmError {
    /// The configured backend is not available on this device or not
    /// running.
    Unavailable,
    /// Anything else, with its message.
    Other(String),
}

/// The mathematical form of an `LlmError`.
pub enum LlmErrorModel {
    Unavailable,
    Other(Seq<char>),
}

impl View for LlmError {
    type V = LlmErrorModel;

    open spec fn view(&self) -> LlmErrorModel {
        match self {
            LlmError::Unavailable => LlmErrorModel::Unavailable,
            LlmError::Other(m) => LlmErrorModel::Other(m@),
        }
    }
}

/// The view of a model answer.
pub open spec fn answer_view(r: Result<String, LlmError>) -> Result<Seq<char>, LlmErrorModel> {
    match r {
        Ok(s) => Ok(s@),
        Err(e) => Err(e@),
    }
}

/// How an `LlmError` reads in a message.
pub open spec fn error_message(e: LlmErrorModel) -> Seq<char> {
    match e {
        LlmErrorModel::Unavailable => "model not available"@,
        LlmErrorModel::Other(m) => m,
    }
}

impl LlmError {
    /// The message that describes the error.
    pub fn message(&self) -> (r: String)
        ensures
            r@ == error_message(self@),
    {
        match self {
            LlmError::Unavailable => String::from_str("model not available"),
            LlmError::Other(m) => m.clone(),
        }
    }
}

/// Whether a backend is ready: for Apple Intelligence, that the helper's
/// check passed; for Ollama, that the server runs and has the model.
pub open spec fn available_spec(
    backend: Backend,
    apple_shim_ok: bool,
    ollama_running: bool,
    ollama_has_model: bool,
) -> bool {
    match backend {
        Backend::Apple => apple_shim_ok,
        Backend::Ollama => ollama_running && ollama_has_model,
    }
}

/// Whether the configured backend is ready, given what the probes of the
/// backends found: `apple_shim_ok`, that `nlsh-model --check` succeeded;
/// `ollama_running`, that the server answered; `ollama_has_model`, that it
/// lists the configured model. Only the probes of the configured backend
/// matter.
pub fn check_available(
    config: &NlshConfig,
    apple_shim_ok: bool,
    ollama_running: bool,
    ollama_has_model: bool,
) -> (r: bool)
    ensures
        r == available_spec(config.backend, apple_shim_ok, ollama_running, ollama_has_model),
{
    match config.backend {
        Backend::Apple => apple_shim_ok,
        Backend::Ollama => ollama_running && ollama_has_model,
    }
}

/// The marker of the helper's safety filter in its error output.
pub open spec fn guardrail_marker() -> Seq<char> {
    "guardrailViolation"@
}

/// What the answer of the `nlsh-model` helper means: on success, its
/// output trimmed. On failure (with exit code `code`, -1 when it has
/// none): code 1 means Apple Intelligence is unavailable; a safety-filter
/// marker in `stderr` means the request was declined; any other failure
/// is reported with its code.
pub open spec fn shim_outcome_spec(
    success: bool,
    code: Option<i32>,
    stderr: Seq<char>,
    stdout: Seq<char>,
) -> Result<Seq<char>, LlmErrorModel> {
    let c: int = match code {
        Some(c) => c as int,
        None => -1,
    };
    if success {
        Ok(trim(stdout))
    } else if c == 1 {
        Err(LlmErrorModel::Unavailable)
    } else if contains_seq(stderr, guardrail_marker()) {
        Err(
            LlmErrorModel::Other(
                "Apple Intelligence declined to answer this request (safety filter)"@,
            ),
        )
    } else {
        Err(LlmErrorModel::Other("nlsh-model exited "@ + decimal_int(c)))
    }
}

/// What the `nlsh-model` helper answered, from whether it succeeded, its
/// exit code, and its error and standard output.
pub fn shim_outcome(success: bool, code: Option<i32>, stderr: &str, stdout: &str) -> (r: Result<
    String,
    LlmError,
>)
    ensures
        answer_view(r) == shim_outcome_spec(success, code, stderr@, stdout@),
{
    if success {
        return Ok(trimmed(stdout));
    }
    let c: i32 = match code {
        Some(c) => c,
        None => -1,
    };
    if c == 1 {
        return Err(LlmError::Unavailable);
    }
    let err_chars = chars_of(stderr);
    let marker = chars_of("guardrailViolation");
    if contains_chars(&err_chars, &marker) {
        return Err(
            LlmError::Other(
                String::from_str("Apple Intelligence declined to answer this request (safety filter)"),
            ),
        );
    }
    let mut msg = String::from_str("nlsh-model exited ");
    msg.append(decimal_int_string(c).as_str());
    Err(LlmError::Other(msg))
}

/// Law: what the helper's answer means. Success gives its output
/// trimmed. A failure with exit code 1 means Apple Intelligence is
/// unavailable; another failure whose error output holds
/// `guardrailViolation` was declined by the safety filter; any other
/// failure is reported as `nlsh-model exited ` and the code (-1 when the
/// process had none).
pub proof fn law_shim_outcome(code: Option<i32>, stderr: Seq<char>, stdout: Seq<char>)
    ensures
        shim_outcome_spec(true, code, stderr, stdout) == Ok::<Seq<char>, LlmErrorModel>(trim(stdout)),
        code == Some(1i32) ==> shim_outcome_spec(false, code, stderr, stdout) == Err::<
            Seq<char>,
            LlmErrorModel,
        >(LlmErrorModel::Unavailable),
        code != Some(1i32) && contains_seq(stderr, "guardrailViolation"@) ==> shim_outcome_spec(
            false,
            code,
            stderr,
            stdout,
        ) == Err::<Seq<char>, LlmErrorModel>(
            LlmErrorModel::Other("Apple Intelligence declined to answer this request (safety filter)"@),
        ),
        code != Some(1i32) && !contains_seq(stderr, "guardrailViolation"@) ==> shim_outcome_spec(
            false,
            code,
            stderr,
            stdout,
        ) == Err::<Seq<char>, LlmErrorModel>(
            LlmErrorModel::Other(
                "nlsh-model exited "@ + decimal_int(
                    match code {
                        Some(c) => c as int,
                        None => -1,
                    },
                ),
            ),
        ),
{
}

/// Law: Apple Intelligence is ready exactly when its helper works; Ollama
/// exactly when the server runs and has the configured model.
pub proof fn law_availability(shim: bool, running: bool, has_model: bool)
    ensures
        available_spec(Backend::Apple, shim, running, has_model) == shim,
        available_spec(Backend::Ollama, shim, running, has_model) == (running && has_model),
        error_message(LlmErrorModel::Unavailable) == "model not available"@,
{
}

} // verus!
