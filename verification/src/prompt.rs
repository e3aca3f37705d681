//! The prompt sent to the model for a request in plain English.
use vstd::prelude::*;

verus! {

/// Where the user stands when making a request.
pub struct ShellContext {
    /// The current directory, as displayed.
    pub cwd: String,
    /// The user's login name.
    pub user: String,
}

/// The instructions that open the prompt, up to the current directory.
pub open spec fn prompt_head() -> Seq<char> {
    "You are a shell command translator. The user is in a zsh session on macOS.\nCurrent directory: "@
}

/// The text between the current directory and the user name.
pub open spec fn prompt_user() -> Seq<char> {
    "\nUser: "@
}

/// The rules of the answer, between the user name and the request.
pub open spec fn prompt_rules() -> Seq<char> {
    "\n\nRules:\n- Respond with ONLY a single shell command. No explanation. No markdown. No alternatives.\n- Do not wrap the command in backticks or code fences.\n- Use macOS-compatible commands (e.g. ifconfig not ip, stat -f not stat -c).\n- If the request is ambiguous, prefer the safest interpretation.\n- If the request cannot be translated to a single shell command, output exactly: CANNOT_TRANSLATE\n\nUser request: "@
}

/// The prompt for `request` made in the context `(cwd, user)`.
pub open spec fn prompt_spec(request: Seq<char>, cwd: Seq<char>, user: Seq<char>) -> Seq<char> {
    prompt_head() + cwd + prompt_user() + user + prompt_rules() + request
}

/// The prompt that asks the model to translate `request`, made in the
/// context `ctx`, into one shell command.
pub fn build_prompt(request: &str, ctx: &ShellContext) -> (r: String)
    ensures
        r@ == prompt_spec(request@, ctx.cwd@, ctx.user@),
{
    let mut s = String::from_str(
        "You are a shell command translator. The user is in a zsh session on macOS.\nCurrent directory: ",
    );
    s.append(ctx.cwd.as_str());
    s.append("\nUser: ");
    s.append(ctx.user.as_str());
    s.append(
        "\n\nRules:\n- Respond with ONLY a single shell command. No explanation. No markdown. No alternatives.\n- Do not wrap the command in backticks or code fences.\n- Use macOS-compatible commands (e.g. ifconfig not ip, stat -f not stat -c).\n- If the request is ambiguous, prefer the safest interpretation.\n- If the request cannot be translated to a single shell command, output exactly: CANNOT_TRANSLATE\n\nUser request: ",
    );
    s.append(request);
    s
}

/// Law: the request comes last, after a part that does not depend on it:
/// the prompt for any request is the prompt for an empty request followed
/// by the request; that part names the directory and the user, and asks
/// for `CANNOT_TRANSLATE` when there is no single command.
pub proof fn law_request_comes_last(request: Seq<char>, cwd: Seq<char>, user: Seq<char>)
    ensures
        prompt_spec(request, cwd, user) == prompt_spec(Seq::empty(), cwd, user) + request,
        prompt_spec(Seq::empty(), cwd, user) == "You are a shell command translator. The user is in a zsh session on macOS.\nCurrent directory: "@
            + cwd + "\nUser: "@ + user + prompt_rules(),
        prompt_rules() == "\n\nRules:\n- Respond with ONLY a single shell command. No explanation. No markdown. No alternatives.\n- Do not wrap the command in backticks or code fences.\n- Use macOS-compatible commands (e.g. ifconfig not ip, stat -f not stat -c).\n- If the request is ambiguous, prefer the safest interpretation.\n- If the request cannot be translated to a single shell command, output exactly: CANNOT_TRANSLATE\n\nUser request: "@,
{
    assert(prompt_spec(Seq::empty(), cwd, user) + request =~= prompt_spec(request, cwd, user));
}

} // verus!
