//! The Ollama backend: the requests sent to a local Ollama server and the
//! reading of its answers. The HTTP exchange itself is left to the program
//! around this crate.
use vstd::prelude::*;
use crate::llm::{LlmError, LlmErrorModel, answer_view};
use crate::text::{
    chars_at, chars_of, contains_seq, decimal, is_digit, is_whitespace, is_ws,
    lemma_decimal, lemma_numeral_prefix, lemma_trim_start_at, numeral_value, occurs_at, opt_view,
    trim, trim_start, trimmed,
};

verus! {

/// The address of an endpoint of the server at `url`.
pub open spec fn endpoint_spec(url: Seq<char>, path: Seq<char>) -> Seq<char> {
    url + path
}

/// The address of the endpoint `path` (such as `/api/tags`) of the server
/// at `url`.
pub fn endpoint(url: &str, path: &str) -> (r: String)
    ensures
        r@ == endpoint_spec(url@, path@),
{
    let mut s = String::from_str(url);
    s.append(path);
    s
}

/// What reading the answer `body` of the `/api/tags` endpoint as JSON
/// gives: `None` when it is not JSON or has no `models` array; else, for
/// each entry of that array in order, its `name` field when that is a
/// string.
pub uninterp spec fn json_model_names(body: Seq<char>) -> Option<Seq<Option<Seq<char>>>>;

/// The names of a list of entries, taken by view.
pub open spec fn names_view(names: Seq<Option<String>>) -> Seq<Option<Seq<char>>> {
    names.map_values(|n: Option<String>| opt_view(n))
}

/// Calls `serde_json::from_str::<serde_json::Value>` on `body`, takes its
/// `models` field with `Value::get` and `Value::as_array`, and for each
/// entry its `name` field with `Value::get` and `Value::as_str`. Claimed:
/// `None` exactly when `json_model_names(body@)` is `None`, otherwise the
/// names it gives, in order; a function of the body alone.
#[verifier::external_body]
fn json_model_names_of(body: &str) -> (r: Option<Vec<Option<String>>>)
    ensures
        match r {
            Some(v) => json_model_names(body@) == Some(names_view(v@)),
            None => json_model_names(body@) is None,
        },
{
    let v = serde_json::from_str::<serde_json::Value>(body).ok()?;
    let models = v.get("models")?.as_array()?;
    Some(models.iter().map(|m| m.get("name").and_then(|x| x.as_str()).map(|t| t.to_string())).collect())
}

/// Whether the model names `names` of the server's list include `model`.
pub fn names_include(names: &Vec<Option<String>>, model: &str) -> (r: bool)
    ensures
        r == names_view(names@).contains(Some(model@)),
{
    let m = String::from_str(model);
    let mut i: usize = 0;
    while i < names.len()
        invariant
            i <= names@.len(),
            m@ == model@,
            forall|j: int| 0 <= j < i ==> names_view(names@)[j] != Some(model@),
        decreases names@.len() - i,
    {
        match &names[i] {
            Some(n) => {
                if n.eq(&m) {
                    assert(names_view(names@)[i as int] == Some(model@));
                    return true;
                }
            },
            None => {},
        }
        i = i + 1;
    }
    false
}

/// Whether the answer `body` of the `/api/tags` endpoint lists `model`:
/// whether `model` is the name of one of the entries of its `models`
/// array (not when the body is not such a list).
pub fn lists_model(body: &str, model: &str) -> (r: bool)
    ensures
        r == match json_model_names(body@) {
            Some(ns) => ns.contains(Some(model@)),
            None => false,
        },
{
    match json_model_names_of(body) {
        Some(names) => names_include(&names, model),
        None => false,
    }
}

/// The body of a streaming request to pull `model`.
pub open spec fn pull_body_spec(model: Seq<char>) -> Seq<char> {
    "{\"name\":\""@ + model + "\",\"stream\":true}"@
}

/// The body of a streaming request to pull `model`, as JSON.
pub fn pull_request_body(model: &str) -> (r: String)
    ensures
        r@ == pull_body_spec(model@),
{
    let mut s = String::from_str("{\"name\":\"");
    s.append(model);
    s.append("\",\"stream\":true}");
    s
}

/// The pattern that introduces the value of `key` in a JSON object.
pub open spec fn key_pattern(key: Seq<char>) -> Seq<char> {
    "\""@ + key + "\":"@
}

/// The start of the first occurrence of `p` in `s`, or -1 when `p` does not
/// occur.
#[verifier::opaque]
pub open spec fn first_index(s: Seq<char>, p: Seq<char>) -> int {
    if contains_seq(s, p) {
        choose|i: int| occurs_at(s, p, i) && forall|j: int| 0 <= j < i ==> !occurs_at(s, p, j)
    } else {
        -1
    }
}

/// The number of decimal digits at the start of `s`.
pub open spec fn digit_run(s: Seq<char>) -> int
    decreases s.len(),
{
    if s.len() > 0 && is_digit(s[0]) {
        1 + digit_run(s.drop_first())
    } else {
        0
    }
}

/// The number that follows the first `"key":` in `json`, after any
/// whitespace: `None` when the pattern does not occur, when no digit
/// follows, or when the number does not fit in a `u64`.
pub open spec fn extract_num_spec(json: Seq<char>, key: Seq<char>) -> Option<u64> {
    let p = key_pattern(key);
    let i = first_index(json, p);
    if i < 0 {
        None
    } else {
        let after = trim_start(json.skip(i + p.len()));
        let d = after.take(digit_run(after));
        if d.len() == 0 || numeral_value(d) > u64::MAX {
            None
        } else {
            Some(numeral_value(d) as u64)
        }
    }
}

/// A digit run of length `i` at the start of `s`.
proof fn lemma_digit_run_at(s: Seq<char>, i: int)
    requires
        0 <= i <= s.len(),
        forall|j: int| 0 <= j < i ==> is_digit(#[trigger] s[j]),
        i == s.len() || !is_digit(s[i]),
    ensures
        digit_run(s) == i,
    decreases i,
{
    if i > 0 {
        let t = s.drop_first();
        assert forall|j: int| 0 <= j < i - 1 implies is_digit(#[trigger] t[j]) by {
            assert(t[j] == s[j + 1]);
        }
        if i < s.len() {
            assert(t[i - 1] == s[i]);
        }
        lemma_digit_run_at(t, i - 1);
    }
}

/// `first_index` is the one occurrence with none before it.
proof fn lemma_first_index_is(s: Seq<char>, p: Seq<char>, i: int)
    requires
        occurs_at(s, p, i),
        forall|j: int| 0 <= j < i ==> !occurs_at(s, p, j),
    ensures
        first_index(s, p) == i,
{
    reveal(first_index);
    let k = choose|k: int| occurs_at(s, p, k) && forall|j: int| 0 <= j < k ==> !occurs_at(s, p, j);
    assert(occurs_at(s, p, k));
    if k < i {
        assert(!occurs_at(s, p, k));
    }
    if i < k {
        assert(!occurs_at(s, p, i));
    }
}

/// `first_index` is -1 when `p` occurs nowhere.
proof fn lemma_first_index_none(s: Seq<char>, p: Seq<char>)
    requires
        forall|j: int| !occurs_at(s, p, j),
    ensures
        first_index(s, p) == -1,
{
    reveal(first_index);
}

/// The start of the first occurrence of `p` in `v`.
fn find_first(v: &Vec<char>, p: &Vec<char>) -> (r: Option<usize>)
    ensures
        match r {
            Some(i) => i + p@.len() <= v@.len() && first_index(v@, p@) == i,
            None => first_index(v@, p@) == -1,
        },
{
    let n = v.len();
    let mut i: usize = 0;
    while i <= n && p.len() <= n - i
        invariant
            n == v@.len(),
            i <= n + 1,
            forall|j: int| 0 <= j < i ==> !occurs_at(v@, p@, j),
        decreases n + 1 - i,
    {
        if chars_at(v, p, i) {
            proof {
                lemma_first_index_is(v@, p@, i as int);
            }
            return Some(i);
        }
        assert(p@.len() >= 1) by {
            if p@.len() == 0 {
                assert(v@.subrange(i as int, i as int) =~= p@);
            }
        }
        i = i + 1;
    }
    proof {
        assert forall|j: int| !occurs_at(v@, p@, j) by {
            if 0 <= j && j + p@.len() <= v@.len() {
                assert(j < i);
            }
        }
        lemma_first_index_none(v@, p@);
    }
    None
}

/// The number that follows the first `"key":` in the JSON-like text
/// `json`, after any whitespace; `None` when there is none or it does not
/// fit in a `u64`.
pub fn extract_num(json: &str, key: &str) -> (r: Option<u64>)
    ensures
        r == extract_num_spec(json@, key@),
{
    let mut pat = String::from_str("\"");
    pat.append(key);
    pat.append("\":");
    let v = chars_of(json);
    let p = chars_of(pat.as_str());
    let n = v.len();
    let i = match find_first(&v, &p) {
        Some(i) => i,
        None => {
            return None;
        },
    };
    let ghost rest = v@.skip(i + p@.len());
    // Skip whitespace.
    let mut a = i + p.len();
    while a < n && is_whitespace(v[a])
        invariant
            n == v@.len(),
            i + p@.len() <= a <= n,
            rest == v@.skip(i + p@.len()),
            forall|j: int| i + p@.len() <= j < a ==> is_ws(#[trigger] v@[j]),
        decreases n - a,
    {
        a = a + 1;
    }
    proof {
        let s0 = (i + p@.len()) as int;
        assert forall|j: int| 0 <= j < a - s0 implies is_ws(#[trigger] rest[j]) by {
            assert(rest[j] == v@[s0 + j]);
        }
        if a < n {
            assert(rest[a - s0] == v@[a as int]);
        }
        lemma_trim_start_at(rest, a - s0);
        assert(rest.skip(a - s0) =~= v@.skip(a as int));
    }
    let ghost after = v@.skip(a as int);
    // Read the digits.
    let mut b = a;
    let mut acc: u64 = 0;
    let mut overflow = false;
    while b < n && '0' <= v[b] && v[b] <= '9'
        invariant
            n == v@.len(),
            a <= b <= n,
            after == v@.skip(a as int),
            forall|j: int| a <= j < b ==> is_digit(#[trigger] v@[j]),
            !overflow ==> acc == numeral_value(v@.subrange(a as int, b as int)),
            overflow ==> numeral_value(v@.subrange(a as int, b as int)) > u64::MAX,
        decreases n - b,
    {
        let d = (v[b] as u32 - '0' as u32) as u64;
        let ghost pre = v@.subrange(a as int, b as int);
        let ghost next = v@.subrange(a as int, b + 1);
        proof {
            assert(next.drop_last() =~= pre);
            assert(next.last() == v@[b as int]);
            assert forall|j: int| 0 <= j < next.len() implies is_digit(#[trigger] next[j]) by {
                assert(next[j] == v@[a + j]);
            }
            lemma_numeral_prefix(next, next.len() - 1);
            assert(next.take(next.len() - 1) =~= pre);
        }
        if !overflow {
            if acc > (u64::MAX - d) / 10 {
                overflow = true;
            } else {
                acc = acc * 10 + d;
            }
        }
        b = b + 1;
    }
    proof {
        let d = v@.subrange(a as int, b as int);
        assert forall|j: int| 0 <= j < b - a implies is_digit(#[trigger] after[j]) by {
            assert(after[j] == v@[a + j]);
        }
        if b < n {
            assert(after[b - a] == v@[b as int]);
        }
        lemma_digit_run_at(after, b - a);
        assert(after.take(b - a) =~= d);
    }
    if b == a || overflow {
        return None;
    }
    Some(acc)
}

/// Progress of a model download, from one line of the streamed answer of
/// the pull endpoint: the bytes completed and the total, when the total is
/// known (a missing number counts as 0).
pub open spec fn pull_progress_spec(line: Seq<char>) -> Option<(u64, u64)> {
    let completed = match extract_num_spec(line, "completed"@) {
        Some(c) => c,
        None => 0,
    };
    let total = match extract_num_spec(line, "total"@) {
        Some(t) => t,
        None => 0,
    };
    if line.len() > 0 && total > 0 {
        Some((completed, total))
    } else {
        None
    }
}

/// Progress of a model download, from one line of the streamed answer of
/// the pull endpoint: `(completed, total)` when the total is known.
pub fn pull_progress(line: &str) -> (r: Option<(u64, u64)>)
    ensures
        r == pull_progress_spec(line@),
{
    if line.is_empty() {
        return None;
    }
    let completed = match extract_num(line, "completed") {
        Some(c) => c,
        None => 0,
    };
    let total = match extract_num(line, "total") {
        Some(t) => t,
        None => 0,
    };
    if total > 0 {
        Some((completed, total))
    } else {
        None
    }
}

/// Law: a number written after `"key":` is read back by `extract_num`,
/// when nothing earlier in the text is `"key":` and no digit follows it.
pub proof fn law_extract_reads_written_number(key: Seq<char>, n: u64, rest: Seq<char>)
    requires
        rest.len() == 0 || !is_digit(rest[0]),
    ensures
        extract_num_spec(key_pattern(key) + decimal(n as nat) + rest, key) == Some(n),
{
    reveal(first_index);
    let p = key_pattern(key);
    let d = decimal(n as nat);
    let json = p + d + rest;
    assert(json.subrange(0, p.len() as int) =~= p);
    assert(occurs_at(json, p, 0));
    let k = choose|k: int| occurs_at(json, p, k) && forall|j: int| 0 <= j < k ==> !occurs_at(json, p, j);
    assert(k == 0);
    lemma_decimal(n as nat);
    let tail = json.skip(p.len() as int);
    assert(tail =~= d + rest);
    assert(tail[0] == d[0]);
    assert(!is_ws(d[0])) by {
        assert(is_digit(d[0]));
    }
    lemma_trim_start_at(tail, 0);
    assert(tail.skip(0) =~= tail);
    assert forall|j: int| 0 <= j < d.len() implies is_digit(#[trigger] tail[j]) by {
        assert(tail[j] == d[j]);
    }
    if rest.len() > 0 {
        assert(tail[d.len() as int] == rest[0]);
    }
    lemma_digit_run_at(tail, d.len() as int);
    assert(tail.take(d.len() as int) =~= d);
}

/// The hexadecimal digit of `d` (below 16), in lowercase.
pub open spec fn hex_digit(d: int) -> char {
    seq!['0', '1', '2', '3', '4', '5', '6', '7', '8', '9', 'a', 'b', 'c', 'd', 'e', 'f'][d]
}

/// How a JSON string writes the character `c`: a double quote and a
/// backslash behind a backslash; backspace, tab, line feed, form feed and
/// carriage return as `\b \t \n \f \r`; the other control characters below
/// 0x20 as `\u00` and two hexadecimal digits; every other character as it
/// is.
pub open spec fn json_escape_char(c: char) -> Seq<char> {
    if c == '"' {
        seq!['\\', '"']
    } else if c == '\\' {
        seq!['\\', '\\']
    } else if c == '\x08' {
        seq!['\\', 'b']
    } else if c == '\t' {
        seq!['\\', 't']
    } else if c == '\n' {
        seq!['\\', 'n']
    } else if c == '\x0c' {
        seq!['\\', 'f']
    } else if c == '\r' {
        seq!['\\', 'r']
    } else if (c as int) < 0x20 {
        seq!['\\', 'u', '0', '0', hex_digit(c as int / 16), hex_digit(c as int % 16)]
    } else {
        seq![c]
    }
}

/// The characters of `s`, each written as a JSON string writes it.
pub open spec fn json_escaped(s: Seq<char>) -> Seq<char>
    decreases s.len(),
{
    if s.len() == 0 {
        Seq::empty()
    } else {
        json_escaped(s.drop_last()) + json_escape_char(s.last())
    }
}

/// The string `s` as a JSON string literal: quoted and escaped.
pub open spec fn json_quoted(s: Seq<char>) -> Seq<char> {
    seq!['"'] + json_escaped(s) + seq!['"']
}

/// Calls `serde_json::to_string` on a string slice. Claimed, as the
/// escape table of serde_json's serializer shows: the text quoted, with
/// each character escaped as `json_escape_char` says. Serializing a string
/// into memory cannot fail (the writer is a `Vec<u8>`), so the empty
/// fallback of the error arm is never taken.
#[verifier::external_body]
fn json_quote(s: &str) -> (r: String)
    ensures
        r@ == json_quoted(s@),
{
    serde_json::to_string(s).unwrap_or_default()
}

/// The body of a non-streaming generation request: the model and the
/// prompt as JSON strings, keys in alphabetical order.
pub open spec fn generate_body_spec(model: Seq<char>, prompt: Seq<char>) -> Seq<char> {
    "{\"model\":"@ + json_quoted(model) + ",\"prompt\":"@ + json_quoted(prompt)
        + ",\"stream\":false}"@
}

/// The body of a non-streaming request to generate an answer to `prompt`
/// with `model`.
pub fn generate_request_body(model: &str, prompt: &str) -> (r: String)
    ensures
        r@ == generate_body_spec(model@, prompt@),
{
    let mut s = String::from_str("{\"model\":");
    s.append(json_quote(model).as_str());
    s.append(",\"prompt\":");
    s.append(json_quote(prompt).as_str());
    s.append(",\"stream\":false}");
    s
}

/// What reading `body` as JSON and taking its field `key` as a string
/// gives: `None` when `body` is not JSON, `Some(None)` when it has no such
/// field or the field is not a string, `Some(Some(text))` otherwise.
pub uninterp spec fn json_text_field(body: Seq<char>, key: Seq<char>) -> Option<Option<Seq<char>>>;

/// The message (`Display`) of the error that reading `body` as JSON
/// gives, when it is not JSON: what went wrong, and the line and column.
pub uninterp spec fn json_error_message(body: Seq<char>) -> Seq<char>;

/// Calls `serde_json::from_str::<serde_json::Value>` on `body`, then takes
/// the field `key` with `Value::get` and `Value::as_str`; a parse error is
/// turned into its message with `to_string`. Claimed: a parse error exactly
/// when `json_text_field(body@, key@)` is `None`, with the message
/// `json_error_message(body@)`; otherwise the field that
/// `json_text_field` gives. Both names are functions of the arguments
/// alone.
#[verifier::external_body]
fn json_str_field(body: &str, key: &str) -> (r: Result<Option<String>, String>)
    ensures
        match r {
            Ok(f) => json_text_field(body@, key@) == Some(opt_view(f)),
            Err(m) => json_text_field(body@, key@) is None && m@ == json_error_message(body@),
        },
{
    serde_json::from_str::<serde_json::Value>(body).map(
        |v| v.get(key).and_then(|x| x.as_str()).map(|t| t.to_string()),
    ).map_err(|e| e.to_string())
}

/// The answer of the generation endpoint, from its `response` field:
/// the text trimmed, or an error when there is no such field.
pub open spec fn response_spec(field: Option<Seq<char>>) -> Result<Seq<char>, LlmErrorModel> {
    match field {
        Some(t) => Ok(trim(t)),
        None => Err(LlmErrorModel::Other("no response field in Ollama output"@)),
    }
}

/// The answer of the generation endpoint, from the string value of its
/// `response` field, if it has one.
pub fn response_text(field: Option<String>) -> (r: Result<String, LlmError>)
    ensures
        answer_view(r) == response_spec(opt_view(field)),
{
    match field {
        Some(t) => Ok(trimmed(t.as_str())),
        None => Err(LlmError::Other(String::from_str("no response field in Ollama output"))),
    }
}

/// The answer of the generation endpoint from its body `body`: when the
/// body is not JSON, an error with the parser's message; otherwise as
/// `response_text` reads its `response` field.
pub fn parse_generate_response(body: &str) -> (r: Result<String, LlmError>)
    ensures
        match json_text_field(body@, "response"@) {
            None => answer_view(r) == Err::<Seq<char>, LlmErrorModel>(
                LlmErrorModel::Other(json_error_message(body@)),
            ),
            Some(f) => answer_view(r) == response_spec(f),
        },
{
    match json_str_field(body, "response") {
        Err(m) => Err(LlmError::Other(m)),
        Ok(f) => response_text(f),
    }
}

/// Law: how JSON strings are written. A double quote, a backslash and
/// the control characters get a backslash escape (`\b \t \n \f \r`, else
/// `\u00` and two lowercase hexadecimal digits); a text without those is
/// written as it is, between double quotes.
pub proof fn law_json_strings(s: Seq<char>)
    ensures
        json_escape_char('"') == seq!['\\', '"'],
        json_escape_char('\\') == seq!['\\', '\\'],
        json_escape_char('\x08') == seq!['\\', 'b'],
        json_escape_char('\t') == seq!['\\', 't'],
        json_escape_char('\n') == seq!['\\', 'n'],
        json_escape_char('\x0c') == seq!['\\', 'f'],
        json_escape_char('\r') == seq!['\\', 'r'],
        json_escape_char('\x01') == seq!['\\', 'u', '0', '0', '0', '1'],
        json_escape_char('\x1b') == seq!['\\', 'u', '0', '0', '1', 'b'],
        json_escape_char('\x1f') == seq!['\\', 'u', '0', '0', '1', 'f'],
        (forall|i: int| 0 <= i < s.len() ==> (#[trigger] s[i]) as int >= 0x20 && s[i] != '"' && s[i]
            != '\\') ==> json_quoted(s) == seq!['"'] + s + seq!['"'],
{
    if forall|i: int| 0 <= i < s.len() ==> (#[trigger] s[i]) as int >= 0x20 && s[i] != '"' && s[i]
        != '\\' {
        lemma_json_escaped_plain(s);
    }
}

/// A text without double quotes, backslashes or control characters is
/// written in a JSON string as it is.
proof fn lemma_json_escaped_plain(s: Seq<char>)
    requires
        forall|i: int| 0 <= i < s.len() ==> (#[trigger] s[i]) as int >= 0x20 && s[i] != '"' && s[i]
            != '\\',
    ensures
        json_escaped(s) == s,
    decreases s.len(),
{
    if s.len() > 0 {
        let t = s.drop_last();
        assert forall|i: int| 0 <= i < t.len() implies (#[trigger] t[i]) as int >= 0x20 && t[i] != '"'
            && t[i] != '\\' by {
            assert(t[i] == s[i]);
        }
        lemma_json_escaped_plain(t);
        assert(s.last() == s[s.len() - 1]);
        assert(json_escape_char(s.last()) == seq![s.last()]);
        assert(json_escaped(s) =~= s);
    } else {
        assert(json_escaped(s) =~= s);
    }
}

/// Law: the requests sent to the server: an endpoint is the server's
/// address followed by the path; a pull asks for the model by name with
/// streaming on; a generation sends the model and the prompt as JSON
/// strings with streaming off; a value of `key` is found after `"key":`.
pub proof fn law_request_texts(url: Seq<char>, path: Seq<char>, model: Seq<char>, prompt: Seq<char>)
    ensures
        endpoint_spec(url, path) == url + path,
        pull_body_spec(model) == "{\"name\":\""@ + model + "\",\"stream\":true}"@,
        generate_body_spec(model, prompt) == "{\"model\":"@ + json_quoted(model) + ",\"prompt\":"@
            + json_quoted(prompt) + ",\"stream\":false}"@,
        key_pattern(model) == seq!['"'] + model + seq!['"', ':'],
{
    reveal_strlit("\"");
    reveal_strlit("\":");
    assert(key_pattern(model) =~= seq!['"'] + model + seq!['"', ':']);
}

/// Law: a line of the pull stream gives progress exactly when it is not
/// empty and holds a `"total":` number above zero; the bytes completed
/// are its `"completed":` number, or zero without one.
pub proof fn law_pull_progress(line: Seq<char>)
    ensures
        pull_progress_spec(line) is Some <==> (line.len() > 0 && (match extract_num_spec(
            line,
            "total"@,
        ) {
            Some(t) => t > 0,
            None => false,
        })),
        pull_progress_spec(line) matches Some((c, t)) ==> extract_num_spec(line, "total"@) == Some(t)
            && c == (match extract_num_spec(line, "completed"@) {
            Some(c) => c,
            None => 0u64,
        }),
{
}

} // verus!
