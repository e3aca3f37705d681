//! The configuration kept in `~/.config/nlsh/config.toml`: which model
//! backend answers, and where the Ollama model lives.
//!
//! The file holds three `key = "value"` lines; it is written by
//! `render_config` and read back by `parse_config`.
use vstd::prelude::*;
use crate::text::{
    char_index, chars_at, chars_of, find_char, has_char, is_ws, lemma_char_index,
    lemma_char_index_is, lemma_leading_count_at, lemma_trailing_count_at, lemma_trim_range,
    substring, trim, trim_bounds, trim_char, trim_char_bounds,
};

verus! {

/// The model backend that translates requests.
#[derive(Debug, Clone, Copy, PartialEq, Eq, Structural)]
pub enum Backend {
    /// Apple Intelligence, through the `nlsh-model` helper.
    Apple,
    /// A local Ollama server.
    Ollama,
}

/// The name of a backend in the configuration file.
pub open spec fn backend_name(b: Backend) -> Seq<char> {
    match b {
        Backend::Apple => "apple"@,
        Backend::Ollama => "ollama"@,
    }
}

/// The name of a backend in messages.
pub open spec fn backend_label(b: Backend) -> Seq<char> {
    match b {
        Backend::Apple => "Apple Intelligence"@,
        Backend::Ollama => "Ollama"@,
    }
}

impl Backend {
    /// The name of the backend in messages.
    pub fn label(&self) -> (r: &'static str)
        ensures
            r@ == backend_label(*self),
    {
        match self {
            Backend::Apple => "Apple Intelligence",
            Backend::Ollama => "Ollama",
        }
    }

    /// The name of the backend in the configuration file.
    pub fn as_str(&self) -> (r: &'static str)
        ensures
            r@ == backend_name(*self),
    {
        match self {
            Backend::Apple => "apple",
            Backend::Ollama => "ollama",
        }
    }
}

/// The configuration of the shell.
#[derive(Debug, Clone)]
pub struct NlshConfig {
    pub backend: Backend,
    pub ollama_model: String,
    pub ollama_url: String,
}

/// The mathematical form of a configuration.
pub struct ConfigModel {
    pub backend: Backend,
    pub model: Seq<char>,
    pub url: Seq<char>,
}

impl View for NlshConfig {
    type V = ConfigModel;

    open spec fn view(&self) -> ConfigModel {
        ConfigModel { backend: self.backend, model: self.ollama_model@, url: self.ollama_url@ }
    }
}

/// The configuration of a first run: Apple Intelligence, with the
/// recommended Ollama model and the local Ollama address at hand.
pub open spec fn default_config() -> ConfigModel {
    ConfigModel {
        backend: Backend::Apple,
        model: "qwen2.5-coder:1.5b"@,
        url: "http://localhost:11434"@,
    }
}

impl Default for NlshConfig {
    fn default() -> (r: NlshConfig)
        ensures
            r@ == default_config(),
    {
        NlshConfig {
            backend: Backend::Apple,
            ollama_model: String::from_str("qwen2.5-coder:1.5b"),
            ollama_url: String::from_str("http://localhost:11434"),
        }
    }
}

/// The key and value of one line of the file: comments, blank lines and
/// lines without `=` have none; else the key is what stands before the
/// first `=`, trimmed, and the value what follows it, trimmed and
/// stripped of double quotes.
pub open spec fn key_value(line: Seq<char>) -> Option<(Seq<char>, Seq<char>)> {
    let l = trim(line);
    if l.len() == 0 || l[0] == '#' || !has_char(l, '=') {
        None
    } else {
        let e = char_index(l, '=');
        Some((trim(l.take(e)), trim_char(trim(l.skip(e + 1)), '"')))
    }
}

/// The configuration `c` after reading one line of the file: `key = value`
/// sets the key it names (a `backend` other than `ollama` means Apple);
/// unknown keys and lines without a key change nothing.
pub open spec fn apply_line(c: ConfigModel, line: Seq<char>) -> ConfigModel {
    match key_value(line) {
        None => c,
        Some((key, val)) => if key == "backend"@ {
            ConfigModel {
                backend: if val == "ollama"@ {
                    Backend::Ollama
                } else {
                    Backend::Apple
                },
                ..c
            }
        } else if key == "ollama_model"@ {
            ConfigModel { model: val, ..c }
        } else if key == "ollama_url"@ {
            ConfigModel { url: val, ..c }
        } else {
            c
        },
    }
}

/// Whether `line` names a backend that does not exist: its key is
/// `backend` and its value neither `apple` nor `ollama`.
pub open spec fn bad_line(line: Seq<char>) -> bool {
    match key_value(line) {
        None => false,
        Some((key, val)) => key == "backend"@ && val != "apple"@ && val != "ollama"@,
    }
}

/// Whether some line of `text` names a backend that does not exist.
pub open spec fn has_bad_line(text: Seq<char>) -> bool
    decreases text.len(),
{
    let k = char_index(text, '\n');
    bad_line(text.take(k)) || (0 <= k < text.len() && has_bad_line(text.skip(k + 1)))
}

/// The configuration `c` after reading every line of `text` in turn.
pub open spec fn apply_lines(c: ConfigModel, text: Seq<char>) -> ConfigModel
    decreases text.len(),
{
    let k = char_index(text, '\n');
    let c1 = apply_line(c, text.take(k));
    if 0 <= k < text.len() {
        apply_lines(c1, text.skip(k + 1))
    } else {
        c1
    }
}

/// The configuration a file holding `text` gives: the defaults, then each
/// line in turn.
pub open spec fn config_from_text(text: Seq<char>) -> ConfigModel {
    apply_lines(default_config(), text)
}

/// One `key = "value"` line.
pub open spec fn kv_line(key: Seq<char>, val: Seq<char>) -> Seq<char> {
    key + " = \""@ + val + "\""@
}

/// The text of the configuration file for `c`: a comment, then one line
/// per key, each ended by a newline.
pub open spec fn render_spec(c: ConfigModel) -> Seq<char> {
    "# nlsh configuration"@ + "\n"@ + kv_line("backend"@, backend_name(c.backend)) + "\n"@
        + kv_line("ollama_model"@, c.model) + "\n"@ + kv_line("ollama_url"@, c.url) + "\n"@
}

/// A value that survives being written and read back: a single line that
/// neither starts nor ends with a double quote (blanks at either end are
/// kept, inside the quotes).
pub open spec fn clean_value(v: Seq<char>) -> bool {
    &&& !has_char(v, '\n')
    &&& v.len() > 0 ==> v[0] != '"' && v.last() != '"'
}

/// Reading `line`, a newline and `rest` is reading `line`, then `rest`.
proof fn lemma_apply_lines_cons(c: ConfigModel, line: Seq<char>, rest: Seq<char>)
    requires
        !has_char(line, '\n'),
    ensures
        apply_lines(c, line + "\n"@ + rest) == apply_lines(apply_line(c, line), rest),
        has_bad_line(line + "\n"@ + rest) == (bad_line(line) || has_bad_line(rest)),
{
    reveal_strlit("\n");
    let t = line + "\n"@ + rest;
    assert(t[line.len() as int] == '\n');
    assert forall|j: int| 0 <= j < line.len() implies t[j] != '\n' by {
        assert(t[j] == line[j]);
    }
    lemma_char_index_is(t, '\n', line.len() as int);
    assert(t.take(line.len() as int) =~= line);
    assert(t.skip(line.len() as int + 1) =~= rest);
}

/// Reading an empty text changes nothing and finds no bad line.
proof fn lemma_apply_lines_empty(c: ConfigModel)
    ensures
        apply_lines(c, Seq::empty()) == c,
        !has_bad_line(Seq::empty()),
{
    let e = Seq::<char>::empty();
    lemma_trim_range(e, 0, 0, 0, 0);
    assert(e.subrange(0, 0) =~= e);
    assert(e.take(0) =~= e);
}

/// A line of text that starts with `#` and is trimmed is a comment.
proof fn lemma_comment_line(line: Seq<char>)
    requires
        line.len() > 0,
        line[0] == '#',
        !is_ws(line.last()),
    ensures
        key_value(line) == None::<(Seq<char>, Seq<char>)>,
{
    lemma_trim_range(line, 0, line.len() as int, 0, line.len() as int);
    assert(line.subrange(0, line.len() as int) =~= line);
}

/// The line `key = "val"` has key `key` and value `val`.
proof fn lemma_key_value_kv(key: Seq<char>, val: Seq<char>)
    requires
        key == "backend"@ || key == "ollama_model"@ || key == "ollama_url"@,
        clean_value(val),
    ensures
        key_value(kv_line(key, val)) == Some((key, val)),
{
    reveal_strlit("backend");
    reveal_strlit("ollama_model");
    reveal_strlit("ollama_url");
    reveal_strlit(" = \"");
    reveal_strlit("\"");
    let l = kv_line(key, val);
    let kl = key.len() as int;
    assert(l.len() == kl + 5 + val.len());
    assert(l[0] == key[0]);
    assert(l[kl] == ' ');
    assert(l[kl + 1] == '=');
    assert(l[kl + 2] == ' ');
    assert(l[kl + 3] == '"');
    assert(l.last() == '"');
    assert(forall|j: int| 0 <= j < kl ==> l[j] == key[j]);
    // The line is trimmed already.
    lemma_trim_range(l, 0, l.len() as int, 0, l.len() as int);
    assert(l.subrange(0, l.len() as int) =~= l);
    assert(trim(l) == l);
    // Its first `=` follows the key and a blank.
    assert forall|j: int| 0 <= j < kl + 1 implies l[j] != '=' by {
        if j < kl {
            assert(l[j] == key[j]);
        }
    }
    lemma_char_index_is(l, '=', kl + 1);
    assert(has_char(l, '='));
    // The key, trimmed.
    let kp = l.take(kl + 1);
    lemma_trim_range(kp, 0, kl + 1, 0, kl);
    assert(kp.subrange(0, kl + 1) =~= kp);
    assert(kp.subrange(0, kl) =~= key);
    assert(trim(kp) == key);
    // The value, trimmed: the quoted value.
    let vp = l.skip(kl + 2);
    assert(vp.len() == val.len() + 3);
    assert(vp[0] == ' ');
    assert(vp[1] == '"');
    assert(vp.last() == '"');
    lemma_trim_range(vp, 0, vp.len() as int, 1, vp.len() as int);
    assert(vp.subrange(0, vp.len() as int) =~= vp);
    let qv = vp.subrange(1, vp.len() as int);
    assert(qv =~= seq!['"'] + val + seq!['"']);
    // Without its quotes.
    if val.len() == 0 {
        lemma_leading_count_at(qv, '"', 2);
        let t = qv.skip(2);
        lemma_trailing_count_at(t, '"', 0);
        assert(t.take(0) =~= val);
    } else {
        assert(qv[1] == val[0]);
        lemma_leading_count_at(qv, '"', 1);
        let t = qv.skip(1);
        assert(t =~= val + seq!['"']);
        assert(t[t.len() - 2] == val.last());
        lemma_trailing_count_at(t, '"', 1);
        assert(t.take(t.len() - 1) =~= val);
    }
    assert(trim_char(qv, '"') == val);
}

/// Law: a configuration written by `render_config` reads back as itself
/// through `parse_config` (it names a backend that exists), when the model
/// name and the address are single lines that neither start nor end with
/// a double quote.
pub proof fn law_config_round_trip(c: ConfigModel)
    requires
        clean_value(c.model),
        clean_value(c.url),
    ensures
        config_from_text(render_spec(c)) == c,
        !has_bad_line(render_spec(c)),
{
    reveal_strlit("# nlsh configuration");
    reveal_strlit("apple");
    reveal_strlit("ollama");
    reveal_strlit("backend");
    reveal_strlit("ollama_model");
    reveal_strlit("ollama_url");
    reveal_strlit(" = \"");
    reveal_strlit("\"");
    reveal_strlit("\n");
    let nl = "\n"@;
    let h = "# nlsh configuration"@;
    let l1 = kv_line("backend"@, backend_name(c.backend));
    let l2 = kv_line("ollama_model"@, c.model);
    let l3 = kv_line("ollama_url"@, c.url);
    assert(render_spec(c) =~= h + nl + (l1 + nl + (l2 + nl + (l3 + nl + Seq::empty()))));
    let bn = backend_name(c.backend);
    assert(clean_value(bn)) by {
        assert forall|j: int| 0 <= j < bn.len() implies bn[j] != '\n' by {}
    }
    assert(!has_char(h, '\n'));
    assert forall|key: Seq<char>, v: Seq<char>|
        (key == "backend"@ || key == "ollama_model"@ || key == "ollama_url"@) && clean_value(v)
        implies !has_char(#[trigger] kv_line(key, v), '\n') by {
        let l = kv_line(key, v);
        assert forall|j: int| 0 <= j < l.len() implies l[j] != '\n' by {
            if key.len() <= j < key.len() + 4 || j == l.len() - 1 {
            } else if j < key.len() {
                assert(l[j] == key[j]);
            } else {
                assert(l[j] == v[j - key.len() - 4]);
            }
        }
    }
    let d = default_config();
    lemma_apply_lines_cons(d, h, l1 + nl + (l2 + nl + (l3 + nl + Seq::empty())));
    lemma_comment_line(h);
    lemma_apply_lines_cons(d, l1, l2 + nl + (l3 + nl + Seq::empty()));
    lemma_key_value_kv("backend"@, bn);
    let c1 = apply_line(d, l1);
    assert(c1.backend == c.backend);
    lemma_apply_lines_cons(c1, l2, l3 + nl + Seq::empty());
    lemma_key_value_kv("ollama_model"@, c.model);
    let c2 = apply_line(c1, l2);
    lemma_apply_lines_cons(c2, l3, Seq::empty());
    lemma_key_value_kv("ollama_url"@, c.url);
    let c3 = apply_line(c2, l3);
    lemma_apply_lines_empty(c3);
    assert(c3 == c);
}

/// Law: the defaults are Apple Intelligence, the model
/// `qwen2.5-coder:1.5b` and the address `http://localhost:11434`; the
/// backends are written `apple` and `ollama` and shown as
/// `Apple Intelligence` and `Ollama`; the file is a comment line and then
/// `backend`, `ollama_model` and `ollama_url`, each as `key = "value"` on
/// a line of its own.
pub proof fn law_config_text(c: ConfigModel)
    ensures
        default_config() == (ConfigModel {
            backend: Backend::Apple,
            model: "qwen2.5-coder:1.5b"@,
            url: "http://localhost:11434"@,
        }),
        backend_name(Backend::Apple) == "apple"@,
        backend_name(Backend::Ollama) == "ollama"@,
        backend_label(Backend::Apple) == "Apple Intelligence"@,
        backend_label(Backend::Ollama) == "Ollama"@,
        render_spec(c) == "# nlsh configuration\n"@ + "backend = \""@ + backend_name(c.backend)
            + "\"\n"@ + "ollama_model = \""@ + c.model + "\"\n"@ + "ollama_url = \""@ + c.url
            + "\"\n"@,
{
    reveal_strlit("# nlsh configuration\n");
    reveal_strlit("# nlsh configuration");
    reveal_strlit("\n");
    reveal_strlit("backend = \"");
    reveal_strlit("backend");
    reveal_strlit(" = \"");
    reveal_strlit("\"\n");
    reveal_strlit("\"");
    reveal_strlit("ollama_model = \"");
    reveal_strlit("ollama_model");
    reveal_strlit("ollama_url = \"");
    reveal_strlit("ollama_url");
    assert(render_spec(c) =~= "# nlsh configuration\n"@ + "backend = \""@ + backend_name(c.backend)
        + "\"\n"@ + "ollama_model = \""@ + c.model + "\"\n"@ + "ollama_url = \""@ + c.url
        + "\"\n"@);
}

/// Law: a line `backend = "v"` names a backend that does not exist exactly
/// when `v` is neither `apple` nor `ollama` (for a value on one line that
/// neither starts nor ends with a double quote); a file holding such a line
/// is refused by `parse_config`, whether the line comes first or after
/// other lines.
pub proof fn law_bad_backend(v: Seq<char>, before: Seq<char>, after: Seq<char>)
    requires
        clean_value(v),
        !has_char(before, '\n'),
    ensures
        bad_line(kv_line("backend"@, v)) == (v != "apple"@ && v != "ollama"@),
        bad_line(before) ==> has_bad_line(before + "\n"@ + after),
        has_bad_line(after) ==> has_bad_line(before + "\n"@ + after),
{
    lemma_key_value_kv("backend"@, v);
    lemma_apply_lines_cons(default_config(), before, after);
}

/// Whether `v[lo..hi]` holds exactly the characters of `lit`.
fn range_is(v: &Vec<char>, lo: usize, hi: usize, lit: &str) -> (r: bool)
    requires
        lo <= hi <= v@.len(),
    ensures
        r == (v@.subrange(lo as int, hi as int) == lit@),
{
    let l = chars_of(lit);
    if hi - lo != l.len() {
        return false;
    }
    let r = chars_at(v, &l, lo);
    r
}

impl NlshConfig {
    /// Reads one line `v[lo..hi]` of the file held in `content`; tells
    /// whether it names a backend that does not exist.
    fn read_line(&mut self, content: &str, v: &Vec<char>, lo: usize, hi: usize) -> (bad: bool)
        requires
            v@ == content@,
            lo <= hi <= v@.len(),
        ensures
            final(self)@ == apply_line(old(self)@, v@.subrange(lo as int, hi as int)),
            bad == bad_line(v@.subrange(lo as int, hi as int)),
    {
        let ghost line = v@.subrange(lo as int, hi as int);
        let (x, y) = trim_bounds(v, lo, hi);
        let ghost l = v@.subrange(x as int, y as int);
        if x == y {
            return false;
        }
        assert(l[0] == v@[x as int]);
        if v[x] == '#' {
            return false;
        }
        let e = find_char(v, '=', x, y);
        proof {
            lemma_char_index(l, '=');
            if e < y {
                assert(l[e - x] == '=');
            } else {
                assert forall|j: int| 0 <= j < l.len() implies l[j] != '=' by {
                    assert(l[j] == v@[x + j]);
                }
            }
        }
        if e == y {
            return false;
        }
        let (kx, ky) = trim_bounds(v, x, e);
        assert(l.take(e - x) =~= v@.subrange(x as int, e as int));
        let (vx, vy) = trim_bounds(v, e + 1, y);
        assert(l.skip(e - x + 1) =~= v@.subrange(e + 1, y as int));
        let (qx, qy) = trim_char_bounds(v, '"', vx, vy);
        let ghost val = v@.subrange(qx as int, qy as int);
        if range_is(v, kx, ky, "backend") {
            if range_is(v, qx, qy, "ollama") {
                self.backend = Backend::Ollama;
                false
            } else {
                self.backend = Backend::Apple;
                !range_is(v, qx, qy, "apple")
            }
        } else if range_is(v, kx, ky, "ollama_model") {
            self.ollama_model = substring(content, qx, qy);
            false
        } else if range_is(v, kx, ky, "ollama_url") {
            self.ollama_url = substring(content, qx, qy);
            false
        } else {
            false
        }
    }

    /// The configuration that the file text `content` describes: `None`
    /// when it names a backend that does not exist (the file is then taken
    /// as missing, and setup runs again).
    pub fn parse_config(content: &str) -> (r: Option<NlshConfig>)
        ensures
            match r {
                Some(c) => !has_bad_line(content@) && c@ == config_from_text(content@),
                None => has_bad_line(content@),
            },
    {
        let v = chars_of(content);
        let n = v.len();
        let mut cfg = NlshConfig::default();
        let mut bad = false;
        let mut pos: usize = 0;
        assert(v@.subrange(0, n as int) =~= v@);
        loop
            invariant
                v@ == content@,
                n == v@.len(),
                pos <= n,
                config_from_text(content@) == apply_lines(cfg@, v@.subrange(pos as int, n as int)),
                has_bad_line(content@) == (bad || has_bad_line(v@.subrange(pos as int, n as int))),
            decreases n - pos,
        {
            let ghost rest = v@.subrange(pos as int, n as int);
            let k = find_char(&v, '\n', pos, n);
            proof {
                lemma_char_index(rest, '\n');
                assert(rest.take(k - pos) =~= v@.subrange(pos as int, k as int));
            }
            let line_bad = cfg.read_line(content, &v, pos, k);
            bad = bad || line_bad;
            if k < n {
                assert(rest.skip(k - pos + 1) =~= v@.subrange(k + 1, n as int));
                pos = k + 1;
            } else {
                return if bad {
                    None
                } else {
                    Some(cfg)
                };
            }
        }
    }

    /// The text of the configuration file for this configuration.
    pub fn render_config(&self) -> (r: String)
        ensures
            r@ == render_spec(self@),
    {
        let mut s = String::from_str("# nlsh configuration");
        s.append("\n");
        s.append("backend");
        s.append(" = \"");
        s.append(self.backend.as_str());
        s.append("\"");
        s.append("\n");
        s.append("ollama_model");
        s.append(" = \"");
        s.append(self.ollama_model.as_str());
        s.append("\"");
        s.append("\n");
        s.append("ollama_url");
        s.append(" = \"");
        s.append(self.ollama_url.as_str());
        s.append("\"");
        s.append("\n");
        s
    }
}

} // verus!
