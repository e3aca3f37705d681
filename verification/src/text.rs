//! Character-level text operations shared by the parsers: whitespace,
//! trimming, searching for a character or a run of characters.
//!
//! Text is modelled as `Seq<char>`, the view of `str` and `String`.
use vstd::prelude::*;

verus! {

/// The Unicode `White_Space` property: the characters that `str::trim`
/// and `str::split_whitespace` treat as whitespace.
pub open spec fn is_ws(c: char) -> bool {
    ||| ('\t' <= c && c <= '\r')
    ||| c == ' '
    ||| c == '\u{85}'
    ||| c == '\u{A0}'
    ||| c == '\u{1680}'
    ||| ('\u{2000}' <= c && c <= '\u{200A}')
    ||| c == '\u{2028}'
    ||| c == '\u{2029}'
    ||| c == '\u{202F}'
    ||| c == '\u{205F}'
    ||| c == '\u{3000}'
}

/// Whether `c` is whitespace in the Unicode sense.
pub fn is_whitespace(c: char) -> (r: bool)
    ensures
        r == is_ws(c),
{
    ('\t' <= c && c <= '\r') || c == ' ' || c == '\u{85}' || c == '\u{A0}' || c == '\u{1680}'
        || ('\u{2000}' <= c && c <= '\u{200A}') || c == '\u{2028}' || c == '\u{2029}' || c
        == '\u{202F}' || c == '\u{205F}' || c == '\u{3000}'
}

/// `s` without its leading whitespace.
pub open spec fn trim_start(s: Seq<char>) -> Seq<char>
    decreases s.len(),
{
    if s.len() > 0 && is_ws(s[0]) {
        trim_start(s.drop_first())
    } else {
        s
    }
}

/// `s` without its trailing whitespace.
pub open spec fn trim_end(s: Seq<char>) -> Seq<char>
    decreases s.len(),
{
    if s.len() > 0 && is_ws(s.last()) {
        trim_end(s.drop_last())
    } else {
        s
    }
}

/// `s` without leading and trailing whitespace, as `str::trim` gives it.
#[verifier::opaque]
pub open spec fn trim(s: Seq<char>) -> Seq<char> {
    trim_end(trim_start(s))
}

/// Whether `s` neither starts nor ends with whitespace.
pub open spec fn is_trimmed(s: Seq<char>) -> bool {
    s.len() > 0 ==> !is_ws(s[0]) && !is_ws(s.last())
}

/// Skipping the leading whitespace of `s` is skipping its first `i`
/// characters, when those are whitespace and the next one is not.
pub proof fn lemma_trim_start_at(s: Seq<char>, i: int)
    requires
        0 <= i <= s.len(),
        forall|j: int| 0 <= j < i ==> is_ws(#[trigger] s[j]),
        i == s.len() || !is_ws(s[i]),
    ensures
        trim_start(s) == s.skip(i),
    decreases i,
{
    if i == 0 {
        assert(s.skip(0) =~= s);
    } else {
        assert(is_ws(s[0]));
        let t = s.drop_first();
        assert forall|j: int| 0 <= j < i - 1 implies is_ws(#[trigger] t[j]) by {
            assert(t[j] == s[j + 1]);
        }
        lemma_trim_start_at(t, i - 1);
        assert(t.skip(i - 1) =~= s.skip(i));
    }
}

/// Dropping the trailing whitespace of `s` is keeping its first `k`
/// characters, when all after them are whitespace and the one before is not.
pub proof fn lemma_trim_end_at(s: Seq<char>, k: int)
    requires
        0 <= k <= s.len(),
        forall|j: int| k <= j < s.len() ==> is_ws(#[trigger] s[j]),
        k == 0 || !is_ws(s[k - 1]),
    ensures
        trim_end(s) == s.take(k),
    decreases s.len() - k,
{
    if k == s.len() {
        assert(s.take(k) =~= s);
    } else {
        assert(is_ws(s.last()));
        let t = s.drop_last();
        assert forall|j: int| k <= j < t.len() implies is_ws(#[trigger] t[j]) by {
            assert(t[j] == s[j]);
        }
        lemma_trim_end_at(t, k);
        assert(t.take(k) =~= s.take(k));
    }
}

/// Skipping leading whitespace drops a prefix, and what is left does not
/// start with whitespace.
pub proof fn lemma_trim_start_facts(s: Seq<char>)
    ensures
        exists|i: int| 0 <= i <= s.len() && trim_start(s) == s.skip(i),
        trim_start(s).len() > 0 ==> !is_ws(trim_start(s)[0]),
    decreases s.len(),
{
    if s.len() > 0 && is_ws(s[0]) {
        let t = s.drop_first();
        lemma_trim_start_facts(t);
        let i = choose|i: int| 0 <= i <= t.len() && trim_start(t) == t.skip(i);
        assert(t.skip(i) =~= s.skip(i + 1));
    } else {
        assert(s.skip(0) =~= s);
    }
}

/// Dropping trailing whitespace keeps a prefix, which does not end with
/// whitespace.
pub proof fn lemma_trim_end_facts(s: Seq<char>)
    ensures
        exists|k: int| 0 <= k <= s.len() && trim_end(s) == s.take(k),
        trim_end(s).len() > 0 ==> !is_ws(trim_end(s).last()),
    decreases s.len(),
{
    if s.len() > 0 && is_ws(s.last()) {
        let t = s.drop_last();
        lemma_trim_end_facts(t);
        let k = choose|k: int| 0 <= k <= t.len() && trim_end(t) == t.take(k);
        assert(t.take(k) =~= s.take(k));
    } else {
        assert(s.take(s.len() as int) =~= s);
    }
}

/// Trimming keeps a contiguous part of the text, which is itself trimmed.
pub proof fn lemma_trim_facts(s: Seq<char>)
    ensures
        exists|a: int, b: int| 0 <= a <= b <= s.len() && trim(s) == s.subrange(a, b),
        is_trimmed(trim(s)),
{
    reveal(trim);
    lemma_trim_start_facts(s);
    let i = choose|i: int| 0 <= i <= s.len() && trim_start(s) == s.skip(i);
    let u = trim_start(s);
    lemma_trim_end_facts(u);
    let k = choose|k: int| 0 <= k <= u.len() && trim_end(u) == u.take(k);
    assert(u.take(k) =~= s.subrange(i, i + k));
    if k > 0 {
        assert(trim(s)[0] == u[0]);
    }
}

/// A text that is already trimmed is left as it is.
pub proof fn lemma_trim_trimmed(s: Seq<char>)
    requires
        is_trimmed(s),
    ensures
        trim(s) == s,
{
    if s.len() == 0 {
        lemma_trim_range(s, 0, 0, 0, 0);
    } else {
        lemma_trim_range(s, 0, s.len() as int, 0, s.len() as int);
    }
    assert(s.subrange(0, s.len() as int) =~= s);
}

/// Skipping the leading whitespace leaves nothing exactly when `s` is all
/// whitespace.
proof fn lemma_trim_start_all_ws(s: Seq<char>)
    ensures
        (trim_start(s).len() == 0) == (forall|i: int| 0 <= i < s.len() ==> is_ws(#[trigger] s[i])),
    decreases s.len(),
{
    if s.len() > 0 && is_ws(s[0]) {
        let t = s.drop_first();
        lemma_trim_start_all_ws(t);
        if forall|i: int| 0 <= i < t.len() ==> is_ws(#[trigger] t[i]) {
            assert forall|i: int| 0 <= i < s.len() implies is_ws(#[trigger] s[i]) by {
                if i > 0 {
                    assert(s[i] == t[i - 1]);
                }
            }
        } else {
            let i = choose|i: int| 0 <= i < t.len() && !is_ws(#[trigger] t[i]);
            assert(s[i + 1] == t[i]);
        }
    } else if s.len() > 0 {
        assert(!is_ws(s[0]));
    }
}

/// Dropping the trailing whitespace leaves nothing exactly when `s` is all
/// whitespace.
proof fn lemma_trim_end_all_ws(s: Seq<char>)
    ensures
        (trim_end(s).len() == 0) == (forall|i: int| 0 <= i < s.len() ==> is_ws(#[trigger] s[i])),
    decreases s.len(),
{
    if s.len() > 0 && is_ws(s.last()) {
        let t = s.drop_last();
        lemma_trim_end_all_ws(t);
        if forall|i: int| 0 <= i < t.len() ==> is_ws(#[trigger] t[i]) {
            assert forall|i: int| 0 <= i < s.len() implies is_ws(#[trigger] s[i]) by {
                if i < t.len() {
                    assert(s[i] == t[i]);
                }
            }
        } else {
            let i = choose|i: int| 0 <= i < t.len() && !is_ws(#[trigger] t[i]);
            assert(s[i] == t[i]);
        }
    } else if s.len() > 0 {
        assert(!is_ws(s[s.len() - 1]));
    }
}

/// A text trims to nothing exactly when all its characters are whitespace.
pub proof fn lemma_trim_empty_iff(s: Seq<char>)
    ensures
        (trim(s).len() == 0) == (forall|i: int| 0 <= i < s.len() ==> is_ws(#[trigger] s[i])),
{
    reveal(trim);
    let u = trim_start(s);
    lemma_trim_start_all_ws(s);
    lemma_trim_end_all_ws(u);
    lemma_trim_start_facts(s);
    if u.len() > 0 {
        assert(!is_ws(u[0]));
    }
}

/// The trimmed text of `s[lo..hi]` is `s[a..b]`, where `a` is the first
/// position of the range not holding whitespace and `b` the end of its
/// last such character.
pub proof fn lemma_trim_range(s: Seq<char>, lo: int, hi: int, a: int, b: int)
    requires
        0 <= lo <= a <= b <= hi <= s.len(),
        forall|j: int| lo <= j < a ==> is_ws(#[trigger] s[j]),
        forall|j: int| b <= j < hi ==> is_ws(#[trigger] s[j]),
        a == hi || !is_ws(s[a]),
        a < b || a == hi,
        a < b ==> !is_ws(s[b - 1]),
    ensures
        trim(s.subrange(lo, hi)) == s.subrange(a, b),
{
    reveal(trim);
    let t = s.subrange(lo, hi);
    assert forall|j: int| 0 <= j < a - lo implies is_ws(#[trigger] t[j]) by {
        assert(t[j] == s[lo + j]);
    }
    if a < hi {
        assert(t[a - lo] == s[a]);
    }
    lemma_trim_start_at(t, a - lo);
    let u = t.skip(a - lo);
    assert(u =~= s.subrange(a, hi));
    assert forall|j: int| b - a <= j < u.len() implies is_ws(#[trigger] u[j]) by {
        assert(u[j] == s[a + j]);
    }
    if a < b {
        assert(u[b - a - 1] == s[b - 1]);
    }
    lemma_trim_end_at(u, b - a);
    assert(u.take(b - a) =~= s.subrange(a, b));
}

/// The characters of `s[lo..hi]`, trimmed, as the bounds `(a, b)` with
/// `s[a..b]` the trimmed text.
pub fn trim_bounds(s: &Vec<char>, lo: usize, hi: usize) -> (r: (usize, usize))
    requires
        lo <= hi <= s@.len(),
    ensures
        lo <= r.0 <= r.1 <= hi,
        s@.subrange(r.0 as int, r.1 as int) == trim(s@.subrange(lo as int, hi as int)),
{
    let mut a = lo;
    while a < hi && is_whitespace(s[a])
        invariant
            lo <= a <= hi <= s@.len(),
            forall|j: int| lo <= j < a ==> is_ws(#[trigger] s@[j]),
        decreases hi - a,
    {
        a = a + 1;
    }
    let mut b = hi;
    while b > a && is_whitespace(s[b - 1])
        invariant
            lo <= a <= b <= hi <= s@.len(),
            forall|j: int| b <= j < hi ==> is_ws(#[trigger] s@[j]),
            a == hi || !is_ws(s@[a as int]),
        decreases b - a,
    {
        b = b - 1;
    }
    proof {
        lemma_trim_range(s@, lo as int, hi as int, a as int, b as int);
    }
    (a, b)
}

/// Position of the first `c` in `s`, or `s.len()` when there is none.
pub open spec fn char_index(s: Seq<char>, c: char) -> int
    decreases s.len(),
{
    if s.len() == 0 {
        0
    } else if s[0] == c {
        0
    } else {
        1 + char_index(s.drop_first(), c)
    }
}

/// What `char_index` gives: a position before which `c` does not occur,
/// and at which `c` stands unless it is the end.
pub proof fn lemma_char_index(s: Seq<char>, c: char)
    ensures
        0 <= char_index(s, c) <= s.len(),
        forall|j: int| 0 <= j < char_index(s, c) ==> s[j] != c,
        char_index(s, c) < s.len() ==> s[char_index(s, c)] == c,
    decreases s.len(),
{
    if s.len() > 0 && s[0] != c {
        let t = s.drop_first();
        lemma_char_index(t, c);
        assert forall|j: int| 0 <= j < char_index(s, c) implies s[j] != c by {
            if j > 0 {
                assert(s[j] == t[j - 1]);
            }
        }
    }
}

/// `char_index` is the one position with those properties.
pub proof fn lemma_char_index_is(s: Seq<char>, c: char, i: int)
    requires
        0 <= i <= s.len(),
        forall|j: int| 0 <= j < i ==> s[j] != c,
        i == s.len() || s[i] == c,
    ensures
        char_index(s, c) == i,
{
    lemma_char_index(s, c);
    let k = char_index(s, c);
    if k < i {
        assert(s[k] != c);
    }
    if i < k {
        assert(s[i] != c);
    }
}

/// The number of copies of `c` at the start of `s`.
pub open spec fn leading_count(s: Seq<char>, c: char) -> int
    decreases s.len(),
{
    if s.len() > 0 && s[0] == c {
        1 + leading_count(s.drop_first(), c)
    } else {
        0
    }
}

/// A run of `c` at the start of `s` has length `i` when the first `i`
/// characters are `c` and the next one is not.
pub proof fn lemma_leading_count_at(s: Seq<char>, c: char, i: int)
    requires
        0 <= i <= s.len(),
        forall|j: int| 0 <= j < i ==> s[j] == c,
        i == s.len() || s[i] != c,
    ensures
        leading_count(s, c) == i,
    decreases i,
{
    if i > 0 {
        let t = s.drop_first();
        assert forall|j: int| 0 <= j < i - 1 implies t[j] == c by {
            assert(t[j] == s[j + 1]);
        }
        if i < s.len() {
            assert(t[i - 1] == s[i]);
        }
        lemma_leading_count_at(t, c, i - 1);
    }
}

/// The end of the run of `c` that starts `v[a..b]`.
pub fn skip_run(v: &Vec<char>, c: char, a: usize, b: usize) -> (p: usize)
    requires
        a <= b <= v@.len(),
    ensures
        a <= p <= b,
        p - a == leading_count(v@.subrange(a as int, b as int), c),
{
    let mut p = a;
    while p < b && v[p] == c
        invariant
            a <= p <= b <= v@.len(),
            forall|j: int| a <= j < p ==> v@[j] == c,
        decreases b - p,
    {
        p = p + 1;
    }
    proof {
        let text = v@.subrange(a as int, b as int);
        assert forall|j: int| 0 <= j < p - a implies text[j] == c by {
            assert(text[j] == v@[a + j]);
        }
        if p < b {
            assert(text[p - a] == v@[p as int]);
        }
        lemma_leading_count_at(text, c, p - a);
    }
    p
}

/// The number of copies of `c` at the end of `s`.
pub open spec fn trailing_count(s: Seq<char>, c: char) -> int
    decreases s.len(),
{
    if s.len() > 0 && s.last() == c {
        1 + trailing_count(s.drop_last(), c)
    } else {
        0
    }
}

/// A run of `c` at the end of `s` has length `i` when the last `i`
/// characters are `c` and the one before them is not.
pub proof fn lemma_trailing_count_at(s: Seq<char>, c: char, i: int)
    requires
        0 <= i <= s.len(),
        forall|j: int| s.len() - i <= j < s.len() ==> s[j] == c,
        i == s.len() || s[s.len() - i - 1] != c,
    ensures
        trailing_count(s, c) == i,
    decreases i,
{
    if i > 0 {
        let t = s.drop_last();
        assert forall|j: int| t.len() - (i - 1) <= j < t.len() implies t[j] == c by {
            assert(t[j] == s[j]);
        }
        if i < s.len() {
            assert(t[t.len() - (i - 1) - 1] == s[s.len() - i - 1]);
        }
        lemma_trailing_count_at(t, c, i - 1);
    }
}

/// `s` without the copies of `c` at either end, as `str::trim_matches(c)`
/// gives it.
pub open spec fn trim_char(s: Seq<char>, c: char) -> Seq<char> {
    let t = s.skip(leading_count(s, c));
    t.take(t.len() - trailing_count(t, c))
}

/// The bounds within `v` of `trim_char(v[a..b], c)`.
pub fn trim_char_bounds(v: &Vec<char>, c: char, a: usize, b: usize) -> (r: (usize, usize))
    requires
        a <= b <= v@.len(),
    ensures
        a <= r.0 <= r.1 <= b,
        v@.subrange(r.0 as int, r.1 as int) == trim_char(v@.subrange(a as int, b as int), c),
{
    let p = skip_run(v, c, a, b);
    let mut q = b;
    while q > p && v[q - 1] == c
        invariant
            a <= p <= q <= b <= v@.len(),
            forall|j: int| q <= j < b ==> v@[j] == c,
        decreases q - p,
    {
        q = q - 1;
    }
    proof {
        let s = v@.subrange(a as int, b as int);
        let t = s.skip(p - a);
        assert(t =~= v@.subrange(p as int, b as int));
        assert forall|j: int| t.len() - (b - q) <= j < t.len() implies t[j] == c by {
            assert(t[j] == v@[p + j]);
        }
        if q > p {
            assert(t[t.len() - (b - q) - 1] == v@[q - 1]);
        }
        lemma_trailing_count_at(t, c, b - q);
        assert(t.take(t.len() - (b - q)) =~= v@.subrange(p as int, q as int));
    }
    (p, q)
}

/// Position of the first whitespace character in `s`, or `s.len()` when
/// there is none: the length of the word that starts `s`.
pub open spec fn ws_index(s: Seq<char>) -> nat
    decreases s.len(),
{
    if s.len() == 0 {
        0
    } else if is_ws(s[0]) {
        0
    } else {
        1 + ws_index(s.drop_first())
    }
}

/// What `ws_index` gives: no whitespace before it, whitespace at it unless
/// it is the end.
pub proof fn lemma_ws_index(s: Seq<char>)
    ensures
        ws_index(s) <= s.len(),
        forall|j: int| 0 <= j < ws_index(s) ==> !is_ws(#[trigger] s[j]),
        ws_index(s) < s.len() ==> is_ws(s[ws_index(s) as int]),
    decreases s.len(),
{
    if s.len() > 0 && !is_ws(s[0]) {
        let t = s.drop_first();
        lemma_ws_index(t);
        assert forall|j: int| 0 <= j < ws_index(s) implies !is_ws(#[trigger] s[j]) by {
            if j > 0 {
                assert(s[j] == t[j - 1]);
            }
        }
    }
}

/// `ws_index` is the one position with those properties.
pub proof fn lemma_ws_index_is(s: Seq<char>, i: int)
    requires
        0 <= i <= s.len(),
        forall|j: int| 0 <= j < i ==> !is_ws(#[trigger] s[j]),
        i == s.len() || is_ws(s[i]),
    ensures
        ws_index(s) == i,
{
    lemma_ws_index(s);
    let k = ws_index(s) as int;
    if k < i {
        assert(!is_ws(s[k]));
    }
    if i < k {
        assert(!is_ws(s[i]));
    }
}

/// The words of `s`: its maximal runs of characters other than
/// whitespace, in order, as `str::split_whitespace` yields them.
pub open spec fn words(s: Seq<char>) -> Seq<Seq<char>>
    decreases s.len(),
{
    if s.len() == 0 {
        Seq::empty()
    } else if is_ws(s[0]) {
        words(s.drop_first())
    } else {
        let k = ws_index(s);
        proof {
            lemma_ws_index(s);
        }
        seq![s.take(k as int)] + words(s.skip(k as int))
    }
}

/// The end of the word of `v` that starts at `i`.
pub fn word_end(v: &Vec<char>, i: usize) -> (j: usize)
    requires
        i <= v@.len(),
    ensures
        i <= j <= v@.len(),
        j - i == ws_index(v@.skip(i as int)),
        forall|k: int| i <= k < j ==> !is_ws(#[trigger] v@[k]),
        j < v@.len() ==> is_ws(v@[j as int]),
{
    let n = v.len();
    let mut j = i;
    while j < n && !is_whitespace(v[j])
        invariant
            n == v@.len(),
            i <= j <= n,
            forall|k: int| i <= k < j ==> !is_ws(#[trigger] v@[k]),
        decreases n - j,
    {
        j = j + 1;
    }
    proof {
        let t = v@.skip(i as int);
        assert forall|k: int| 0 <= k < j - i implies !is_ws(#[trigger] t[k]) by {
            assert(t[k] == v@[i + k]);
        }
        if j < n {
            assert(t[j - i] == v@[j as int]);
        }
        lemma_ws_index_is(t, j - i);
    }
    j
}

/// Skipping one whitespace character does not change the words.
pub proof fn lemma_words_skip_ws(v: Seq<char>, i: int)
    requires
        0 <= i < v.len(),
        is_ws(v[i]),
    ensures
        words(v.skip(i)) == words(v.skip(i + 1)),
{
    let t = v.skip(i);
    assert(t[0] == v[i]);
    assert(t.drop_first() =~= v.skip(i + 1));
}

/// The words of the text from a word start: that word, then the words
/// after it.
pub proof fn lemma_words_take_word(v: Seq<char>, i: int, j: int)
    requires
        0 <= i < j <= v.len(),
        j - i == ws_index(v.skip(i)),
    ensures
        words(v.skip(i)) == seq![v.subrange(i, j)] + words(v.skip(j)),
{
    let t = v.skip(i);
    lemma_ws_index(t);
    assert(!is_ws(t[0]));
    assert(t.take(j - i) =~= v.subrange(i, j));
    assert(t.skip(j - i) =~= v.skip(j));
}

/// `s` trimmed, as a new `String`.
pub fn trimmed(s: &str) -> (r: String)
    ensures
        r@ == trim(s@),
{
    let v = chars_of(s);
    let n = v.len();
    let (a, b) = trim_bounds(&v, 0, n);
    assert(v@.subrange(0, n as int) =~= v@);
    substring(s, a, b)
}

/// Whether `c` is an ASCII decimal digit.
pub open spec fn is_digit(c: char) -> bool {
    '0' <= c <= '9'
}

/// The value of the decimal digit `c`.
pub open spec fn digit_value(c: char) -> int {
    c as int - '0' as int
}

/// The decimal digit of value `d`, for `d < 10`.
pub open spec fn digit_char(d: int) -> char {
    seq!['0', '1', '2', '3', '4', '5', '6', '7', '8', '9'][d]
}

/// The value of the decimal numeral `d`.
pub open spec fn numeral_value(d: Seq<char>) -> int
    decreases d.len(),
{
    if d.len() == 0 {
        0
    } else {
        numeral_value(d.drop_last()) * 10 + digit_value(d.last())
    }
}

/// The decimal numeral of `n`, without leading zeros, as Rust's `Display`
/// writes an unsigned integer.
pub open spec fn decimal(n: nat) -> Seq<char>
    decreases n,
{
    if n < 10 {
        seq![digit_char(n as int)]
    } else {
        decimal(n / 10) + seq![digit_char((n % 10) as int)]
    }
}

/// The decimal numeral of `i`, with a minus sign when negative, as Rust's
/// `Display` writes a signed integer.
pub open spec fn decimal_int(i: int) -> Seq<char> {
    if i < 0 {
        seq!['-'] + decimal((-i) as nat)
    } else {
        decimal(i as nat)
    }
}

/// A decimal numeral is made of digits, is not empty, and has value `n`.
pub proof fn lemma_decimal(n: nat)
    ensures
        decimal(n).len() > 0,
        forall|j: int| 0 <= j < decimal(n).len() ==> is_digit(#[trigger] decimal(n)[j]),
        numeral_value(decimal(n)) == n,
    decreases n,
{
    let r = (n % 10) as int;
    assert(digit_value(digit_char(r)) == r);
    if n < 10 {
        assert(digit_value(digit_char(n as int)) == n);
        let d = seq![digit_char(n as int)];
        assert(d.drop_last() =~= Seq::<char>::empty());
        assert(numeral_value(d) == numeral_value(d.drop_last()) * 10 + digit_value(d.last()));
    }
    if n >= 10 {
        lemma_decimal(n / 10);
        let d = decimal(n / 10) + seq![digit_char((n % 10) as int)];
        assert(d.drop_last() =~= decimal(n / 10));
        assert(d.last() == digit_char(r));
        assert(numeral_value(d) == numeral_value(decimal(n / 10)) * 10 + r);
        assert((n / 10) * 10 + r == n);
        assert forall|j: int| 0 <= j < d.len() implies is_digit(#[trigger] d[j]) by {
            if j < d.len() - 1 {
                assert(d[j] == decimal(n / 10)[j]);
            }
        }
    }
}

/// A numeral is at least the value of each of its prefixes.
pub proof fn lemma_numeral_prefix(d: Seq<char>, k: int)
    requires
        0 <= k <= d.len(),
        forall|j: int| 0 <= j < d.len() ==> is_digit(#[trigger] d[j]),
    ensures
        numeral_value(d.take(k)) <= numeral_value(d),
        0 <= numeral_value(d),
    decreases d.len(),
{
    if d.len() > 0 {
        let t = d.drop_last();
        assert forall|j: int| 0 <= j < t.len() implies is_digit(#[trigger] t[j]) by {
            assert(t[j] == d[j]);
        }
        assert(is_digit(d[d.len() - 1]));
        if k < d.len() {
            lemma_numeral_prefix(t, k);
            assert(t.take(k) =~= d.take(k));
        } else {
            lemma_numeral_prefix(t, 0);
            assert(d.take(k) =~= d);
        }
    } else {
        assert(d.take(k) =~= d);
    }
}

/// The numeral of `n`, as a `String`.
pub fn decimal_string(n: u64) -> (r: String)
    ensures
        r@ == decimal(n as nat),
    decreases n,
{
    let digits: [&str; 10] = ["0", "1", "2", "3", "4", "5", "6", "7", "8", "9"];
    let d = (n % 10) as usize;
    let one = digits[d];
    proof {
        reveal_strlit("0");
        reveal_strlit("1");
        reveal_strlit("2");
        reveal_strlit("3");
        reveal_strlit("4");
        reveal_strlit("5");
        reveal_strlit("6");
        reveal_strlit("7");
        reveal_strlit("8");
        reveal_strlit("9");
        assert(one@ =~= seq![digit_char(d as int)]);
    }
    if n < 10 {
        String::from_str(one)
    } else {
        let mut s = decimal_string(n / 10);
        s.append(one);
        s
    }
}

/// The numeral of `i`, with a minus sign when negative, as a `String`.
pub fn decimal_int_string(i: i32) -> (r: String)
    ensures
        r@ == decimal_int(i as int),
{
    if i < 0 {
        let m: i64 = -(i as i64);
        let mut s = String::from_str("-");
        s.append(decimal_string(m as u64).as_str());
        proof {
            reveal_strlit("-");
        }
        s
    } else {
        decimal_string(i as u64)
    }
}

/// Whether `c` occurs in `s`.
pub open spec fn has_char(s: Seq<char>, c: char) -> bool {
    exists|j: int| 0 <= j < s.len() && s[j] == c
}

/// `char_index` over the range `v[lo..hi]` seen through `find_char`.
pub proof fn lemma_has_char_range(v: Seq<char>, lo: int, hi: int, c: char, r: int)
    requires
        0 <= lo <= r <= hi <= v.len(),
        forall|j: int| lo <= j < r ==> v[j] != c,
        r < hi ==> v[r] == c,
    ensures
        has_char(v.subrange(lo, hi), c) == (r < hi),
{
    let t = v.subrange(lo, hi);
    if r < hi {
        assert(t[r - lo] == c);
    } else {
        assert forall|j: int| 0 <= j < t.len() implies t[j] != c by {
            assert(t[j] == v[lo + j]);
        }
    }
}

/// Whether `c` occurs in `v[lo..hi]`.
pub fn has_char_in(v: &Vec<char>, c: char, lo: usize, hi: usize) -> (r: bool)
    requires
        lo <= hi <= v@.len(),
    ensures
        r == has_char(v@.subrange(lo as int, hi as int), c),
{
    let k = find_char(v, c, lo, hi);
    proof {
        lemma_has_char_range(v@, lo as int, hi as int, c, k as int);
    }
    k < hi
}

/// Position of the first `c` in `s[from..hi]`, or `hi` when there is none.
pub fn find_char(s: &Vec<char>, c: char, from: usize, hi: usize) -> (r: usize)
    requires
        from <= hi <= s@.len(),
    ensures
        from <= r <= hi,
        r - from == char_index(s@.subrange(from as int, hi as int), c),
        forall|j: int| from <= j < r ==> s@[j] != c,
        r < hi ==> s@[r as int] == c,
{
    let mut i = from;
    while i < hi && s[i] != c
        invariant
            from <= i <= hi <= s@.len(),
            forall|j: int| from <= j < i ==> s@[j] != c,
        decreases hi - i,
    {
        i = i + 1;
    }
    proof {
        let t = s@.subrange(from as int, hi as int);
        assert forall|j: int| 0 <= j < i - from implies t[j] != c by {
            assert(t[j] == s@[from + j]);
        }
        if i < hi {
            assert(t[i - from] == s@[i as int]);
        }
        lemma_char_index_is(t, c, i - from);
    }
    i
}

/// Whether `p` stands in `s` at position `i`.
pub open spec fn occurs_at<T>(s: Seq<T>, p: Seq<T>, i: int) -> bool {
    0 <= i && i + p.len() <= s.len() && s.subrange(i, i + p.len()) == p
}

/// Whether `p` occurs somewhere in `s`.
pub open spec fn contains_seq<T>(s: Seq<T>, p: Seq<T>) -> bool {
    exists|i: int| occurs_at(s, p, i)
}

/// Whether `s` starts with `p`.
pub open spec fn starts_with<T>(s: Seq<T>, p: Seq<T>) -> bool {
    occurs_at(s, p, 0)
}

/// Whether the characters `p` stand in `s` at position `i`.
pub fn chars_at(s: &Vec<char>, p: &Vec<char>, i: usize) -> (r: bool)
    ensures
        r == occurs_at(s@, p@, i as int),
{
    let n = s.len();
    if i > n || p.len() > n - i {
        return false;
    }
    let mut k: usize = 0;
    while k < p.len()
        invariant
            n == s@.len(),
            i + p@.len() <= n,
            0 <= k <= p@.len(),
            forall|j: int| 0 <= j < k ==> s@[i + j] == p@[j],
        decreases p@.len() - k,
    {
        if s[i + k] != p[k] {
            assert(s@.subrange(i as int, i + p@.len())[k as int] != p@[k as int]);
            return false;
        }
        k = k + 1;
    }
    assert(s@.subrange(i as int, i + p@.len()) =~= p@);
    true
}

/// Whether the characters `p` occur in `s`.
pub fn contains_chars(s: &Vec<char>, p: &Vec<char>) -> (r: bool)
    ensures
        r == contains_seq(s@, p@),
{
    if p.len() > s.len() {
        return false;
    }
    if p.len() == 0 {
        assert(s@.subrange(0, 0) =~= p@);
        assert(occurs_at(s@, p@, 0));
        return true;
    }
    let n = s.len();
    let last = n - p.len();
    let mut i: usize = 0;
    while i <= last
        invariant
            n == s@.len(),
            last + p@.len() == n,
            p@.len() >= 1,
            0 <= i <= last + 1,
            forall|j: int| 0 <= j < i ==> !occurs_at(s@, p@, j),
        decreases last + 1 - i,
    {
        if chars_at(s, p, i) {
            return true;
        }
        i = i + 1;
    }
    false
}

/// Whether the bytes `p` stand in `s` at position `i`.
pub fn bytes_at(s: &[u8], p: &[u8], i: usize) -> (r: bool)
    ensures
        r == occurs_at(s@, p@, i as int),
{
    let n = s.len();
    if i > n || p.len() > n - i {
        return false;
    }
    let mut k: usize = 0;
    while k < p.len()
        invariant
            n == s@.len(),
            i + p@.len() <= n,
            0 <= k <= p@.len(),
            forall|j: int| 0 <= j < k ==> s@[i + j] == p@[j],
        decreases p@.len() - k,
    {
        if s[i + k] != p[k] {
            assert(s@.subrange(i as int, i + p@.len())[k as int] != p@[k as int]);
            return false;
        }
        k = k + 1;
    }
    assert(s@.subrange(i as int, i + p@.len()) =~= p@);
    true
}

/// Whether the bytes `p` occur in `s`.
pub fn contains_bytes(s: &[u8], p: &[u8]) -> (r: bool)
    ensures
        r == contains_seq(s@, p@),
{
    let n = s.len();
    if p.len() > n {
        return false;
    }
    if p.len() == 0 {
        assert(s@.subrange(0, 0) =~= p@);
        assert(occurs_at(s@, p@, 0));
        return true;
    }
    let last = n - p.len();
    let mut i: usize = 0;
    while i <= last
        invariant
            n == s@.len(),
            last + p@.len() == n,
            p@.len() >= 1,
            0 <= i <= last + 1,
            forall|j: int| 0 <= j < i ==> !occurs_at(s@, p@, j),
        decreases last + 1 - i,
    {
        if bytes_at(s, p, i) {
            return true;
        }
        i = i + 1;
    }
    false
}

/// The view of an optional string.
pub open spec fn opt_view(o: Option<String>) -> Option<Seq<char>> {
    match o {
        Some(s) => Some(s@),
        None => None,
    }
}

/// The characters of `s`, one by one.
pub fn chars_of(s: &str) -> (v: Vec<char>)
    ensures
        v@ == s@,
{
    let n = s.unicode_len();
    let mut v: Vec<char> = Vec::new();
    let mut i: usize = 0;
    while i < n
        invariant
            n == s@.len(),
            i <= n,
            v@ == s@.take(i as int),
        decreases n - i,
    {
        let c = s.get_char(i);
        v.push(c);
        i = i + 1;
        assert(v@ =~= s@.take(i as int));
    }
    assert(s@.take(n as int) =~= s@);
    v
}

/// The characters `from..to` of `s`, as a new `String`.
pub fn substring(s: &str, from: usize, to: usize) -> (r: String)
    requires
        from <= to <= s@.len(),
    ensures
        r@ == s@.subrange(from as int, to as int),
{
    String::from_str(s.substring_char(from, to))
}

} // verus!
