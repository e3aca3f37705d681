//! Flags commands that destroy data or disks, so that their confirmation
//! prompt carries a warning.
use vstd::prelude::*;
use crate::text::{chars_of, contains_chars, contains_seq, occurs_at};

verus! {

/// What `str::to_lowercase` gives for a text that is not all ASCII (the
/// Unicode lowercase mapping).
pub uninterp spec fn str_lowercase(s: Seq<char>) -> Seq<char>;

/// Whether every character of `s` is ASCII.
pub open spec fn is_ascii_text(s: Seq<char>) -> bool {
    forall|i: int| 0 <= i < s.len() ==> (#[trigger] s[i]) as int <= 0x7f
}

/// The ASCII lowercase of `c`: `A` to `Z` become `a` to `z`, other
/// characters stay.
pub open spec fn ascii_lower(c: char) -> char {
    if 'A' <= c <= 'Z' {
        (c as int + 32) as char
    } else {
        c
    }
}

/// The lowercase form of `s`: each ASCII letter lowered when `s` is all
/// ASCII; else the Unicode lowercase mapping.
pub open spec fn lowercase_text(s: Seq<char>) -> Seq<char> {
    if is_ascii_text(s) {
        s.map_values(|c: char| ascii_lower(c))
    } else {
        str_lowercase(s)
    }
}

/// Whether `t` is `s` with the case of some ASCII letters changed: same
/// length, and at each place the same character once ASCII letters are
/// lowered (every other character is the same).
pub open spec fn ascii_case_variant(s: Seq<char>, t: Seq<char>) -> bool {
    s.len() == t.len() && forall|i: int| 0 <= i < s.len() ==> ascii_lower(#[trigger] s[i]) == ascii_lower(t[i])
}

/// Calls `str::to_lowercase`. Claimed, as std documents it (the Unicode
/// lowercase mapping): a text that is all ASCII has each of `A` to `Z`
/// lowered and every other character kept; any other text gives
/// `str_lowercase(s@)`, a function of the text alone (the Unicode mapping
/// is not restated here). Also claimed: changing the case of ASCII letters
/// does not change the result. In Unicode's lowercase mapping of a text
/// each character is lowered on its own, `A`–`Z` to `a`–`z`, and only a
/// capital sigma looks at its neighbours, at whether they are letters with
/// case, which an ASCII letter is in either case.
#[verifier::external_body]
fn to_lowercase(s: &str) -> (r: String)
    ensures
        is_ascii_text(s@) ==> r@ == s@.map_values(|c: char| ascii_lower(c)),
        !is_ascii_text(s@) ==> r@ == str_lowercase(s@),
        forall|t: Seq<char>| #[trigger] ascii_case_variant(s@, t) ==> r@ == lowercase_text(t),
{
    s.to_lowercase()
}

/// The patterns of destructive or high-risk commands, in lowercase.
pub open spec fn destructive_patterns() -> Seq<Seq<char>> {
    seq![
        "rm -rf"@,
        "rm -fr"@,
        "rm -r"@,
        "dd if="@,
        "mkfs"@,
        ":(){ :|:"@,
        "chmod -r 777"@,
        "chmod 777"@,
        "> /dev/"@,
        "shred "@,
        "wipefs"@,
        "fdisk"@,
        "diskutil erasedisk"@,
        "diskutil erasevolume"@,
        "format "@,
        "truncate "@,
        "mv / "@,
        "mv /* "@,
    ]
}

/// Whether the text `s` contains one of the destructive patterns.
pub open spec fn has_destructive_pattern(s: Seq<char>) -> bool {
    exists|i: int| 0 <= i < destructive_patterns().len() && contains_seq(s, #[trigger] destructive_patterns()[i])
}

/// Whether `lower`, a command already in lowercase, contains one of the
/// destructive patterns.
pub fn matches_destructive_pattern(lower: &str) -> (r: bool)
    ensures
        r == has_destructive_pattern(lower@),
{
    let pats: [&str; 18] = [
        "rm -rf",
        "rm -fr",
        "rm -r",
        "dd if=",
        "mkfs",
        ":(){ :|:",
        "chmod -r 777",
        "chmod 777",
        "> /dev/",
        "shred ",
        "wipefs",
        "fdisk",
        "diskutil erasedisk",
        "diskutil erasevolume",
        "format ",
        "truncate ",
        "mv / ",
        "mv /* ",
    ];
    assert(pats@.map_values(|p: &str| p@) =~= destructive_patterns());
    let text = chars_of(lower);
    let mut i: usize = 0;
    while i < 18
        invariant
            0 <= i <= 18,
            text@ == lower@,
            pats@.map_values(|p: &str| p@) == destructive_patterns(),
            forall|j: int| 0 <= j < i ==> !contains_seq(lower@, #[trigger] destructive_patterns()[j]),
        decreases 18 - i,
    {
        let p = chars_of(pats[i]);
        assert(p@ == destructive_patterns()[i as int]) by {
            assert(pats@.map_values(|p: &str| p@)[i as int] == pats@[i as int]@);
        }
        if contains_chars(&text, &p) {
            return true;
        }
        i = i + 1;
    }
    false
}

/// Whether `cmd` is destructive or high-risk: its lowercase form contains
/// one of the destructive patterns. Law (second clause): the patterns are
/// matched without regard to case, so the answer is the same for every
/// command that differs from `cmd` only in the case of ASCII letters.
pub fn is_destructive(cmd: &str) -> (r: bool)
    ensures
        r == has_destructive_pattern(lowercase_text(cmd@)),
        forall|t: Seq<char>| #[trigger] ascii_case_variant(cmd@, t) ==> r == has_destructive_pattern(
            lowercase_text(t),
        ),
{
    let lower = to_lowercase(cmd);
    matches_destructive_pattern(lower.as_str())
}

/// Law: text around a destructive command does not make it safe: if `s`
/// holds a destructive pattern, so does `a + s + b`.
pub proof fn law_pattern_survives_context(a: Seq<char>, s: Seq<char>, b: Seq<char>)
    requires
        has_destructive_pattern(s),
    ensures
        has_destructive_pattern(a + s + b),
{
    let i = choose|i: int| 0 <= i < destructive_patterns().len() && contains_seq(s, #[trigger] destructive_patterns()[i]);
    let p = destructive_patterns()[i];
    let k = choose|k: int| occurs_at(s, p, k);
    let t = a + s + b;
    assert(t.subrange(a.len() + k, a.len() + k + p.len()) =~= s.subrange(k, k + p.len()));
    assert(occurs_at(t, p, a.len() + k));
    assert(contains_seq(t, destructive_patterns()[i]));
}

/// Law: a text holds a destructive pattern exactly when it contains one of
/// these eighteen: `rm -rf`, `rm -fr`, `rm -r`, `dd if=`, `mkfs`,
/// `:(){ :|:`, `chmod -r 777`, `chmod 777`, `> /dev/`, `shred `, `wipefs`,
/// `fdisk`, `diskutil erasedisk`, `diskutil erasevolume`, `format `,
/// `truncate `, `mv / `, `mv /* `. (`is_destructive` asks this of the
/// command's lowercase form.)
pub proof fn law_destructive_patterns_listed(s: Seq<char>)
    ensures
        has_destructive_pattern(s) == (contains_seq(s, "rm -rf"@) || contains_seq(s, "rm -fr"@)
            || contains_seq(s, "rm -r"@) || contains_seq(s, "dd if="@) || contains_seq(s, "mkfs"@)
            || contains_seq(s, ":(){ :|:"@) || contains_seq(s, "chmod -r 777"@) || contains_seq(
            s,
            "chmod 777"@,
        ) || contains_seq(s, "> /dev/"@) || contains_seq(s, "shred "@) || contains_seq(
            s,
            "wipefs"@,
        ) || contains_seq(s, "fdisk"@) || contains_seq(s, "diskutil erasedisk"@) || contains_seq(
            s,
            "diskutil erasevolume"@,
        ) || contains_seq(s, "format "@) || contains_seq(s, "truncate "@) || contains_seq(
            s,
            "mv / "@,
        ) || contains_seq(s, "mv /* "@)),
{
    let p = destructive_patterns();
    assert(p.len() == 18);
    if has_destructive_pattern(s) {
        let i = choose|i: int| 0 <= i < p.len() && contains_seq(s, #[trigger] p[i]);
        assert(0 <= i < 18);
    }
    assert(p[0] == "rm -rf"@);
    assert(p[1] == "rm -fr"@);
    assert(p[2] == "rm -r"@);
    assert(p[3] == "dd if="@);
    assert(p[4] == "mkfs"@);
    assert(p[5] == ":(){ :|:"@);
    assert(p[6] == "chmod -r 777"@);
    assert(p[7] == "chmod 777"@);
    assert(p[8] == "> /dev/"@);
    assert(p[9] == "shred "@);
    assert(p[10] == "wipefs"@);
    assert(p[11] == "fdisk"@);
    assert(p[12] == "diskutil erasedisk"@);
    assert(p[13] == "diskutil erasevolume"@);
    assert(p[14] == "format "@);
    assert(p[15] == "truncate "@);
    assert(p[16] == "mv / "@);
    assert(p[17] == "mv /* "@);
}

} // verus!
