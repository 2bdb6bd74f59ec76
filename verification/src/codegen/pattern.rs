//! Small recognisers from which the SQL and Go source grammars are built.
use vstd::prelude::*;
use crate::text::{is_ws, is_whitespace, lower_char, to_lower_char};
use crate::unicode::{is_regex_word, regex_word};

verus! {

/// First position at or after `i` that is not `White_Space`.
pub open spec fn ws_end(s: Seq<char>, i: int) -> int
    decreases s.len() - i,
{
    if 0 <= i < s.len() && is_ws(s[i]) {
        ws_end(s, i + 1)
    } else {
        i
    }
}

pub proof fn lemma_ws_end(s: Seq<char>, i: int)
    requires
        0 <= i <= s.len(),
    ensures
        i <= ws_end(s, i) <= s.len(),
        forall|k: int| i <= k < ws_end(s, i) ==> is_ws(#[trigger] s[k]),
        ws_end(s, i) == s.len() || !is_ws(s[ws_end(s, i)]),
    decreases s.len() - i,
{
    if i < s.len() && is_ws(s[i]) {
        lemma_ws_end(s, i + 1);
    }
}

pub fn skip_ws(s: &[char], i: usize) -> (r: usize)
    requires
        i <= s@.len(),
    ensures
        r == ws_end(s@, i as int),
        i <= r <= s@.len(),
{
    let mut j = i;
    while j < s.len() && is_whitespace(s[j])
        invariant
            i <= j <= s@.len(),
            ws_end(s@, j as int) == ws_end(s@, i as int),
        decreases s@.len() - j,
    {
        j += 1;
    }
    j
}

/// `c` matches the lower-case ASCII letter `l` under Unicode simple case folding.
pub open spec fn ci_char(c: char, l: char) -> bool {
    ||| lower_char(c) == l
    ||| (l == 's' && c == '\u{17f}')
    ||| (l == 'k' && c == '\u{212a}')
}

pub fn ci_char_exec(c: char, l: char) -> (r: bool)
    ensures
        r == ci_char(c, l),
{
    to_lower_char(c) == l || (l == 's' && c == '\u{17f}') || (l == 'k' && c == '\u{212a}')
}

/// The lower-case word `w` occurs case-insensitively at `i`.
pub open spec fn ci_at(s: Seq<char>, i: int, w: Seq<char>) -> bool {
    0 <= i && i + w.len() <= s.len() && forall|k: int| 0 <= k < w.len() ==> ci_char(#[trigger] s[i + k], w[k])
}

pub fn ci_match(s: &[char], i: usize, w: &str) -> (r: bool)
    ensures
        r == ci_at(s@, i as int, w@),
{
    let wv = crate::text::chars_of(w);
    let n = s.len();
    if i > n || wv.len() > n - i {
        return false;
    }
    let mut k: usize = 0;
    while k < wv.len()
        invariant
            wv@ == w@,
            n == s@.len(),
            i + wv@.len() <= n,
            k <= wv@.len(),
            forall|j: int| 0 <= j < k ==> ci_char(#[trigger] s@[i + j], w@[j]),
        decreases wv@.len() - k,
    {
        if !ci_char_exec(s[i + k], wv[k]) {
            return false;
        }
        k += 1;
    }
    true
}

/// ASCII letters, with the two non-ASCII letters that fold onto them.
pub open spec fn is_letter_ci(c: char) -> bool {
    ('a' <= c && c <= 'z') || ('A' <= c && c <= 'Z') || c == '\u{17f}' || c == '\u{212a}'
}

pub open spec fn is_digit(c: char) -> bool {
    '0' <= c && c <= '9'
}

/// Characters of an SQL name: `[a-zA-Z0-9_]`, plus `.` when `dot` holds.
pub open spec fn is_name_char(c: char, dot: bool) -> bool {
    is_letter_ci(c) || is_digit(c) || c == '_' || (dot && c == '.')
}

pub fn is_name_char_exec(c: char, dot: bool) -> (r: bool)
    ensures
        r == is_name_char(c, dot),
{
    ('a' <= c && c <= 'z') || ('A' <= c && c <= 'Z') || c == '\u{17f}' || c == '\u{212a}' || (
    '0' <= c && c <= '9') || c == '_' || (dot && c == '.')
}

/// End of the run of name characters starting at `i`.
pub open spec fn name_end(s: Seq<char>, i: int, dot: bool) -> int
    decreases s.len() - i,
{
    if 0 <= i < s.len() && is_name_char(s[i], dot) {
        name_end(s, i + 1, dot)
    } else {
        i
    }
}

pub proof fn lemma_name_end(s: Seq<char>, i: int, dot: bool)
    requires
        0 <= i <= s.len(),
    ensures
        i <= name_end(s, i, dot) <= s.len(),
        forall|k: int| i <= k < name_end(s, i, dot) ==> is_name_char(#[trigger] s[k], dot),
        name_end(s, i, dot) == s.len() || !is_name_char(s[name_end(s, i, dot)], dot),
    decreases s.len() - i,
{
    if i < s.len() && is_name_char(s[i], dot) {
        lemma_name_end(s, i + 1, dot);
    }
}

pub fn skip_name(s: &[char], i: usize, dot: bool) -> (r: usize)
    requires
        i <= s@.len(),
    ensures
        r == name_end(s@, i as int, dot),
        i <= r <= s@.len(),
{
    let mut j = i;
    while j < s.len() && is_name_char_exec(s[j], dot)
        invariant
            i <= j <= s@.len(),
            name_end(s@, j as int, dot) == name_end(s@, i as int, dot),
        decreases s@.len() - j,
    {
        j += 1;
    }
    j
}

/// Position after an optional `c` at `i`.
pub open spec fn opt_char(s: Seq<char>, i: int, c: char) -> int {
    if 0 <= i < s.len() && s[i] == c { i + 1 } else { i }
}

pub fn skip_opt_char(s: &[char], i: usize, c: char) -> (r: usize)
    requires
        i <= s@.len(),
    ensures
        r == opt_char(s@, i as int, c),
        i <= r <= s@.len(),
{
    if i < s.len() && s[i] == c { i + 1 } else { i }
}

/// `s[i] == c`.
pub open spec fn char_at(s: Seq<char>, i: int, c: char) -> bool {
    0 <= i < s.len() && s[i] == c
}

/// First position at or after `i` holding `c`, or `s.len()`.
pub open spec fn find_char(s: Seq<char>, i: int, c: char) -> int
    decreases s.len() - i,
{
    if 0 <= i < s.len() && s[i] != c {
        find_char(s, i + 1, c)
    } else {
        i
    }
}

pub proof fn lemma_find_char(s: Seq<char>, i: int, c: char)
    requires
        0 <= i <= s.len(),
    ensures
        i <= find_char(s, i, c) <= s.len(),
        forall|k: int| i <= k < find_char(s, i, c) ==> #[trigger] s[k] != c,
        find_char(s, i, c) == s.len() || s[find_char(s, i, c)] == c,
    decreases s.len() - i,
{
    if i < s.len() && s[i] != c {
        lemma_find_char(s, i + 1, c);
    }
}

pub fn seek_char(s: &[char], i: usize, c: char) -> (r: usize)
    requires
        i <= s@.len(),
    ensures
        r == find_char(s@, i as int, c),
        i <= r <= s@.len(),
{
    let mut j = i;
    while j < s.len() && s[j] != c
        invariant
            i <= j <= s@.len(),
            find_char(s@, j as int, c) == find_char(s@, i as int, c),
        decreases s@.len() - j,
    {
        j += 1;
    }
    j
}

/// A word character in the sense of a regular-expression `\w` boundary test.
pub open spec fn is_word(c: char) -> bool {
    regex_word(c)
}

pub fn is_word_exec(c: char) -> (r: bool)
    ensures
        r == is_word(c),
{
    is_regex_word(c)
}

} // verus!
