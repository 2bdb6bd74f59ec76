//! Parsing of a `CREATE TABLE` statement, with its `COMMENT ON` companions, into fields.
use vstd::prelude::*;
use crate::text::{chars_of, string_of, trim, trimmed, slice_of, upper, to_upper, push_all, eq_str, has_prefix, starts_with_str, contains_seq, contains_str, dec, push_dec, is_ws};
use crate::unicode::{unicode_upper};
use crate::text::{lower, to_lower, views, has_suffix, ends_with_str, join, join_with};
use crate::text::{trim_start, lemma_trim_start_skip, seq_eq};
use crate::codegen::naming::{name_segments, segments_of, capitalize};
use crate::codegen::types::{ParsedField, ParsedTable, FieldSpec, TableSpec, field_views};
use crate::codegen::sql_statement::{SqlStatement, StatementSpec, statement_views, classify, classify_statement, split_sql_statements, split_top_level_segments};
use crate::codegen::sql_lexer::{split_top, closes_at, find_matching_paren};
use crate::codegen::pattern::{ws_end, skip_ws, ci_at, ci_match, char_at, find_char, seek_char, name_end, skip_name, opt_char, skip_opt_char, is_letter_ci, is_digit, lemma_ws_end, is_word, is_word_exec};

verus! {

/// A word starts at `p`: it is the first character or follows a non-word character.
pub open spec fn word_start(s: Seq<char>, p: int) -> bool {
    p == 0 || (0 < p <= s.len() && !is_word(s[p - 1]))
}

fn word_start_exec(s: &[char], p: usize) -> (r: bool)
    requires
        p <= s@.len(),
    ensures
        r == word_start(s@, p as int),
{
    p == 0 || !is_word_exec(s[p - 1])
}

/// `comment [=] '<text>'` starting at `p`; the quoted text.
pub open spec fn comment_at(s: Seq<char>, p: int) -> Option<Seq<char>> {
    if word_start(s, p) && ci_at(s, p, "comment"@) {
        let a = ws_end(s, p + 7);
        let b = if char_at(s, a, '=') { ws_end(s, a + 1) } else { a };
        let c = find_char(s, b + 1, '\'');
        if char_at(s, b, '\'') && c < s.len() {
            Some(s.subrange(b + 1, c))
        } else {
            None
        }
    } else {
        None
    }
}

fn comment_at_exec(s: &[char], p: usize) -> (r: Option<Vec<char>>)
    requires
        p <= s@.len(),
    ensures
        match comment_at(s@, p as int) {
            Some(v) => r is Some && r->0@ == v,
            None => r is None,
        },
{
    proof {
        reveal_strlit("comment");
    }
    if !(word_start_exec(s, p) && ci_match(s, p, "comment")) {
        return None;
    }
    let n = s.len();
    assert(p + 7 <= n);
    let a = skip_ws(s, p + 7);
    let b = if a < s.len() && s[a] == '=' {
        skip_ws(s, a + 1)
    } else {
        a
    };
    if b < s.len() && s[b] == '\'' {
        let c = seek_char(s, b + 1, '\'');
        if c < s.len() {
            return Some(slice_of(s, b + 1, c));
        }
    }
    None
}

/// The text of the leftmost `comment '...'` clause in `s`, trimmed, if it is not empty.
#[verifier::opaque]
pub open spec fn sql_comment(s: Seq<char>) -> Option<Seq<char>> {
    if exists|p: int| 0 <= p <= s.len() && comment_at(s, p) is Some {
        let p = choose|p: int|
            0 <= p <= s.len() && comment_at(s, p) is Some && forall|q: int|
                0 <= q < p ==> comment_at(s, q) is None;
        let v = trim(comment_at(s, p)->0);
        if v.len() > 0 { Some(v) } else { None }
    } else {
        None
    }
}

/// Position of the leftmost match of `comment_at`.
fn first_comment(s: &[char]) -> (r: Option<(usize, Vec<char>)>)
    ensures
        match r {
            Some((p, v)) => p <= s@.len() && comment_at(s@, p as int) == Some(v@) && forall|q: int|
                0 <= q < p ==> comment_at(s@, q) is None,
            None => forall|q: int| 0 <= q <= s@.len() ==> comment_at(s@, q) is None,
        },
{
    let mut p: usize = 0;
    loop
        invariant
            p <= s@.len(),
            forall|q: int| 0 <= q < p ==> comment_at(s@, q) is None,
        decreases s@.len() - p,
    {
        match comment_at_exec(s, p) {
            Some(v) => return Some((p, v)),
            None => {},
        }
        if p == s.len() {
            return None;
        }
        p += 1;
    }
}

pub fn extract_comment(rest: &[char]) -> (r: Option<Vec<char>>)
    ensures
        match sql_comment(rest@) {
            Some(v) => r is Some && r->0@ == v,
            None => r is None,
        },
{
    proof {
        reveal(sql_comment);
    }
    match first_comment(rest) {
        Some((p, v)) => {
            let t = trimmed(v.as_slice());
            proof {
                let w = choose|w: int|
                    0 <= w <= rest@.len() && comment_at(rest@, w) is Some && forall|q: int|
                        0 <= q < w ==> comment_at(rest@, q) is None;
                assert(w == p) by {
                    if w < p {
                    } else if w > p {
                        assert(comment_at(rest@, p as int) is None);
                    }
                }
            }
            if t.len() > 0 {
                Some(t)
            } else {
                None
            }
        },
        None => None,
    }
}

/// End of the run of characters other than `White_Space` and `,` starting at `i`.
pub open spec fn token_end(s: Seq<char>, i: int) -> int
    decreases s.len() - i,
{
    if 0 <= i < s.len() && !is_ws(s[i]) && s[i] != ',' {
        token_end(s, i + 1)
    } else {
        i
    }
}

fn skip_token(s: &[char], i: usize) -> (r: usize)
    requires
        i <= s@.len(),
    ensures
        r == token_end(s@, i as int),
        i <= r <= s@.len(),
{
    let mut j = i;
    while j < s.len() && !crate::text::is_whitespace(s[j]) && s[j] != ','
        invariant
            i <= j <= s@.len(),
            token_end(s@, j as int) == token_end(s@, i as int),
        decreases s@.len() - j,
    {
        j += 1;
    }
    j
}

/// `default <value>` starting at `p`; the value, quoted or a bare token.
pub open spec fn default_at(s: Seq<char>, p: int) -> Option<Seq<char>> {
    if word_start(s, p) && ci_at(s, p, "default"@) {
        let a = p + 7;
        let b = ws_end(s, a);
        if b > a {
            let c = find_char(s, b + 1, '\'');
            if char_at(s, b, '\'') && c < s.len() {
                Some(s.subrange(b, c + 1))
            } else {
                let e = token_end(s, b);
                if e > b { Some(s.subrange(b, e)) } else { None }
            }
        } else {
            None
        }
    } else {
        None
    }
}

fn default_at_exec(s: &[char], p: usize) -> (r: Option<Vec<char>>)
    requires
        p <= s@.len(),
    ensures
        match default_at(s@, p as int) {
            Some(v) => r is Some && r->0@ == v,
            None => r is None,
        },
{
    proof {
        reveal_strlit("default");
    }
    if !(word_start_exec(s, p) && ci_match(s, p, "default")) {
        return None;
    }
    let n = s.len();
    assert(p + 7 <= n);
    let a = p + 7;
    let b = skip_ws(s, a);
    if b == a {
        return None;
    }
    if b < n && s[b] == '\'' {
        let c = seek_char(s, b + 1, '\'');
        if c < n {
            return Some(slice_of(s, b, c + 1));
        }
    }
    let e = skip_token(s, b);
    if e > b {
        Some(slice_of(s, b, e))
    } else {
        None
    }
}

/// `s` without leading and trailing `'` characters, as `trim_matches('\'')`.
pub open spec fn strip_quotes(s: Seq<char>) -> Seq<char>
    decreases s.len(),
{
    if s.len() > 0 && s[0] == '\'' {
        strip_quotes(s.drop_first())
    } else if s.len() > 0 && s.last() == '\'' {
        strip_quotes(s.drop_last())
    } else {
        s
    }
}

fn strip_quotes_exec(v: &[char]) -> (r: Vec<char>)
    ensures
        r@ == strip_quotes(v@),
{
    let mut a: usize = 0;
    let mut b: usize = v.len();
    assert(v@.subrange(0, v@.len() as int) =~= v@);
    while a < b && (v[a] == '\'' || v[b - 1] == '\'')
        invariant
            a <= b <= v@.len(),
            strip_quotes(v@.subrange(a as int, b as int)) == strip_quotes(v@),
        decreases b - a,
    {
        let ghost t = v@.subrange(a as int, b as int);
        if v[a] == '\'' {
            assert(t.drop_first() =~= v@.subrange(a + 1, b as int));
            a += 1;
        } else {
            assert(t.drop_last() =~= v@.subrange(a as int, b - 1));
            b -= 1;
        }
    }
    proof {
        assert(v@.subrange(0, v@.len() as int) =~= v@);
    }
    slice_of(v, a, b)
}

/// The value of the leftmost `default` clause, without surrounding quotes.
#[verifier::opaque]
pub open spec fn sql_default(s: Seq<char>) -> Option<Seq<char>> {
    if exists|p: int| 0 <= p <= s.len() && default_at(s, p) is Some {
        let p = choose|p: int|
            0 <= p <= s.len() && default_at(s, p) is Some && forall|q: int|
                0 <= q < p ==> default_at(s, q) is None;
        Some(strip_quotes(default_at(s, p)->0))
    } else {
        None
    }
}

pub fn extract_default_value(rest: &[char]) -> (r: Option<Vec<char>>)
    ensures
        match sql_default(rest@) {
            Some(v) => r is Some && r->0@ == v,
            None => r is None,
        },
{
    proof {
        reveal(sql_default);
    }
    let mut p: usize = 0;
    loop
        invariant
            p <= rest@.len(),
            forall|q: int| 0 <= q < p ==> default_at(rest@, q) is None,
        decreases rest@.len() - p,
    {
        match default_at_exec(rest, p) {
            Some(v) => {
                proof {
                    reveal(sql_default);
                    let w = choose|w: int|
                        0 <= w <= rest@.len() && default_at(rest@, w) is Some && forall|q: int|
                            0 <= q < w ==> default_at(rest@, q) is None;
                    assert(w == p) by {
                        if w > p {
                            assert(default_at(rest@, p as int) is Some);
                        }
                    }
                }
                return Some(strip_quotes_exec(v.as_slice()));
            },
            None => {},
        }
        if p == rest.len() {
            proof {
                reveal(sql_default);
            }
            return None;
        }
        p += 1;
    }
}

/// Column type at the start of `rest`: letters, then an optional `(...)`, upper-cased.
pub open spec fn sql_db_type(rest: Seq<char>) -> Option<Seq<char>> {
    let l = name_letters_end(rest, 0);
    if l > 0 {
        let c = find_char(rest, l + 1, ')');
        let e = if char_at(rest, l, '(') && c < rest.len() { c + 1 } else { l };
        Some(upper(rest.take(e)))
    } else {
        None
    }
}

/// End of the run of letters starting at `i`.
pub open spec fn name_letters_end(s: Seq<char>, i: int) -> int
    decreases s.len() - i,
{
    if 0 <= i < s.len() && is_letter_ci(s[i]) {
        name_letters_end(s, i + 1)
    } else {
        i
    }
}

fn skip_letters(s: &[char], i: usize) -> (r: usize)
    requires
        i <= s@.len(),
    ensures
        r == name_letters_end(s@, i as int),
        i <= r <= s@.len(),
{
    let mut j = i;
    while j < s.len() && (('a' <= s[j] && s[j] <= 'z') || ('A' <= s[j] && s[j] <= 'Z') || s[j]
        == '\u{17f}' || s[j] == '\u{212a}')
        invariant
            i <= j <= s@.len(),
            name_letters_end(s@, j as int) == name_letters_end(s@, i as int),
        decreases s@.len() - j,
    {
        j += 1;
    }
    j
}

pub fn extract_db_type(rest: &[char]) -> (r: Result<Vec<char>, Vec<char>>)
    ensures
        match sql_db_type(rest@) {
            Some(t) => r is Ok && r->Ok_0@ == t,
            None => r is Err && r->Err_0@ == "无法解析字段类型: "@ + rest@,
        },
{
    let l = skip_letters(rest, 0);
    if l == 0 {
        let mut e = chars_of("无法解析字段类型: ");
        push_all(&mut e, rest);
        return Err(e);
    }
    let mut e = l;
    if l < rest.len() && rest[l] == '(' {
        let c = seek_char(rest, l + 1, ')');
        if c < rest.len() {
            e = c + 1;
        }
    }
    let t = slice_of(rest, 0, e);
    proof {
        assert(rest@.subrange(0, e as int) =~= rest@.take(e as int));
    }
    Ok(to_upper(t.as_slice()))
}

/// Value of a string of ASCII digits.
pub open spec fn digits_value(s: Seq<char>) -> nat
    decreases s.len(),
{
    if s.len() == 0 {
        0
    } else {
        digits_value(s.drop_last()) * 10 + ((s.last() as int) - 48) as nat
    }
}

/// End of the run of ASCII digits starting at `i`.
pub open spec fn digits_end(s: Seq<char>, i: int) -> int
    decreases s.len() - i,
{
    if 0 <= i < s.len() && is_digit(s[i]) {
        digits_end(s, i + 1)
    } else {
        i
    }
}

pub proof fn lemma_digits_end(s: Seq<char>, i: int)
    requires
        0 <= i <= s.len(),
    ensures
        i <= digits_end(s, i) <= s.len(),
        forall|k: int| i <= k < digits_end(s, i) ==> is_digit(#[trigger] s[k]),
    decreases s.len() - i,
{
    if i < s.len() && is_digit(s[i]) {
        lemma_digits_end(s, i + 1);
    }
}

pub fn skip_digits(s: &[char], i: usize) -> (r: usize)
    requires
        i <= s@.len(),
    ensures
        r == digits_end(s@, i as int),
        i <= r <= s@.len(),
{
    let mut j = i;
    while j < s.len() && '0' <= s[j] && s[j] <= '9'
        invariant
            i <= j <= s@.len(),
            digits_end(s@, j as int) == digits_end(s@, i as int),
        decreases s@.len() - j,
    {
        j += 1;
    }
    j
}

/// Value of the ASCII digits `s[a..b]`, if it fits in `usize`.
pub fn parse_digits(s: &[char], a: usize, b: usize) -> (r: Option<usize>)
    requires
        a <= b <= s@.len(),
        forall|k: int| a <= k < b ==> is_digit(#[trigger] s@[k]),
    ensures
        digits_value(s@.subrange(a as int, b as int)) <= usize::MAX ==> r == Some(
            digits_value(s@.subrange(a as int, b as int)) as usize,
        ),
        digits_value(s@.subrange(a as int, b as int)) > usize::MAX ==> r is None,
{
    let mut v: usize = 0;
    let mut i = a;
    while i < b
        invariant
            a <= i <= b <= s@.len(),
            forall|k: int| a <= k < b ==> is_digit(#[trigger] s@[k]),
            v == digits_value(s@.subrange(a as int, i as int)),
        decreases b - i,
    {
        let d = (s[i] as u32 - 48) as usize;
        assert(s@.subrange(a as int, i + 1).drop_last() =~= s@.subrange(a as int, i as int));
        let ghost next = digits_value(s@.subrange(a as int, i + 1));
        match v.checked_mul(10) {
            Some(m) => match m.checked_add(d) {
                Some(n) => {
                    v = n;
                },
                None => {
                    proof { lemma_digits_value_grows(s@.subrange(a as int, b as int), (i + 1 - a) as int); }
                    assert(s@.subrange(a as int, b as int).take((i + 1 - a) as int) =~= s@.subrange(a as int, i + 1));
                    return None;
                },
            },
            None => {
                proof { lemma_digits_value_grows(s@.subrange(a as int, b as int), (i + 1 - a) as int); }
                assert(s@.subrange(a as int, b as int).take((i + 1 - a) as int) =~= s@.subrange(a as int, i + 1));
                return None;
            },
        }
        i += 1;
    }
    Some(v)
}

/// A digit string is worth at least any of its prefixes.
pub proof fn lemma_digits_value_grows(s: Seq<char>, k: int)
    requires
        0 <= k <= s.len(),
    ensures
        digits_value(s.take(k)) <= digits_value(s),
    decreases s.len() - k,
{
    if k < s.len() {
        lemma_digits_value_grows(s, k + 1);
        assert(s.take(k + 1).drop_last() =~= s.take(k));
    } else {
        assert(s.take(k) =~= s);
    }
}

/// `(` followed by a digit starts at `p`.
pub open spec fn length_at(s: Seq<char>, p: int) -> bool {
    char_at(s, p, '(') && 0 <= p + 1 < s.len() && is_digit(s[p + 1])
}

/// Declared length: the digits after the leftmost `(` that is followed by a digit.
#[verifier::opaque]
pub open spec fn sql_length(s: Seq<char>) -> Option<nat> {
    if exists|p: int| length_at(s, p) {
        let p = choose|p: int| length_at(s, p) && forall|q: int| 0 <= q < p ==> !length_at(s, q);
        let v = digits_value(s.subrange(p + 1, digits_end(s, p + 1)));
        if v <= usize::MAX { Some(v) } else { None }
    } else {
        None
    }
}

fn first_length_pos(s: &[char]) -> (r: Option<usize>)
    ensures
        match r {
            Some(p) => length_at(s@, p as int) && forall|q: int| 0 <= q < p ==> !length_at(s@, q),
            None => forall|q: int| !length_at(s@, q),
        },
{
    let mut p: usize = 0;
    while p < s.len()
        invariant
            p <= s@.len(),
            forall|q: int| 0 <= q < p ==> !length_at(s@, q),
        decreases s@.len() - p,
    {
        if s[p] == '(' && p + 1 < s.len() && '0' <= s[p + 1] && s[p + 1] <= '9' {
            return Some(p);
        }
        p += 1;
    }
    None
}

proof fn lemma_length_choice(s: Seq<char>, p: int)
    requires
        length_at(s, p),
        forall|q: int| 0 <= q < p ==> !length_at(s, q),
    ensures
        sql_length(s) == (if digits_value(s.subrange(p + 1, digits_end(s, p + 1))) <= usize::MAX {
            Some(digits_value(s.subrange(p + 1, digits_end(s, p + 1))))
        } else {
            None
        }),
{
    reveal(sql_length);
    let w = choose|w: int| length_at(s, w) && forall|q: int| 0 <= q < w ==> !length_at(s, q);
    assert(w == p) by {
        if w > p {
            assert(length_at(s, p));
        }
        if w < p {
            assert(!length_at(s, w));
        }
    }
}

pub fn extract_length(s: &[char]) -> (r: Option<usize>)
    ensures
        match sql_length(s@) {
            Some(v) => v <= usize::MAX && r == Some(v as usize),
            None => r is None,
        },
{
    proof {
        reveal(sql_length);
    }
    match first_length_pos(s) {
        Some(p) => {
            let n = s.len();
            assert(p + 1 < n);
            let e = skip_digits(s, p + 1);
            proof {
                lemma_digits_end(s@, p + 1);
                lemma_length_choice(s@, p as int);
            }
            parse_digits(s, p + 1, e)
        },
        None => None,
    }
}

/// Go type for an SQL column type; `nullable` columns get pointer types.
pub open spec fn go_type_for(t: Seq<char>, nullable: bool) -> Option<Seq<char>> {
    let u = upper(t);
    if has_prefix(u, "VARCHAR"@) || has_prefix(u, "CHAR"@) || has_prefix(u, "TEXT"@) || has_prefix(
        u,
        "MEDIUMTEXT"@,
    ) || has_prefix(u, "LONGTEXT"@) {
        Some(if nullable { "*string"@ } else { "string"@ })
    } else if has_prefix(u, "BIGINT"@) {
        Some(if nullable { "*int64"@ } else { "int64"@ })
    } else if has_prefix(u, "SMALLINT"@) || has_prefix(u, "INT"@) || has_prefix(u, "INTEGER"@) {
        Some(if nullable { "*int"@ } else { "int"@ })
    } else if has_prefix(u, "TINYINT(1)"@) || has_prefix(u, "BOOL"@) || has_prefix(u, "BOOLEAN"@) {
        Some(if nullable { "*bool"@ } else { "bool"@ })
    } else if has_prefix(u, "TINYINT"@) {
        Some(if nullable { "*int"@ } else { "int"@ })
    } else if has_prefix(u, "DECIMAL"@) || has_prefix(u, "FLOAT"@) || has_prefix(u, "DOUBLE"@) {
        Some(if nullable { "*float64"@ } else { "float64"@ })
    } else if has_prefix(u, "DATETIME"@) || has_prefix(u, "TIMESTAMP"@) || has_prefix(u, "DATE"@)
        || has_prefix(u, "TIME"@) {
        Some(if nullable { "*time.Time"@ } else { "time.Time"@ })
    } else if has_prefix(u, "JSON"@) {
        Some("map[string]any"@)
    } else if has_prefix(u, "BLOB"@) {
        Some("[]byte"@)
    } else {
        None
    }
}

fn pick(nullable: bool, a: &str, b: &str) -> (r: Vec<char>)
    ensures
        r@ == (if nullable { a@ } else { b@ }),
{
    if nullable { chars_of(a) } else { chars_of(b) }
}

pub fn map_sql_type_to_go(db_type: &[char], nullable: bool) -> (r: Result<Vec<char>, Vec<char>>)
    ensures
        match go_type_for(db_type@, nullable) {
            Some(g) => r is Ok && r->Ok_0@ == g,
            None => r is Err && r->Err_0@ == "暂不支持的 SQL 类型: "@ + db_type@,
        },
{
    let uv = to_upper(db_type);
    let u = uv.as_slice();
    if starts_with_str(u, "VARCHAR") || starts_with_str(u, "CHAR") || starts_with_str(u, "TEXT")
        || starts_with_str(u, "MEDIUMTEXT") || starts_with_str(u, "LONGTEXT") {
        Ok(pick(nullable, "*string", "string"))
    } else if starts_with_str(u, "BIGINT") {
        Ok(pick(nullable, "*int64", "int64"))
    } else if starts_with_str(u, "SMALLINT") || starts_with_str(u, "INT") || starts_with_str(
        u,
        "INTEGER",
    ) {
        Ok(pick(nullable, "*int", "int"))
    } else if starts_with_str(u, "TINYINT(1)") || starts_with_str(u, "BOOL") || starts_with_str(
        u,
        "BOOLEAN",
    ) {
        Ok(pick(nullable, "*bool", "bool"))
    } else if starts_with_str(u, "TINYINT") {
        Ok(pick(nullable, "*int", "int"))
    } else if starts_with_str(u, "DECIMAL") || starts_with_str(u, "FLOAT") || starts_with_str(
        u,
        "DOUBLE",
    ) {
        Ok(pick(nullable, "*float64", "float64"))
    } else if starts_with_str(u, "DATETIME") || starts_with_str(u, "TIMESTAMP") || starts_with_str(
        u,
        "DATE",
    ) || starts_with_str(u, "TIME") {
        Ok(pick(nullable, "*time.Time", "time.Time"))
    } else if starts_with_str(u, "JSON") {
        Ok(chars_of("map[string]any"))
    } else if starts_with_str(u, "BLOB") {
        Ok(chars_of("[]byte"))
    } else {
        let mut e = chars_of("暂不支持的 SQL 类型: ");
        push_all(&mut e, db_type);
        Err(e)
    }
}

/// Names treated as identifiers: `id` and names ending in `_id`.
pub open spec fn identifier_like(name: Seq<char>) -> bool {
    name == "id"@ || has_suffix(name, "_id"@)
}

fn is_identifier_like(name: &[char]) -> (r: bool)
    ensures
        r == identifier_like(name@),
{
    eq_str(name, "id") || ends_with_str(name, "_id")
}

/// Validation rules of a string column, before joining.
pub open spec fn string_rules(name: Seq<char>, db_type: Seq<char>, required: bool) -> Seq<Seq<char>> {
    let len = sql_length(db_type);
    let r1: Seq<Seq<char>> = if required {
        seq!["required"@]
    } else if len is Some || identifier_like(name) {
        seq!["omitempty"@]
    } else {
        Seq::empty()
    };
    let r2 = if identifier_like(name) { r1.push("alphanum"@) } else { r1 };
    match len {
        Some(l) => r2.push("max="@ + dec(l)),
        None => r2,
    }
}

/// The `validate` tag of a column.
pub open spec fn validate_rule(
    name: Seq<char>,
    db_type: Seq<char>,
    go_type: Seq<char>,
    nullable: bool,
    has_default: bool,
) -> Option<Seq<char>> {
    let required = !nullable && !has_default;
    if name == "sort_order"@ && (go_type == "int"@ || go_type == "*int"@) {
        Some(if required { "required,min=0"@ } else { "omitempty,min=0"@ })
    } else if go_type == "string"@ || go_type == "*string"@ {
        let rules = string_rules(name, db_type, required);
        if rules.len() == 0 { None } else { Some(join(rules, ","@)) }
    } else {
        None
    }
}

fn string_rules_exec(name: &[char], db_type: &[char], required: bool) -> (r: Vec<Vec<char>>)
    ensures
        views(r@) == string_rules(name@, db_type@, required),
{
    let len = extract_length(db_type);
    let ident = is_identifier_like(name);
    let mut rules: Vec<Vec<char>> = Vec::new();
    if required {
        rules.push(chars_of("required"));
    } else if len.is_some() || ident {
        rules.push(chars_of("omitempty"));
    }
    let ghost r1 = views(rules@);
    if ident {
        rules.push(chars_of("alphanum"));
    }
    let ghost r2 = views(rules@);
    match len {
        Some(l) => {
            let mut m = chars_of("max=");
            push_dec(&mut m, l as u64);
            rules.push(m);
            assert(views(rules@) =~= r2.push("max="@ + dec(l as nat)));
        },
        None => {},
    }
    assert(views(rules@) =~= string_rules(name@, db_type@, required));
    rules
}

pub fn build_validate(
    name: &[char],
    db_type: &[char],
    go_type: &[char],
    nullable: bool,
    has_default: bool,
) -> (r: Option<Vec<char>>)
    ensures
        match validate_rule(name@, db_type@, go_type@, nullable, has_default) {
            Some(v) => r is Some && r->0@ == v,
            None => r is None,
        },
{
    let required = !nullable && !has_default;
    if eq_str(name, "sort_order") && (eq_str(go_type, "int") || eq_str(go_type, "*int")) {
        return Some(if required { chars_of("required,min=0") } else { chars_of("omitempty,min=0") });
    }
    if eq_str(go_type, "string") || eq_str(go_type, "*string") {
        let rules = string_rules_exec(name, db_type, required);
        if rules.len() == 0 {
            return None;
        }
        return Some(join_with(rules.as_slice(), ","));
    }
    None
}

/// Go spelling of one `_`-separated name segment; common initialisms are upper-cased.
pub open spec fn go_segment(seg: Seq<char>) -> Seq<char> {
    let l = lower(seg);
    if l == "id"@ {
        "ID"@
    } else if l == "api"@ {
        "API"@
    } else if l == "url"@ {
        "URL"@
    } else if l == "ip"@ {
        "IP"@
    } else if l == "ui"@ {
        "UI"@
    } else if l == "db"@ {
        "DB"@
    } else if l.len() == 0 {
        Seq::empty()
    } else {
        unicode_upper(l[0]) + l.skip(1)
    }
}

pub fn to_go_segment(seg: &[char]) -> (r: Vec<char>)
    ensures
        r@ == go_segment(seg@),
{
    let lv = to_lower(seg);
    let l = lv.as_slice();
    if eq_str(l, "id") {
        chars_of("ID")
    } else if eq_str(l, "api") {
        chars_of("API")
    } else if eq_str(l, "url") {
        chars_of("URL")
    } else if eq_str(l, "ip") {
        chars_of("IP")
    } else if eq_str(l, "ui") {
        chars_of("UI")
    } else if eq_str(l, "db") {
        chars_of("DB")
    } else if l.len() == 0 {
        Vec::new()
    } else {
        capitalize(l)
    }
}

/// Go spellings of the segments, concatenated.
pub open spec fn go_concat(segs: Seq<Seq<char>>) -> Seq<char>
    decreases segs.len(),
{
    if segs.len() == 0 {
        Seq::empty()
    } else {
        go_concat(segs.drop_last()) + go_segment(segs.last())
    }
}

fn go_concat_exec(segs: &[Vec<char>], from: usize) -> (r: Vec<char>)
    requires
        from <= segs@.len(),
    ensures
        r@ == go_concat(views(segs@).skip(from as int)),
{
    let mut r: Vec<char> = Vec::new();
    let ghost all = views(segs@).skip(from as int);
    for i in from..segs.len()
        invariant
            from <= segs@.len(),
            all == views(segs@).skip(from as int),
            r@ == go_concat(all.take(i - from)),
    {
        let g = to_go_segment(segs[i].as_slice());
        assert(all.take(i + 1 - from).drop_last() =~= all.take(i - from));
        assert(all.take(i + 1 - from).last() == segs@[i as int]@);
        push_all(&mut r, g.as_slice());
    }
    assert(all.take(segs@.len() - from) =~= all);
    r
}

/// Go identifier of a snake-case column name.
pub open spec fn go_name(v: Seq<char>) -> Seq<char> {
    go_concat(name_segments(v))
}

pub fn to_go_name(v: &[char]) -> (r: Vec<char>)
    ensures
        r@ == go_name(v@),
{
    let segs = segments_of(v);
    assert(views(segs@).skip(0) =~= views(segs@));
    go_concat_exec(segs.as_slice(), 0)
}

/// Entity name of a table: the Go name of the table without its first segment when it
/// has more than one.
pub open spec fn entity_name_of(table: Seq<char>) -> Seq<char> {
    let segs = name_segments(table);
    go_concat(if segs.len() > 1 { segs.skip(1) } else { segs })
}

pub fn derive_entity_name(table: &[char]) -> (r: Vec<char>)
    ensures
        r@ == entity_name_of(table@),
{
    let segs = segments_of(table);
    if segs.len() > 1 {
        go_concat_exec(segs.as_slice(), 1)
    } else {
        assert(views(segs@).skip(0) =~= views(segs@));
        go_concat_exec(segs.as_slice(), 0)
    }
}

/// camelCase spelling of segments, the first one lower-cased.
pub open spec fn camel_concat(segs: Seq<Seq<char>>) -> Seq<char>
    decreases segs.len(),
{
    if segs.len() == 0 {
        Seq::empty()
    } else if segs.len() == 1 {
        lower(segs[0])
    } else {
        let l = lower(segs.last());
        camel_concat(segs.drop_last()) + (if l.len() > 0 { unicode_upper(l[0]) + l.skip(1) } else { Seq::empty() })
    }
}

/// JSON name (camelCase) of a snake-case column name.
pub open spec fn json_name(v: Seq<char>) -> Seq<char> {
    camel_concat(name_segments(v))
}

pub fn to_json_name(v: &[char]) -> (r: Vec<char>)
    ensures
        r@ == json_name(v@),
{
    let segs = segments_of(v);
    let mut r: Vec<char> = Vec::new();
    let ghost all = views(segs@);
    for i in 0..segs.len()
        invariant
            all == views(segs@),
            r@ == camel_concat(all.take(i as int)),
    {
        let l = to_lower(segs[i].as_slice());
        assert(all.take(i + 1).drop_last() =~= all.take(i as int));
        assert(all.take(i + 1).last() == segs@[i as int]@);
        if i == 0 {
            push_all(&mut r, l.as_slice());
            assert(r@ =~= camel_concat(all.take(1)));
        } else if l.len() > 0 {
            let c = capitalize(l.as_slice());
            push_all(&mut r, c.as_slice());
        }
    }
    assert(all.take(segs@.len() as int) =~= all);
    r
}

/// `s` without trailing `c` characters, as `trim_end_matches(c)`.
pub open spec fn strip_end(s: Seq<char>, c: char) -> Seq<char>
    decreases s.len(),
{
    if s.len() > 0 && s.last() == c {
        strip_end(s.drop_last(), c)
    } else {
        s
    }
}

pub fn strip_end_exec(s: &[char], c: char) -> (r: Vec<char>)
    ensures
        r@ == strip_end(s@, c),
{
    let mut e = s.len();
    assert(s@.take(e as int) =~= s@);
    while e > 0 && s[e - 1] == c
        invariant
            e <= s@.len(),
            strip_end(s@.take(e as int), c) == strip_end(s@, c),
        decreases e,
    {
        assert(s@.take(e as int).drop_last() =~= s@.take(e - 1));
        e -= 1;
    }
    let r = slice_of(s, 0, e);
    assert(s@.subrange(0, e as int) =~= s@.take(e as int));
    r
}

/// First `White_Space` position at or after `i`, or `s.len()`.
pub open spec fn ws_find(s: Seq<char>, i: int) -> int
    decreases s.len() - i,
{
    if 0 <= i < s.len() && !is_ws(s[i]) {
        ws_find(s, i + 1)
    } else {
        i
    }
}

fn seek_ws(s: &[char], i: usize) -> (r: usize)
    requires
        i <= s@.len(),
    ensures
        r == ws_find(s@, i as int),
        i <= r <= s@.len(),
{
    let mut j = i;
    while j < s.len() && !crate::text::is_whitespace(s[j])
        invariant
            i <= j <= s@.len(),
            ws_find(s@, j as int) == ws_find(s@, i as int),
        decreases s@.len() - j,
    {
        j += 1;
    }
    j
}

/// `s` from `i`, without leading `White_Space`.
fn rest_from(s: &[char], i: usize) -> (r: Vec<char>)
    requires
        i <= s@.len(),
    ensures
        r@ == trim_start(s@.skip(i as int)),
{
    let j = skip_ws(s, i);
    proof {
        lemma_ws_end(s@, i as int);
        let t = s@.skip(i as int);
        assert forall|k: int| 0 <= k < j - i implies is_ws(#[trigger] t[k]) by {
            assert(t[k] == s@[k + i]);
        }
        if j < s@.len() {
            assert(t[j - i] == s@[j as int]);
        }
        lemma_trim_start_skip(t, j - i);
        assert(t.skip(j - i) =~= s@.skip(j as int));
    }
    let r = slice_of(s, j, s.len());
    assert(s@.subrange(j as int, s@.len() as int) =~= s@.skip(j as int));
    r
}

/// Column name and the rest of a column definition.
pub open spec fn ident_split(t: Seq<char>) -> Result<(Seq<char>, Seq<char>), Seq<char>> {
    if t.len() > 0 && t[0] == '`' {
        let rest = t.skip(1);
        let e = find_char(rest, 0, '`');
        if e == rest.len() {
            Err("列定义缺少结束反引号: "@ + t)
        } else {
            Ok((rest.take(e), trim_start(rest.skip(e + 1))))
        }
    } else {
        let i = ws_find(t, 0);
        if i == t.len() {
            Err("无法解析列定义: "@ + t)
        } else {
            Ok((t.take(i), trim_start(t.skip(i))))
        }
    }
}

fn split_identifier_prefix(t: &[char]) -> (r: Result<(Vec<char>, Vec<char>), Vec<char>>)
    ensures
        match ident_split(t@) {
            Ok((a, b)) => r is Ok && r->Ok_0.0@ == a && r->Ok_0.1@ == b,
            Err(e) => r is Err && r->Err_0@ == e,
        },
{
    if t.len() > 0 && t[0] == '`' {
        let rest = slice_of(t, 1, t.len());
        assert(t@.subrange(1, t@.len() as int) =~= t@.skip(1));
        let e = seek_char(rest.as_slice(), 0, '`');
        if e == rest.len() {
            let mut m = chars_of("列定义缺少结束反引号: ");
            push_all(&mut m, t);
            return Err(m);
        }
        let name = slice_of(rest.as_slice(), 0, e);
        assert(rest@.subrange(0, e as int) =~= rest@.take(e as int));
        let remainder = rest_from(rest.as_slice(), e + 1);
        Ok((name, remainder))
    } else {
        let i = seek_ws(t, 0);
        if i == t.len() {
            let mut m = chars_of("无法解析列定义: ");
            push_all(&mut m, t);
            return Err(m);
        }
        let name = slice_of(t, 0, i);
        assert(t@.subrange(0, i as int) =~= t@.take(i as int));
        let remainder = rest_from(t, i);
        Ok((name, remainder))
    }
}

/// Upper-cased definitions starting with one of these are table constraints, not columns.
pub open spec fn is_constraint(u: Seq<char>) -> bool {
    ||| has_prefix(u, "PRIMARY KEY"@)
    ||| has_prefix(u, "UNIQUE KEY"@)
    ||| has_prefix(u, "UNIQUE INDEX"@)
    ||| has_prefix(u, "UNIQUE"@)
    ||| has_prefix(u, "KEY"@)
    ||| has_prefix(u, "INDEX"@)
    ||| has_prefix(u, "CONSTRAINT"@)
    ||| has_prefix(u, "FOREIGN KEY"@)
}

fn is_constraint_exec(u: &[char]) -> (r: bool)
    ensures
        r == is_constraint(u@),
{
    starts_with_str(u, "PRIMARY KEY") || starts_with_str(u, "UNIQUE KEY") || starts_with_str(
        u,
        "UNIQUE INDEX",
    ) || starts_with_str(u, "UNIQUE") || starts_with_str(u, "KEY") || starts_with_str(u, "INDEX")
        || starts_with_str(u, "CONSTRAINT") || starts_with_str(u, "FOREIGN KEY")
}

/// A column definition: `None` for blank pieces and table constraints.
pub open spec fn column_spec(segment: Seq<char>) -> Result<Option<FieldSpec>, Seq<char>> {
    let t = trim(strip_end(trim(segment), ','));
    let u = upper(t);
    if t.len() == 0 || is_constraint(u) {
        Ok(None)
    } else {
        match ident_split(t) {
            Err(e) => Err(e),
            Ok((name, rest)) => match sql_db_type(rest) {
                None => Err("无法解析字段类型: "@ + rest),
                Some(db) => {
                    let nullable = !contains_seq(u, "NOT NULL"@) && !contains_seq(u, "PRIMARY KEY"@);
                    let dv = sql_default(rest);
                    match go_type_for(db, nullable && dv is None) {
                        None => Err("暂不支持的 SQL 类型: "@ + db),
                        Some(g) => Ok(
                            Some(
                                FieldSpec {
                                    name,
                                    go_name: go_name(name),
                                    json_name: json_name(name),
                                    go_type: g,
                                    db_type: db,
                                    nullable,
                                    is_primary_key: contains_seq(u, "PRIMARY KEY"@),
                                    default_value: dv,
                                    comment: sql_comment(rest),
                                    validate: validate_rule(name, db, g, nullable, dv is Some),
                                },
                            ),
                        ),
                    }
                },
            },
        }
    }
}

fn opt_string(v: Option<Vec<char>>) -> (r: Option<String>)
    ensures
        crate::codegen::types::opt_view(r) == (match v {
            Some(x) => Some(x@),
            None => None::<Seq<char>>,
        }),
{
    match v {
        Some(x) => Some(string_of(x.as_slice())),
        None => None,
    }
}

pub fn parse_column_definition(segment: &[char]) -> (r: Result<Option<ParsedField>, Vec<char>>)
    ensures
        match column_spec(segment@) {
            Ok(Some(f)) => r is Ok && r->Ok_0 is Some && r->Ok_0->0@ == f,
            Ok(None) => r is Ok && r->Ok_0 is None,
            Err(e) => r is Err && r->Err_0@ == e,
        },
{
    let t0 = trimmed(segment);
    let t1 = strip_end_exec(t0.as_slice(), ',');
    let tv = trimmed(t1.as_slice());
    let t = tv.as_slice();
    let uv = to_upper(t);
    let u = uv.as_slice();
    if t.len() == 0 || is_constraint_exec(u) {
        return Ok(None);
    }
    let (name, rest) = match split_identifier_prefix(t) {
        Ok(p) => p,
        Err(e) => return Err(e),
    };
    let db = match extract_db_type(rest.as_slice()) {
        Ok(d) => d,
        Err(e) => return Err(e),
    };
    let nullable = !contains_str(u, "NOT NULL") && !contains_str(u, "PRIMARY KEY");
    let is_primary_key = contains_str(u, "PRIMARY KEY");
    let dv = extract_default_value(rest.as_slice());
    let cm = extract_comment(rest.as_slice());
    let has_default = dv.is_some();
    let g = match map_sql_type_to_go(db.as_slice(), nullable && !has_default) {
        Ok(g) => g,
        Err(e) => return Err(e),
    };
    let validate = build_validate(name.as_slice(), db.as_slice(), g.as_slice(), nullable, has_default);
    let go_name = to_go_name(name.as_slice());
    let json_name = to_json_name(name.as_slice());
    let f = ParsedField {
        name: string_of(name.as_slice()),
        go_name: string_of(go_name.as_slice()),
        json_name: string_of(json_name.as_slice()),
        go_type: string_of(g.as_slice()),
        db_type: string_of(db.as_slice()),
        nullable,
        is_primary_key,
        default_value: opt_string(dv),
        comment: opt_string(cm),
        validate: opt_string(validate),
    };
    Ok(Some(f))
}

/// Name part of a `CREATE TABLE` header from `e`: optional backtick, name, optional
/// backtick, blanks, `(`; the name bounds and the parenthesis position.
pub open spec fn header_name_part(s: Seq<char>, e: int) -> Option<(int, int, int)> {
    let e2 = opt_char(s, e, '`');
    let f = name_end(s, e2, false);
    let g = ws_end(s, opt_char(s, f, '`'));
    if f > e2 && char_at(s, g, '(') {
        Some((e2, f, g))
    } else {
        None
    }
}

/// End of `if not exists ` at `d`.
pub open spec fn if_not_exists_end(s: Seq<char>, d: int) -> Option<int> {
    let b = ws_end(s, d + 2);
    let e = ws_end(s, b + 3);
    let g = ws_end(s, e + 6);
    if ci_at(s, d, "if"@) && b > d + 2 && ci_at(s, b, "not"@) && e > b + 3 && ci_at(s, e, "exists"@)
        && g > e + 6 {
        Some(g)
    } else {
        None
    }
}

/// `create table [if not exists] name (` at `p`.
pub open spec fn create_header_at(s: Seq<char>, p: int) -> Option<(int, int, int)> {
    let b = ws_end(s, p + 6);
    let d = ws_end(s, b + 5);
    if ci_at(s, p, "create"@) && b > p + 6 && ci_at(s, b, "table"@) && d > b + 5 {
        match if_not_exists_end(s, d) {
            Some(e) => match header_name_part(s, e) {
                Some(x) => Some(x),
                None => header_name_part(s, d),
            },
            None => header_name_part(s, d),
        }
    } else {
        None
    }
}

fn header_name_part_exec(s: &[char], e: usize) -> (r: Option<(usize, usize, usize)>)
    requires
        e <= s@.len(),
    ensures
        match r {
            Some((a, b, c)) => header_name_part(s@, e as int) == Some((a as int, b as int, c as int))
                && a < b <= c < s@.len() && s@[c as int] == '(',
            None => header_name_part(s@, e as int) is None,
        },
{
    let e2 = skip_opt_char(s, e, '`');
    let f = skip_name(s, e2, false);
    let f2 = skip_opt_char(s, f, '`');
    let g = skip_ws(s, f2);
    if f > e2 && g < s.len() && s[g] == '(' {
        Some((e2, f, g))
    } else {
        None
    }
}

fn if_not_exists_exec(s: &[char], d: usize) -> (r: Option<usize>)
    requires
        d <= s@.len(),
    ensures
        match r {
            Some(g) => if_not_exists_end(s@, d as int) == Some(g as int) && g <= s@.len(),
            None => if_not_exists_end(s@, d as int) is None,
        },
{
    proof {
        reveal_strlit("if");
        reveal_strlit("not");
        reveal_strlit("exists");
    }
    let n = s.len();
    if !ci_match(s, d, "if") {
        return None;
    }
    assert(d + 2 <= n);
    let b = skip_ws(s, d + 2);
    if !(b > d + 2 && ci_match(s, b, "not")) {
        return None;
    }
    assert(b + 3 <= n);
    let e = skip_ws(s, b + 3);
    if !(e > b + 3 && ci_match(s, e, "exists")) {
        return None;
    }
    assert(e + 6 <= n);
    let g = skip_ws(s, e + 6);
    if g > e + 6 {
        Some(g)
    } else {
        None
    }
}

fn create_header_exec(s: &[char], p: usize) -> (r: Option<(usize, usize, usize)>)
    requires
        p <= s@.len(),
    ensures
        match r {
            Some((a, b, c)) => create_header_at(s@, p as int) == Some((a as int, b as int, c as int))
                && a < b <= c < s@.len() && s@[c as int] == '(',
            None => create_header_at(s@, p as int) is None,
        },
{
    proof {
        reveal_strlit("create");
        reveal_strlit("table");
    }
    let n = s.len();
    if !ci_match(s, p, "create") {
        return None;
    }
    assert(p + 6 <= n);
    let b = skip_ws(s, p + 6);
    if !(b > p + 6 && ci_match(s, b, "table")) {
        return None;
    }
    assert(b + 5 <= n);
    let d = skip_ws(s, b + 5);
    if d <= b + 5 {
        return None;
    }
    match if_not_exists_exec(s, d) {
        Some(e) => match header_name_part_exec(s, e) {
            Some(x) => Some(x),
            None => header_name_part_exec(s, d),
        },
        None => header_name_part_exec(s, d),
    }
}

/// Leftmost `CREATE TABLE` header of a statement.
#[verifier::opaque]
pub open spec fn create_header(s: Seq<char>) -> Option<(int, int, int)> {
    if exists|p: int| 0 <= p <= s.len() && create_header_at(s, p) is Some {
        let p = choose|p: int|
            0 <= p <= s.len() && create_header_at(s, p) is Some && forall|q: int|
                0 <= q < p ==> create_header_at(s, q) is None;
        create_header_at(s, p)
    } else {
        None
    }
}

fn find_create_header(s: &[char]) -> (r: Option<(usize, usize, usize)>)
    ensures
        match r {
            Some((a, b, c)) => create_header(s@) == Some((a as int, b as int, c as int))
                && a < b <= c < s@.len() && s@[c as int] == '(',
            None => create_header(s@) is None,
        },
{
    let mut p: usize = 0;
    loop
        invariant
            p <= s@.len(),
            forall|q: int| 0 <= q < p ==> create_header_at(s@, q) is None,
        decreases s@.len() - p,
    {
        proof {
            reveal(create_header);
        }
        match create_header_exec(s, p) {
            Some(x) => {
                proof {
                    assert(0 <= p <= s@.len() && create_header_at(s@, p as int) is Some && forall|q: int|
                        0 <= q < p ==> create_header_at(s@, q) is None);
                    let w = choose|w: int|
                        0 <= w <= s@.len() && create_header_at(s@, w) is Some && forall|q: int|
                            0 <= q < w ==> create_header_at(s@, q) is None;
                    assert(w == p) by {
                        if w > p {
                            assert(create_header_at(s@, p as int) is Some);
                        }
                    }
                }
                return Some(x);
            },
            None => {},
        }
        if p == s.len() {
            assert forall|q: int| 0 <= q <= s@.len() implies create_header_at(s@, q) is None by {
                if q < p {
                }
            }
            return None;
        }
        p += 1;
    }
}

/// Some parenthesis in `t` closes the one at `t[0]`.
pub open spec fn has_close(t: Seq<char>) -> bool {
    exists|k: int| closes_at(t, k)
}

/// Position of the first parenthesis in `t` that closes the one at `t[0]`.
pub open spec fn first_close(t: Seq<char>) -> int {
    choose|k: int| 0 <= k && closes_at(t, k) && forall|j: int| 0 <= j < k ==> !closes_at(t, j)
}

/// Table name, column list and what follows the closing parenthesis.
pub open spec fn create_sections(s: Seq<char>) -> Result<(Seq<char>, Seq<char>, Seq<char>), Seq<char>> {
    match create_header(s) {
        None => Err("未找到有效的 CREATE TABLE 语句"@),
        Some((a, b, g)) => {
            let t = s.skip(g);
            if has_close(t) {
                let k = first_close(t);
                Ok((s.subrange(a, b), s.subrange(g + 1, g + k), s.skip(g + k + 1)))
            } else {
                Err("未找到 CREATE TABLE 的结束括号"@)
            }
        },
    }
}

fn extract_create_table_sections(s: &[char]) -> (r: Result<(Vec<char>, Vec<char>, Vec<char>), Vec<char>>)
    ensures
        match create_sections(s@) {
            Ok((a, b, c)) => r is Ok && r->Ok_0.0@ == a && r->Ok_0.1@ == b && r->Ok_0.2@ == c,
            Err(e) => r is Err && r->Err_0@ == e,
        },
{
    let (a, b, g) = match find_create_header(s) {
        Some(x) => x,
        None => {
            return Err(chars_of("未找到有效的 CREATE TABLE 语句"));
        },
    };
    let n = s.len();
    match find_matching_paren(s, g) {
        Some(j) => {
            assert(j < n);
            proof {
                lemma_sections_found(s@, a as int, b as int, g as int, j as int);
            }
            let name = slice_of(s, a, b);
            let body = slice_of(s, g + 1, j);
            let tail = slice_of(s, j + 1, n);
            Ok((name, body, tail))
        },
        None => {
            assert(!has_close(s@.skip(g as int)));
            Err(chars_of("未找到 CREATE TABLE 的结束括号"))
        },
    }
}

proof fn lemma_sections_found(s: Seq<char>, a: int, b: int, g: int, j: int)
    requires
        create_header(s) == Some((a, b, g)),
        0 <= a <= b <= g < j < s.len(),
        closes_at(s.skip(g), j - g),
        forall|i: int| 0 <= i < j - g ==> !closes_at(s.skip(g), i),
    ensures
        create_sections(s) == Ok::<(Seq<char>, Seq<char>, Seq<char>), Seq<char>>(
            (s.subrange(a, b), s.subrange(g + 1, j), s.subrange(j + 1, s.len() as int)),
        ),
{
    let t = s.skip(g);
    assert(0 <= j - g && closes_at(t, j - g) && forall|i: int| 0 <= i < j - g ==> !closes_at(t, i));
    let k = first_close(t);
    assert(k == j - g) by {
        if k > j - g {
            assert(closes_at(t, j - g));
        }
        if k < j - g {
            assert(!closes_at(t, k));
        }
    }
    assert(s.skip(j + 1) =~= s.subrange(j + 1, s.len() as int));
    assert(has_close(t));
    assert(k == j - g);
    assert(create_header(s) == Some((a, b, g)));
    assert(create_sections(s) is Ok);
    assert(create_sections(s)->Ok_0.0 == s.subrange(a, b));
    assert(create_sections(s)->Ok_0.1 == s.subrange(g + 1, g + k));
    assert(create_sections(s) == Ok::<(Seq<char>, Seq<char>, Seq<char>), Seq<char>>(
        (s.subrange(a, b), s.subrange(g + 1, g + k), s.skip(g + k + 1))));
}


/// Columns that the generated model inherits from its audit base; they are left out.
pub open spec fn is_audit_name(n: Seq<char>) -> bool {
    ||| n == "id"@
    ||| n == "created_at"@
    ||| n == "created_by"@
    ||| n == "created_by_name"@
    ||| n == "updated_at"@
    ||| n == "updated_by"@
    ||| n == "updated_by_name"@
    ||| n == "deleted_at"@
    ||| n == "deleted_by"@
    ||| n == "tenant_id"@
}

fn is_audit_field(n: &[char]) -> (r: bool)
    ensures
        r == is_audit_name(n@),
{
    eq_str(n, "id") || eq_str(n, "created_at") || eq_str(n, "created_by") || eq_str(n, "created_by_name")
        || eq_str(n, "updated_at") || eq_str(n, "updated_by") || eq_str(n, "updated_by_name")
        || eq_str(n, "deleted_at") || eq_str(n, "deleted_by") || eq_str(n, "tenant_id")
}

/// The statements of a script that the reader understands, in order.
pub open spec fn classified(stmts: Seq<Seq<char>>) -> Seq<StatementSpec>
    decreases stmts.len(),
{
    if stmts.len() == 0 {
        Seq::empty()
    } else {
        let rest = classified(stmts.drop_last());
        match classify(stmts.last()) {
            Some(c) => rest.push(c),
            None => rest,
        }
    }
}

/// The first `CREATE TABLE` statement.
pub open spec fn first_create(cs: Seq<StatementSpec>) -> Option<Seq<char>>
    decreases cs.len(),
{
    if cs.len() == 0 {
        None
    } else {
        match cs[0] {
            StatementSpec::CreateTable(x) => Some(x),
            _ => first_create(cs.drop_first()),
        }
    }
}

/// The text of the first `COMMENT ON TABLE` statement.
pub open spec fn first_table_comment(cs: Seq<StatementSpec>) -> Option<Seq<char>>
    decreases cs.len(),
{
    if cs.len() == 0 {
        None
    } else {
        match cs[0] {
            StatementSpec::CommentOnTable { comment, .. } => Some(comment),
            _ => first_table_comment(cs.drop_first()),
        }
    }
}

/// The text of the last `COMMENT ON COLUMN` statement whose `table.column` is `key`.
pub open spec fn column_note(cs: Seq<StatementSpec>, key: Seq<char>) -> Option<Seq<char>>
    decreases cs.len(),
{
    if cs.len() == 0 {
        None
    } else {
        match cs.last() {
            StatementSpec::CommentOnColumn { table, column, comment } => if table + "."@ + column
                == key {
                Some(comment)
            } else {
                column_note(cs.drop_last(), key)
            },
            _ => column_note(cs.drop_last(), key),
        }
    }
}

/// A column with the separate comment filling in a missing inline one.
pub open spec fn annotated(f: FieldSpec, note: Option<Seq<char>>) -> FieldSpec {
    if f.comment is None {
        FieldSpec { comment: note, ..f }
    } else {
        f
    }
}

/// Columns of a table body, annotated and without audit columns; the first error.
pub open spec fn table_fields(segs: Seq<Seq<char>>, table: Seq<char>, cs: Seq<StatementSpec>) -> Result<
    Seq<FieldSpec>,
    Seq<char>,
>
    decreases segs.len(),
{
    if segs.len() == 0 {
        Ok(Seq::empty())
    } else {
        match table_fields(segs.drop_last(), table, cs) {
            Err(e) => Err(e),
            Ok(fs) => match column_spec(segs.last()) {
                Err(e) => Err(e),
                Ok(None) => Ok(fs),
                Ok(Some(f)) => {
                    let g = annotated(f, column_note(cs, table + "."@ + f.name));
                    if is_audit_name(g.name) {
                        Ok(fs)
                    } else {
                        Ok(fs.push(g))
                    }
                },
            },
        }
    }
}

/// The table that a DDL script describes, or why it cannot be read.
pub open spec fn parse_ddl(sql: Seq<char>) -> Result<TableSpec, Seq<char>> {
    let t = trim(sql);
    let stmts = split_top(t, ';');
    let cs = classified(stmts);
    if t.len() == 0 {
        Err("SQL 不能为空"@)
    } else if stmts.len() == 0 {
        Err("未找到有效的 SQL 语句"@)
    } else {
        match first_create(cs) {
            None => Err("未找到 CREATE TABLE 语句"@),
            Some(ct) => match create_sections(ct) {
                Err(e) => Err(e),
                Ok((name, body, tail)) => match table_fields(split_top(body, ','), name, cs) {
                    Err(e) => Err(e),
                    Ok(fs) => if fs.len() == 0 {
                        Err("所有字段均为审计字段，请检查 SQL"@)
                    } else {
                        Ok(
                            TableSpec {
                                table_name: name,
                                entity_name: entity_name_of(name),
                                entity_label: match sql_comment(tail) {
                                    Some(l) => Some(l),
                                    None => first_table_comment(cs),
                                },
                                fields: fs,
                            },
                        )
                    },
                },
            },
        }
    }
}

fn classify_all(stmts: &Vec<Vec<char>>) -> (r: Vec<SqlStatement>)
    ensures
        statement_views(r@) == classified(views(stmts@)),
{
    let mut out: Vec<SqlStatement> = Vec::new();
    for i in 0..stmts.len()
        invariant
            statement_views(out@) == classified(views(stmts@).take(i as int)),
    {
        proof {
            assert(views(stmts@).take(i + 1).drop_last() =~= views(stmts@).take(i as int));
        }
        match classify_statement(stmts[i].as_slice()) {
            Some(c) => {
                out.push(c);
                assert(statement_views(out@) =~= classified(views(stmts@).take(i + 1)));
            },
            None => {},
        }
    }
    assert(views(stmts@).take(stmts@.len() as int) =~= views(stmts@));
    out
}

fn find_create(cs: &Vec<SqlStatement>) -> (r: Option<Vec<char>>)
    ensures
        match first_create(statement_views(cs@)) {
            Some(x) => r is Some && r->0@ == x,
            None => r is None,
        },
{
    let ghost v = statement_views(cs@);
    assert(v.skip(0) =~= v);
    for i in 0..cs.len()
        invariant
            v == statement_views(cs@),
            first_create(v) == first_create(v.skip(i as int)),
    {
        proof {
            assert(v.skip(i as int).drop_first() =~= v.skip(i + 1));
            assert(v.skip(i as int)[0] == cs@[i as int]@);
        }
        match &cs[i] {
            SqlStatement::CreateTable(x) => {
                return Some(chars_of(x.as_str()));
            },
            _ => {},
        }
    }
    None
}

fn find_table_comment(cs: &Vec<SqlStatement>) -> (r: Option<String>)
    ensures
        crate::codegen::types::opt_view(r) == first_table_comment(statement_views(cs@)),
{
    let ghost v = statement_views(cs@);
    assert(v.skip(0) =~= v);
    for i in 0..cs.len()
        invariant
            v == statement_views(cs@),
            first_table_comment(v) == first_table_comment(v.skip(i as int)),
    {
        proof {
            assert(v.skip(i as int).drop_first() =~= v.skip(i + 1));
            assert(v.skip(i as int)[0] == cs@[i as int]@);
        }
        match &cs[i] {
            SqlStatement::CommentOnTable { comment, .. } => {
                return Some(comment.clone());
            },
            _ => {},
        }
    }
    None
}

/// `a.b` as characters.
fn dotted(a: &[char], b: &[char]) -> (r: Vec<char>)
    ensures
        r@ == a@ + "."@ + b@,
{
    proof {
        reveal_strlit(".");
    }
    let mut r = slice_of(a, 0, a.len());
    assert(a@.subrange(0, a@.len() as int) =~= a@);
    r.push('.');
    push_all(&mut r, b);
    r
}

fn find_column_note(cs: &Vec<SqlStatement>, key: &[char]) -> (r: Option<String>)
    ensures
        crate::codegen::types::opt_view(r) == column_note(statement_views(cs@), key@),
{
    let ghost v = statement_views(cs@);
    let mut i = cs.len();
    assert(v.take(i as int) =~= v);
    while i > 0
        invariant
            i <= cs@.len(),
            v == statement_views(cs@),
            column_note(v, key@) == column_note(v.take(i as int), key@),
        decreases i,
    {
        proof {
            assert(v.take(i as int).drop_last() =~= v.take(i - 1));
            assert(v.take(i as int).last() == cs@[i - 1]@);
        }
        match &cs[i - 1] {
            SqlStatement::CommentOnColumn { table, column, comment } => {
                let tv = chars_of(table.as_str());
                let cv = chars_of(column.as_str());
                let k = dotted(tv.as_slice(), cv.as_slice());
                if seq_eq(k.as_slice(), key) {
                    return Some(comment.clone());
                }
            },
            _ => {},
        }
        i -= 1;
    }
    None
}

/// One column definition: the field it adds to `fields`, if any.
fn add_column(
    fields: &mut Vec<ParsedField>,
    segment: &[char],
    table_name: &[char],
    cs: &Vec<SqlStatement>,
) -> (r: Result<(), Vec<char>>)
    ensures
        match column_spec(segment@) {
            Err(e) => r is Err && r->Err_0@ == e,
            Ok(None) => r is Ok && field_views(final(fields)@) == field_views(old(fields)@),
            Ok(Some(f)) => {
                let g = annotated(f, column_note(statement_views(cs@), table_name@ + "."@ + f.name));
                r is Ok && field_views(final(fields)@) == if is_audit_name(g.name) {
                    field_views(old(fields)@)
                } else {
                    field_views(old(fields)@).push(g)
                }
            },
        },
{
    let parsed = parse_column_definition(segment);
    match parsed {
        Err(e) => Err(e),
        Ok(None) => Ok(()),
        Ok(Some(f)) => {
            let mut f = f;
            if f.comment.is_none() {
                let key = dotted(table_name, chars_of(f.name.as_str()).as_slice());
                f.comment = find_column_note(cs, key.as_slice());
            }
            let nv = chars_of(f.name.as_str());
            if !is_audit_field(nv.as_slice()) {
                fields.push(f);
                assert(field_views(fields@) =~= field_views(old(fields)@).push(f@));
            }
            Ok(())
        },
    }
}

/// An error in the first `k` column definitions is the error of the whole body.
proof fn lemma_table_fields_error(segs: Seq<Seq<char>>, k: int, table: Seq<char>, cs: Seq<StatementSpec>)
    requires
        0 <= k <= segs.len(),
        table_fields(segs.take(k), table, cs) is Err,
    ensures
        table_fields(segs, table, cs) == table_fields(segs.take(k), table, cs),
    decreases segs.len() - k,
{
    if k == segs.len() {
        assert(segs.take(k) =~= segs);
    } else {
        let d = segs.drop_last();
        assert(d.take(k) =~= segs.take(k));
        lemma_table_fields_error(d, k, table, cs);
    }
}

fn table_fields_exec(segments: &Vec<Vec<char>>, table_name: &[char], cs: &Vec<SqlStatement>) -> (r: Result<
    Vec<ParsedField>,
    Vec<char>,
>)
    ensures
        match table_fields(views(segments@), table_name@, statement_views(cs@)) {
            Ok(fs) => r is Ok && field_views(r->Ok_0@) == fs,
            Err(e) => r is Err && r->Err_0@ == e,
        },
{
    let ghost segs = views(segments@);
    let mut fields: Vec<ParsedField> = Vec::new();
    assert(field_views(fields@) =~= Seq::<FieldSpec>::empty());
    for i in 0..segments.len()
        invariant
            segs == views(segments@),
            table_fields(segs.take(i as int), table_name@, statement_views(cs@)) == Ok::<
                Seq<FieldSpec>,
                Seq<char>,
            >(field_views(fields@)),
    {
        proof {
            assert(segs.take(i + 1).drop_last() =~= segs.take(i as int));
            assert(segs.take(i + 1).last() == segments@[i as int]@);
        }
        match add_column(&mut fields, segments[i].as_slice(), table_name, cs) {
            Err(e) => {
                proof {
                    lemma_table_fields_error(segs, i + 1, table_name@, statement_views(cs@));
                }
                return Err(e);
            },
            Ok(()) => {},
        }
    }
    assert(segs.take(segments@.len() as int) =~= segs);
    Ok(fields)
}

/// Reads the table, columns and comments that a DDL script describes.
pub fn parse_sql_ddl(sql: &str) -> (r: Result<ParsedTable, String>)
    ensures
        match parse_ddl(sql@) {
            Ok(t) => r is Ok && r->Ok_0@ == t,
            Err(e) => r is Err && r->Err_0@ == e,
        },
{
    let all = chars_of(sql);
    let tv = trimmed(all.as_slice());
    if tv.len() == 0 {
        return Err("SQL 不能为空".to_owned());
    }
    let statements = split_sql_statements(tv.as_slice());
    if statements.len() == 0 {
        return Err("未找到有效的 SQL 语句".to_owned());
    }
    let classified_stmts = classify_all(&statements);
    let create = match find_create(&classified_stmts) {
        Some(c) => c,
        None => return Err("未找到 CREATE TABLE 语句".to_owned()),
    };
    let (table_name, body, tail) = match extract_create_table_sections(create.as_slice()) {
        Ok(x) => x,
        Err(e) => return Err(string_of(e.as_slice())),
    };
    let segments = split_top_level_segments(body.as_slice());
    let fields = match table_fields_exec(&segments, table_name.as_slice(), &classified_stmts) {
        Ok(f) => f,
        Err(e) => return Err(string_of(e.as_slice())),
    };
    if fields.len() == 0 {
        return Err("所有字段均为审计字段，请检查 SQL".to_owned());
    }
    let mut entity_label = match extract_comment(tail.as_slice()) {
        Some(l) => Some(string_of(l.as_slice())),
        None => None,
    };
    if entity_label.is_none() {
        entity_label = find_table_comment(&classified_stmts);
    }
    let entity_name = derive_entity_name(table_name.as_slice());
    Ok(
        ParsedTable {
            table_name: string_of(table_name.as_slice()),
            entity_name: string_of(entity_name.as_slice()),
            entity_label,
            fields,
        },
    )
}

/// A text that starts with `p` starts with `p`'s first character.
proof fn lemma_prefix_first(u: Seq<char>, p: Seq<char>)
    requires
        p.len() > 0,
        has_prefix(u, p),
    ensures
        u.len() > 0 && u[0] == p[0],
{
    assert(u.take(p.len() as int)[0] == u[0]);
}

/// Decimal and floating-point columns, `DECIMAL`, `FLOAT` and `DOUBLE` with any precision
/// and in any letter case, are Go `float64`s, pointers to one when the column may be null.
pub proof fn law_float_columns_are_float64(t: Seq<char>, nullable: bool)
    requires
        has_prefix(upper(t), "DECIMAL"@) || has_prefix(upper(t), "FLOAT"@) || has_prefix(upper(t), "DOUBLE"@),
    ensures
        go_type_for(t, nullable) == Some(if nullable { "*float64"@ } else { "float64"@ }),
{
    reveal_strlit("DECIMAL");
    reveal_strlit("FLOAT");
    reveal_strlit("DOUBLE");
    reveal_strlit("VARCHAR");
    reveal_strlit("CHAR");
    reveal_strlit("TEXT");
    reveal_strlit("MEDIUMTEXT");
    reveal_strlit("LONGTEXT");
    reveal_strlit("BIGINT");
    reveal_strlit("SMALLINT");
    reveal_strlit("INT");
    reveal_strlit("INTEGER");
    reveal_strlit("TINYINT(1)");
    reveal_strlit("BOOL");
    reveal_strlit("BOOLEAN");
    reveal_strlit("TINYINT");
    let u = upper(t);
    if has_prefix(u, "DECIMAL"@) {
        lemma_prefix_first(u, "DECIMAL"@);
    } else if has_prefix(u, "FLOAT"@) {
        lemma_prefix_first(u, "FLOAT"@);
    } else {
        lemma_prefix_first(u, "DOUBLE"@);
    }
    let c = u[0];
    assert(c == 'D' || c == 'F');
    if has_prefix(u, "VARCHAR"@) { lemma_prefix_first(u, "VARCHAR"@); }
    if has_prefix(u, "CHAR"@) { lemma_prefix_first(u, "CHAR"@); }
    if has_prefix(u, "TEXT"@) { lemma_prefix_first(u, "TEXT"@); }
    if has_prefix(u, "MEDIUMTEXT"@) { lemma_prefix_first(u, "MEDIUMTEXT"@); }
    if has_prefix(u, "LONGTEXT"@) { lemma_prefix_first(u, "LONGTEXT"@); }
    if has_prefix(u, "BIGINT"@) { lemma_prefix_first(u, "BIGINT"@); }
    if has_prefix(u, "SMALLINT"@) { lemma_prefix_first(u, "SMALLINT"@); }
    if has_prefix(u, "INT"@) { lemma_prefix_first(u, "INT"@); }
    if has_prefix(u, "INTEGER"@) { lemma_prefix_first(u, "INTEGER"@); }
    if has_prefix(u, "TINYINT(1)"@) { lemma_prefix_first(u, "TINYINT(1)"@); }
    if has_prefix(u, "BOOL"@) { lemma_prefix_first(u, "BOOL"@); }
    if has_prefix(u, "BOOLEAN"@) { lemma_prefix_first(u, "BOOLEAN"@); }
    if has_prefix(u, "TINYINT"@) { lemma_prefix_first(u, "TINYINT"@); }
}

/// A column that may be null gets a pointer to the Go type of the same column without null,
/// except JSON and binary columns, which are the same either way.
pub proof fn law_nullable_column_is_pointer(t: Seq<char>)
    ensures
        go_type_for(t, false) is Some <==> go_type_for(t, true) is Some,
        go_type_for(t, false) is Some ==> {
            let g = go_type_for(t, false)->Some_0;
            go_type_for(t, true)->Some_0 == if g == "map[string]any"@ || g == "[]byte"@ {
                g
            } else {
                "*"@ + g
            }
        },
{
    reveal_strlit("*");
    reveal_strlit("string");
    reveal_strlit("*string");
    reveal_strlit("int64");
    reveal_strlit("*int64");
    reveal_strlit("int");
    reveal_strlit("*int");
    reveal_strlit("bool");
    reveal_strlit("*bool");
    reveal_strlit("float64");
    reveal_strlit("*float64");
    reveal_strlit("time.Time");
    reveal_strlit("*time.Time");
    reveal_strlit("map[string]any");
    reveal_strlit("[]byte");
    assert("*"@ + "string"@ =~= "*string"@);
    assert("*"@ + "int64"@ =~= "*int64"@);
    assert("*"@ + "int"@ =~= "*int"@);
    assert("*"@ + "bool"@ =~= "*bool"@);
    assert("*"@ + "float64"@ =~= "*float64"@);
    assert("*"@ + "time.Time"@ =~= "*time.Time"@);
    let special = seq!["map[string]any"@, "[]byte"@];
    let plain = seq!["string"@, "int64"@, "int"@, "bool"@, "float64"@, "time.Time"@];
    assert forall|i: int, j: int| 0 <= i < plain.len() && 0 <= j < special.len() implies #[trigger] plain[i]
        != #[trigger] special[j] by {
        assert(plain[i].len() != special[j].len() || plain[i][0] != special[j][0]);
    }
    assert(plain[0] != special[0] && plain[0] != special[1]);
    assert(plain[1] != special[0] && plain[1] != special[1]);
    assert(plain[2] != special[0] && plain[2] != special[1]);
    assert(plain[3] != special[0] && plain[3] != special[1]);
    assert(plain[4] != special[0] && plain[4] != special[1]);
    assert(plain[5] != special[0] && plain[5] != special[1]);
}

} // verus!
