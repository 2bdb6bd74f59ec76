//! Reading the model and payload structs, and the resource settings, of Go sources.
use vstd::prelude::*;
use crate::text::{
    chars_of, string_of, slice_of, push_all, eq_str, views, join, join_with, split, split_char,
    occurs_at, has_prefix, has_suffix, starts_with_str, ends_with_str, is_ws, is_whitespace, trim, trimmed,
    lines_of, lines,
};
use crate::unicode::{is_uppercase, unicode_uppercase, to_lowercase, unicode_lower, unicode_upper};
use crate::codegen::naming::{name_segments, segments_of, capitalize};
use crate::codegen::pattern::{ws_end, skip_ws, char_at, find_char, seek_char, is_word, is_word_exec};
use crate::codegen::sql_parser::{digits_value, digits_end, skip_digits, parse_digits, lemma_digits_end};
use crate::codegen::types::{ModelField, ModelFieldSpec, model_field_views, ParsedEntity};

verus! {

/// Go integer types that TypeScript reads as numbers.
pub open spec fn is_int_type(g: Seq<char>) -> bool {
    g == "int"@ || g == "int32"@ || g == "int64"@ || g == "uint"@ || g == "uint32"@ || g == "uint64"@
}

/// TypeScript type of a Go field type.
pub open spec fn ts_type_of(g: Seq<char>) -> Seq<char> {
    if g == "string"@ {
        "string"@
    } else if g == "bool"@ {
        "boolean"@
    } else if is_int_type(g) {
        "number"@
    } else if g == "time.Time"@ || g == "timex.DateTime"@ {
        "string"@
    } else if g == "*string"@ {
        "MaybeNull<string>"@
    } else if g == "*bool"@ {
        "MaybeNull<boolean>"@
    } else if g == "*int"@ || g == "*int32"@ || g == "*int64"@ || g == "*uint"@ || g == "*uint32"@ || g
        == "*uint64"@ {
        "MaybeNull<number>"@
    } else if g == "*time.Time"@ || g == "*timex.DateTime"@ {
        "MaybeNull<string>"@
    } else if g == "map[string]any"@ {
        "Record<string, any>"@
    } else if g == "[]string"@ {
        "MaybeNull<string>[]"@
    } else if g == "[]int"@ || g == "[]int32"@ || g == "[]int64"@ || g == "[]uint"@ || g == "[]uint32"@
        || g == "[]uint64"@ {
        "number[]"@
    } else if g == "[]bool"@ {
        "boolean[]"@
    } else {
        "any"@
    }
}

fn is_int_type_exec(g: &[char]) -> (r: bool)
    ensures
        r == is_int_type(g@),
{
    eq_str(g, "int") || eq_str(g, "int32") || eq_str(g, "int64") || eq_str(g, "uint") || eq_str(g, "uint32")
        || eq_str(g, "uint64")
}

fn ts_type_chars(g: &[char]) -> (r: Vec<char>)
    ensures
        r@ == ts_type_of(g@),
{
    if eq_str(g, "string") {
        chars_of("string")
    } else if eq_str(g, "bool") {
        chars_of("boolean")
    } else if is_int_type_exec(g) {
        chars_of("number")
    } else if eq_str(g, "time.Time") || eq_str(g, "timex.DateTime") {
        chars_of("string")
    } else if eq_str(g, "*string") {
        chars_of("MaybeNull<string>")
    } else if eq_str(g, "*bool") {
        chars_of("MaybeNull<boolean>")
    } else if eq_str(g, "*int") || eq_str(g, "*int32") || eq_str(g, "*int64") || eq_str(g, "*uint")
        || eq_str(g, "*uint32") || eq_str(g, "*uint64") {
        chars_of("MaybeNull<number>")
    } else if eq_str(g, "*time.Time") || eq_str(g, "*timex.DateTime") {
        chars_of("MaybeNull<string>")
    } else if eq_str(g, "map[string]any") {
        chars_of("Record<string, any>")
    } else if eq_str(g, "[]string") {
        chars_of("MaybeNull<string>[]")
    } else if eq_str(g, "[]int") || eq_str(g, "[]int32") || eq_str(g, "[]int64") || eq_str(g, "[]uint")
        || eq_str(g, "[]uint32") || eq_str(g, "[]uint64") {
        chars_of("number[]")
    } else if eq_str(g, "[]bool") {
        chars_of("boolean[]")
    } else {
        chars_of("any")
    }
}

/// TypeScript type of a Go field type.
pub fn go_type_to_ts_type(go_type: &str) -> (r: String)
    ensures
        r@ == ts_type_of(go_type@),
{
    let g = chars_of(go_type);
    string_of(ts_type_chars(g.as_slice()).as_slice())
}

/// What the character at index `i` becomes in snake case: an upper-case letter is
/// lower-cased, with `_` before it unless it is the first character.
pub open spec fn snake_piece(i: int, c: char) -> Seq<char> {
    if unicode_uppercase(c) {
        if i > 0 {
            seq!['_'] + unicode_lower(c)
        } else {
            unicode_lower(c)
        }
    } else {
        seq![c]
    }
}

/// Snake case of the first `n` characters of `s`.
pub open spec fn snake_prefix(s: Seq<char>, n: int) -> Seq<char>
    decreases n,
{
    if n <= 0 {
        Seq::empty()
    } else {
        snake_prefix(s, n - 1) + snake_piece(n - 1, s[n - 1])
    }
}

pub open spec fn snake(s: Seq<char>) -> Seq<char> {
    snake_prefix(s, s.len() as int)
}

pub fn to_snake_case(value: &[char]) -> (r: Vec<char>)
    ensures
        r@ == snake(value@),
{
    let mut out: Vec<char> = Vec::new();
    for i in 0..value.len()
        invariant
            out@ == snake_prefix(value@, i as int),
    {
        let c = value[i];
        let ghost before = out@;
        if is_uppercase(c) {
            if i > 0 {
                out.push('_');
            }
            let l = to_lowercase(c);
            push_all(&mut out, l.as_slice());
            assert(out@ =~= before + snake_piece(i as int, c));
        } else {
            out.push(c);
            assert(out@ =~= before + snake_piece(i as int, c));
        }
    }
    out
}

/// A segment with its first character upper-cased.
pub open spec fn cap_word(seg: Seq<char>) -> Seq<char> {
    if seg.len() == 0 {
        Seq::empty()
    } else {
        unicode_upper(seg[0]) + seg.skip(1)
    }
}

pub open spec fn cap_words(segs: Seq<Seq<char>>) -> Seq<Seq<char>> {
    Seq::new(segs.len(), |i: int| cap_word(segs[i]))
}

fn cap_words_exec(segs: &Vec<Vec<char>>) -> (r: Vec<Vec<char>>)
    ensures
        views(r@) == cap_words(views(segs@)),
{
    let mut out: Vec<Vec<char>> = Vec::new();
    for i in 0..segs.len()
        invariant
            views(out@) == cap_words(views(segs@)).take(i as int),
    {
        let w = if segs[i].len() == 0 {
            Vec::new()
        } else {
            capitalize(segs[i].as_slice())
        };
        assert(views(segs@)[i as int] == segs@[i as int]@);
        assert(w@ == cap_word(views(segs@)[i as int]));
        let ghost before = views(out@);
        out.push(w);
        assert(views(out@) =~= before.push(cap_word(views(segs@)[i as int])));
        assert(cap_words(views(segs@)).take(i + 1) =~= cap_words(views(segs@)).take(i as int).push(
            cap_word(views(segs@)[i as int]),
        ));
    }
    assert(cap_words(views(segs@)).take(segs@.len() as int) =~= cap_words(views(segs@)));
    out
}

/// Words of a snake-case name, capitalised and separated by blanks.
pub open spec fn humanized(v: Seq<char>) -> Seq<char> {
    join(cap_words(name_segments(v)), " "@)
}

/// Words of a snake-case name, capitalised and run together.
pub open spec fn pascal(v: Seq<char>) -> Seq<char> {
    join(cap_words(name_segments(v)), ""@)
}

pub fn humanize_identifier(value: &[char]) -> (r: Vec<char>)
    ensures
        r@ == humanized(value@),
{
    let words = cap_words_exec(&segments_of(value));
    join_with(words.as_slice(), " ")
}

pub fn to_pascal_case(s: &[char]) -> (r: Vec<char>)
    ensures
        r@ == pascal(s@),
{
    let words = cap_words_exec(&segments_of(s));
    join_with(words.as_slice(), "")
}

/// End of the run of word characters from `i`.
pub open spec fn word_end(s: Seq<char>, i: int) -> int
    decreases s.len() - i,
{
    if 0 <= i < s.len() && is_word(s[i]) {
        word_end(s, i + 1)
    } else {
        i
    }
}

fn skip_word(s: &[char], i: usize) -> (r: usize)
    requires
        i <= s@.len(),
    ensures
        r == word_end(s@, i as int),
        i <= r <= s@.len(),
{
    let mut j = i;
    while j < s.len() && is_word_exec(s[j])
        invariant
            i <= j <= s@.len(),
            word_end(s@, j as int) == word_end(s@, i as int),
        decreases s@.len() - j,
    {
        j += 1;
    }
    j
}

/// Characters of a Go type as the field grammar reads it: no blank and no backtick.
pub open spec fn is_type_char(c: char) -> bool {
    !is_ws(c) && c != '`'
}

pub open spec fn type_end(s: Seq<char>, i: int) -> int
    decreases s.len() - i,
{
    if 0 <= i < s.len() && is_type_char(s[i]) {
        type_end(s, i + 1)
    } else {
        i
    }
}

fn skip_type(s: &[char], i: usize) -> (r: usize)
    requires
        i <= s@.len(),
    ensures
        r == type_end(s@, i as int),
        i <= r <= s@.len(),
{
    let mut j = i;
    while j < s.len() && !is_whitespace(s[j]) && s[j] != '`'
        invariant
            i <= j <= s@.len(),
            type_end(s@, j as int) == type_end(s@, i as int),
        decreases s@.len() - j,
    {
        j += 1;
    }
    j
}

/// Characters of an embedded struct name: word characters and `.`.
pub open spec fn embed_end(s: Seq<char>, i: int) -> int
    decreases s.len() - i,
{
    if 0 <= i < s.len() && (is_word(s[i]) || s[i] == '.') {
        embed_end(s, i + 1)
    } else {
        i
    }
}

fn skip_embed(s: &[char], i: usize) -> (r: usize)
    requires
        i <= s@.len(),
    ensures
        r == embed_end(s@, i as int),
        i <= r <= s@.len(),
{
    let mut j = i;
    while j < s.len() && (is_word_exec(s[j]) || s[j] == '.')
        invariant
            i <= j <= s@.len(),
            embed_end(s@, j as int) == embed_end(s@, i as int),
        decreases s@.len() - j,
    {
        j += 1;
    }
    j
}

/// From `i` the line holds only blanks, or blanks and a `//` comment.
pub open spec fn line_end_ok(s: Seq<char>, i: int) -> bool {
    let w = ws_end(s, i);
    w == s.len() || occurs_at(s, "//"@, w)
}

fn line_end_ok_exec(s: &[char], i: usize) -> (r: bool)
    requires
        i <= s@.len(),
    ensures
        r == line_end_ok(s@, i as int),
{
    proof {
        reveal_strlit("//");
    }
    let w = skip_ws(s, i);
    if w == s.len() {
        return true;
    }
    let r = w + 1 < s.len() && s[w] == '/' && s[w + 1] == '/';
    proof {
        if w + 1 < s@.len() && s@[w as int] == '/' && s@[w + 1] == '/' {
            assert(s@.subrange(w as int, w + 2) =~= "//"@);
        }
        if occurs_at(s@, "//"@, w as int) {
            assert(s@[w as int] == s@.subrange(w as int, w + 2)[0]);
            assert(s@[w + 1] == s@.subrange(w as int, w + 2)[1]);
        }
    }
    r
}

/// Blanks and a backtick-quoted tag list ending the line, from `i`; the list's bounds.
pub open spec fn tag_after(s: Seq<char>, i: int) -> Option<(int, int)> {
    let w = ws_end(s, i);
    let e = find_char(s, w + 1, '`');
    if w > i && char_at(s, w, '`') && e < s.len() && line_end_ok(s, e + 1) {
        Some((w + 1, e))
    } else {
        None
    }
}

fn tag_after_exec(s: &[char], i: usize) -> (r: Option<(usize, usize)>)
    requires
        i <= s@.len(),
    ensures
        match r {
            Some((x, y)) => tag_after(s@, i as int) == Some((x as int, y as int)) && x <= y <= s@.len(),
            None => tag_after(s@, i as int) is None,
        },
{
    let w = skip_ws(s, i);
    if !(w > i && w < s.len() && s[w] == '`') {
        return None;
    }
    let e = seek_char(s, w + 1, '`');
    if e < s.len() && line_end_ok_exec(s, e + 1) {
        Some((w + 1, e))
    } else {
        None
    }
}

/// What may follow a field type or an embedded name: an optional tag list, then the end.
pub open spec fn rest_ok(s: Seq<char>, i: int) -> bool {
    tag_after(s, i) is Some || line_end_ok(s, i)
}

/// The largest `j` in `(lo, hi]` after which the line can end, or `lo`.
pub open spec fn last_rest(s: Seq<char>, lo: int, hi: int) -> int
    decreases hi - lo,
{
    if hi <= lo {
        lo
    } else if rest_ok(s, hi) {
        hi
    } else {
        last_rest(s, lo, hi - 1)
    }
}

fn last_rest_exec(s: &[char], lo: usize, hi: usize) -> (r: usize)
    requires
        lo <= hi <= s@.len(),
    ensures
        r == last_rest(s@, lo as int, hi as int),
        lo <= r <= hi,
{
    let mut j = hi;
    while j > lo
        invariant
            lo <= j <= hi <= s@.len(),
            last_rest(s@, lo as int, hi as int) == last_rest(s@, lo as int, j as int),
        decreases j,
    {
        let t = tag_after_exec(s, j);
        if t.is_some() || line_end_ok_exec(s, j) {
            return j;
        }
        j -= 1;
    }
    j
}

/// A field line: blanks, name, blanks, type, optional tags, optional comment; the name and
/// type bounds. The type is the longest one after which the line can end.
pub open spec fn field_parts(s: Seq<char>) -> Option<(int, int, int, int)> {
    let a = ws_end(s, 0);
    let b = word_end(s, a);
    let c = ws_end(s, b);
    let d = type_end(s, c);
    let m = last_rest(s, c, d);
    if b > a && c > b && m > c {
        Some((a, b, c, m))
    } else {
        None
    }
}

/// The tag list of a field line, or nothing.
pub open spec fn field_tags(s: Seq<char>) -> Seq<char> {
    match field_parts(s) {
        Some((a, b, c, m)) => match tag_after(s, m) {
            Some((x, y)) => s.subrange(x, y),
            None => Seq::empty(),
        },
        None => Seq::empty(),
    }
}

/// `key:"<text>"` at `p` in a tag list; the text bounds.
pub open spec fn attr_at(t: Seq<char>, key: Seq<char>, p: int) -> Option<(int, int)> {
    let a = p + key.len() + 2;
    let e = find_char(t, a, '"');
    if occurs_at(t, key + ":\""@, p) && e > a && e < t.len() {
        Some((a, e))
    } else {
        None
    }
}

/// Leftmost `attr_at` from `i`.
pub open spec fn first_attr(t: Seq<char>, key: Seq<char>, i: int) -> Option<(int, int)>
    decreases t.len() + 1 - i,
{
    if i > t.len() {
        None
    } else if attr_at(t, key, i) is Some {
        attr_at(t, key, i)
    } else {
        first_attr(t, key, i + 1)
    }
}

fn attr_at_exec(t: &[char], key: &[char], p: usize) -> (r: Option<(usize, usize)>)
    requires
        p <= t@.len(),
    ensures
        match r {
            Some((x, y)) => attr_at(t@, key@, p as int) == Some((x as int, y as int)) && x <= y <= t@.len(),
            None => attr_at(t@, key@, p as int) is None,
        },
{
    proof {
        reveal_strlit(":\"");
    }
    let mut pat = slice_of(key, 0, key.len());
    assert(key@.subrange(0, key@.len() as int) =~= key@);
    pat.push(':');
    pat.push('"');
    assert(pat@ =~= key@ + ":\""@);
    let n = t.len();
    if !crate::text::matches_at(t, pat.as_slice(), p) {
        return None;
    }
    assert(p + key@.len() + 2 <= n);
    let a = p + key.len() + 2;
    let e = seek_char(t, a, '"');
    if e > a && e < t.len() {
        Some((a, e))
    } else {
        None
    }
}

fn first_attr_exec(t: &[char], key: &str) -> (r: Option<(usize, usize)>)
    ensures
        match r {
            Some((x, y)) => first_attr(t@, key@, 0) == Some((x as int, y as int)) && x <= y <= t@.len(),
            None => first_attr(t@, key@, 0) is None,
        },
{
    let k = chars_of(key);
    let mut i: usize = 0;
    loop
        invariant
            k@ == key@,
            i <= t@.len(),
            first_attr(t@, key@, 0) == first_attr(t@, key@, i as int),
        decreases t@.len() - i,
    {
        match attr_at_exec(t, k.as_slice(), i) {
            Some(x) => return Some(x),
            None => {},
        }
        if i == t.len() {
            assert(first_attr(t@, key@, i + 1) is None);
            return None;
        }
        i += 1;
    }
}

/// `json:"<name>"`, with options after a comma, at `p`; the name bounds.
pub open spec fn json_at(t: Seq<char>, p: int) -> Option<(int, int)> {
    let a = p + 6;
    let e = json_name_end(t, a);
    if occurs_at(t, "json:\""@, p) && e > a && (char_at(t, e, '"') || (char_at(t, e, ',') && find_char(
        t,
        e + 1,
        '"',
    ) < t.len())) {
        Some((a, e))
    } else {
        None
    }
}

pub open spec fn json_name_end(t: Seq<char>, i: int) -> int
    decreases t.len() - i,
{
    if 0 <= i < t.len() && t[i] != '"' && t[i] != ',' {
        json_name_end(t, i + 1)
    } else {
        i
    }
}

fn skip_json_name(t: &[char], i: usize) -> (r: usize)
    requires
        i <= t@.len(),
    ensures
        r == json_name_end(t@, i as int),
        i <= r <= t@.len(),
{
    let mut j = i;
    while j < t.len() && t[j] != '"' && t[j] != ','
        invariant
            i <= j <= t@.len(),
            json_name_end(t@, j as int) == json_name_end(t@, i as int),
        decreases t@.len() - j,
    {
        j += 1;
    }
    j
}

pub open spec fn first_json(t: Seq<char>, i: int) -> Option<(int, int)>
    decreases t.len() + 1 - i,
{
    if i > t.len() {
        None
    } else if json_at(t, i) is Some {
        json_at(t, i)
    } else {
        first_json(t, i + 1)
    }
}

fn json_at_exec(t: &[char], p: usize) -> (r: Option<(usize, usize)>)
    requires
        p <= t@.len(),
    ensures
        match r {
            Some((x, y)) => json_at(t@, p as int) == Some((x as int, y as int)) && x <= y <= t@.len(),
            None => json_at(t@, p as int) is None,
        },
{
    proof {
        reveal_strlit("json:\"");
    }
    let pat = chars_of("json:\"");
    let n = t.len();
    if !crate::text::matches_at(t, pat.as_slice(), p) {
        return None;
    }
    assert(p + 6 <= n);
    let a = p + 6;
    let e = skip_json_name(t, a);
    if e > a && e < t.len() && (t[e] == '"' || (t[e] == ',' && seek_char(t, e + 1, '"') < t.len())) {
        Some((a, e))
    } else {
        None
    }
}

fn first_json_exec(t: &[char]) -> (r: Option<(usize, usize)>)
    ensures
        match r {
            Some((x, y)) => first_json(t@, 0) == Some((x as int, y as int)) && x <= y <= t@.len(),
            None => first_json(t@, 0) is None,
        },
{
    let mut i: usize = 0;
    loop
        invariant
            i <= t@.len(),
            first_json(t@, 0) == first_json(t@, i as int),
        decreases t@.len() - i,
    {
        match json_at_exec(t, i) {
            Some(x) => return Some(x),
            None => {},
        }
        if i == t.len() {
            assert(first_json(t@, i + 1) is None);
            return None;
        }
        i += 1;
    }
}

/// `usize::from_str`: an optional `+`, then at least one ASCII digit, within range.
pub open spec fn parse_usize(s: Seq<char>) -> Option<usize> {
    let a: int = if s.len() > 0 && s[0] == '+' { 1 } else { 0 };
    let v = digits_value(s.subrange(a, s.len() as int));
    if a < s.len() && digits_end(s, a) == s.len() && v <= usize::MAX {
        Some(v as usize)
    } else {
        None
    }
}

pub fn parse_usize_exec(s: &[char]) -> (r: Option<usize>)
    ensures
        r == parse_usize(s@),
{
    let a: usize = if s.len() > 0 && s[0] == '+' { 1 } else { 0 };
    if a >= s.len() {
        return None;
    }
    let e = skip_digits(s, a);
    if e != s.len() {
        return None;
    }
    proof {
        lemma_digits_end(s@, a as int);
    }
    parse_digits(s, a, e)
}

/// First rule from `i` of the form `max=<n>` with a number that parses.
pub open spec fn max_rule(rules: Seq<Seq<char>>, i: int) -> Option<usize>
    decreases rules.len() - i,
{
    if i < 0 || i >= rules.len() {
        None
    } else if has_prefix(rules[i], "max="@) && parse_usize(rules[i].skip(4)) is Some {
        parse_usize(rules[i].skip(4))
    } else {
        max_rule(rules, i + 1)
    }
}

fn max_rule_exec(rules: &Vec<Vec<char>>) -> (r: Option<usize>)
    ensures
        r == max_rule(views(rules@), 0),
{
    let mut i: usize = 0;
    while i < rules.len()
        invariant
            i <= rules@.len(),
            max_rule(views(rules@), 0) == max_rule(views(rules@), i as int),
        decreases rules@.len() - i,
    {
        proof {
            reveal_strlit("max=");
        }
        let rule = rules[i].as_slice();
        assert(views(rules@)[i as int] == rule@);
        if starts_with_str(rule, "max=") {
            let rest = slice_of(rule, 4, rule.len());
            assert(rule@.subrange(4, rule@.len() as int) =~= rule@.skip(4));
            let v = parse_usize_exec(rest.as_slice());
            if v.is_some() {
                return v;
            }
        }
        i += 1;
    }
    None
}

fn contains_rule(rules: &Vec<Vec<char>>, lit: &str) -> (r: bool)
    ensures
        r == views(rules@).contains(lit@),
{
    let mut i: usize = 0;
    while i < rules.len()
        invariant
            i <= rules@.len(),
            forall|j: int| 0 <= j < i ==> views(rules@)[j] != lit@,
        decreases rules@.len() - i,
    {
        assert(views(rules@)[i as int] == rules@[i as int]@);
        if eq_str(rules[i].as_slice(), lit) {
            return true;
        }
        i += 1;
    }
    false
}

/// A field line read as name, JSON name, Go type, label, `required` and maximum length;
/// nothing for a line that is no field or whose JSON name is `-`.
pub open spec fn field_line(s: Seq<char>) -> Option<(Seq<char>, Seq<char>, Seq<char>, Seq<char>, bool, Option<usize>)> {
    match field_parts(s) {
        None => None,
        Some((a, b, c, m)) => {
            let name = s.subrange(a, b);
            let go_type = s.subrange(c, m);
            let t = field_tags(s);
            let json = match first_json(t, 0) {
                Some((x, y)) => t.subrange(x, y),
                None => snake(name),
            };
            if json == "-"@ {
                None
            } else {
                let label = match first_attr(t, "label"@, 0) {
                    Some((x, y)) => t.subrange(x, y),
                    None => humanized(json),
                };
                let rules = match first_attr(t, "validate"@, 0) {
                    Some((x, y)) => split_char(t.subrange(x, y), ','),
                    None => Seq::empty(),
                };
                Some((name, json, go_type, label, rules.contains("required"@), max_rule(rules, 0)))
            }
        },
    }
}

/// Reads a struct field line.
pub fn parse_field_line(line: &str) -> (r: Option<(String, String, String, String, bool, Option<usize>)>)
    ensures
        match field_line(line@) {
            Some((n, j, g, l, q, m)) => r is Some && r->Some_0.0@ == n && r->Some_0.1@ == j && r->Some_0.2@ == g
                && r->Some_0.3@ == l && r->Some_0.4 == q && r->Some_0.5 == m,
            None => r is None,
        },
{
    let lv = chars_of(line);
    match field_line_chars(lv.as_slice()) {
        Some((n, j, g, l, q, m)) => Some(
            (
                string_of(n.as_slice()),
                string_of(j.as_slice()),
                string_of(g.as_slice()),
                string_of(l.as_slice()),
                q,
                m,
            ),
        ),
        None => None,
    }
}

fn field_line_chars(s: &[char]) -> (r: Option<(Vec<char>, Vec<char>, Vec<char>, Vec<char>, bool, Option<usize>)>)
    ensures
        match field_line(s@) {
            Some((n, j, g, l, q, m)) => r is Some && r->Some_0.0@ == n && r->Some_0.1@ == j && r->Some_0.2@ == g
                && r->Some_0.3@ == l && r->Some_0.4 == q && r->Some_0.5 == m,
            None => r is None,
        },
{
    proof {
        reveal_strlit("-");
    }
    let a = skip_ws(s, 0);
    let b = skip_word(s, a);
    let c = skip_ws(s, b);
    let d = skip_type(s, c);
    let m = last_rest_exec(s, c, d);
    if !(b > a && c > b && m > c) {
        return None;
    }
    let name = slice_of(s, a, b);
    let go_type = slice_of(s, c, m);
    let tags = match tag_after_exec(s, m) {
        Some((x, y)) => slice_of(s, x, y),
        None => Vec::new(),
    };
    let t = tags.as_slice();
    assert(t@ == field_tags(s@));
    let json = match first_json_exec(t) {
        Some((x, y)) => slice_of(t, x, y),
        None => to_snake_case(name.as_slice()),
    };
    if eq_str(json.as_slice(), "-") {
        return None;
    }
    let label = match first_attr_exec(t, "label") {
        Some((x, y)) => slice_of(t, x, y),
        None => humanize_identifier(json.as_slice()),
    };
    let rules = match first_attr_exec(t, "validate") {
        Some((x, y)) => split(slice_of(t, x, y).as_slice(), ','),
        None => Vec::new(),
    };
    assert(views(rules@) == (match first_attr(t@, "validate"@, 0) {
        Some((x, y)) => split_char(t@.subrange(x, y), ','),
        None => Seq::<Seq<char>>::empty(),
    })) by {
        if first_attr(t@, "validate"@, 0) is None {
            assert(views(rules@) =~= Seq::<Seq<char>>::empty());
        }
    }
    let required = contains_rule(&rules, "required");
    let max_length = max_rule_exec(&rules);
    Some((name, json, go_type, label, required, max_length))
}

/// An embedded struct line: blanks, a dotted name, optional tags, optional comment.
pub open spec fn embedded_name(s: Seq<char>) -> Option<Seq<char>> {
    let a = ws_end(s, 0);
    let b = embed_end(s, a);
    if b > a && rest_ok(s, b) {
        Some(s.subrange(a, b))
    } else {
        None
    }
}

pub fn parse_embedded_struct_name(line: &[char]) -> (r: Option<Vec<char>>)
    ensures
        match embedded_name(line@) {
            Some(n) => r is Some && r->0@ == n,
            None => r is None,
        },
{
    let a = skip_ws(line, 0);
    let b = skip_embed(line, a);
    if b > a && (tag_after_exec(line, b).is_some() || line_end_ok_exec(line, b)) {
        Some(slice_of(line, a, b))
    } else {
        None
    }
}

pub open spec fn created_columns() -> Seq<(Seq<char>, Seq<char>, Seq<char>)> {
    seq![
        ("created_at"@, "createdAt"@, "string"@),
        ("created_by"@, "createdBy"@, "string"@),
        ("created_by_name"@, "createdByName"@, "string"@),
    ]
}

pub open spec fn updated_columns() -> Seq<(Seq<char>, Seq<char>, Seq<char>)> {
    seq![
        ("updated_at"@, "updatedAt"@, "string"@),
        ("updated_by"@, "updatedBy"@, "string"@),
        ("updated_by_name"@, "updatedByName"@, "string"@),
    ]
}

pub open spec fn id_column() -> Seq<(Seq<char>, Seq<char>, Seq<char>)> {
    seq![("id"@, "id"@, "string"@)]
}

/// Columns (name, JSON name, type) that an embedded base model contributes.
pub open spec fn embedded_columns(n: Seq<char>) -> Seq<(Seq<char>, Seq<char>, Seq<char>)> {
    if has_suffix(n, "BaseModel"@) {
        Seq::empty()
    } else if has_suffix(n, "CreationTrackedModel"@) {
        created_columns()
    } else if has_suffix(n, "FullTrackedModel"@) {
        created_columns() + updated_columns()
    } else if has_suffix(n, "CreationAuditedModel"@) {
        id_column() + created_columns()
    } else if has_suffix(n, "FullAuditedModel"@) {
        id_column() + created_columns() + updated_columns()
    } else {
        Seq::empty()
    }
}

pub open spec fn triple_views(v: Seq<(String, String, String)>) -> Seq<(Seq<char>, Seq<char>, Seq<char>)> {
    Seq::new(v.len(), |i: int| (v[i].0@, v[i].1@, v[i].2@))
}

fn push_triple(v: &mut Vec<(String, String, String)>, a: &str, b: &str, c: &str)
    ensures
        triple_views(final(v)@) == triple_views(old(v)@).push((a@, b@, c@)),
{
    v.push((a.to_owned(), b.to_owned(), c.to_owned()));
    assert(triple_views(v@) =~= triple_views(old(v)@).push((a@, b@, c@)));
}

fn push_created(v: &mut Vec<(String, String, String)>)
    ensures
        triple_views(final(v)@) == triple_views(old(v)@) + created_columns(),
{
    push_triple(v, "created_at", "createdAt", "string");
    push_triple(v, "created_by", "createdBy", "string");
    push_triple(v, "created_by_name", "createdByName", "string");
    assert(triple_views(v@) =~= triple_views(old(v)@) + created_columns());
}

fn push_updated(v: &mut Vec<(String, String, String)>)
    ensures
        triple_views(final(v)@) == triple_views(old(v)@) + updated_columns(),
{
    push_triple(v, "updated_at", "updatedAt", "string");
    push_triple(v, "updated_by", "updatedBy", "string");
    push_triple(v, "updated_by_name", "updatedByName", "string");
    assert(triple_views(v@) =~= triple_views(old(v)@) + updated_columns());
}

/// Columns that an embedded base model contributes.
pub fn expand_embedded_fields(embedded_name: &[char]) -> (r: Vec<(String, String, String)>)
    ensures
        triple_views(r@) == embedded_columns(embedded_name@),
{
    let mut v: Vec<(String, String, String)> = Vec::new();
    assert(triple_views(v@) =~= Seq::empty());
    if ends_with_str(embedded_name, "BaseModel") {
    } else if ends_with_str(embedded_name, "CreationTrackedModel") {
        push_created(&mut v);
        assert(triple_views(v@) =~= created_columns());
    } else if ends_with_str(embedded_name, "FullTrackedModel") {
        push_created(&mut v);
        push_updated(&mut v);
        assert(triple_views(v@) =~= created_columns() + updated_columns());
    } else if ends_with_str(embedded_name, "CreationAuditedModel") {
        push_triple(&mut v, "id", "id", "string");
        push_created(&mut v);
        assert(triple_views(v@) =~= id_column() + created_columns());
    } else if ends_with_str(embedded_name, "FullAuditedModel") {
        push_triple(&mut v, "id", "id", "string");
        push_created(&mut v);
        push_updated(&mut v);
        assert(triple_views(v@) =~= id_column() + created_columns() + updated_columns());
    }
    v
}

/// The model field of an embedded column.
pub open spec fn embedded_field(t: (Seq<char>, Seq<char>, Seq<char>)) -> ModelFieldSpec {
    ModelFieldSpec {
        name: t.0,
        json_name: t.1,
        go_type: t.2,
        ts_type: t.2,
        label: humanized(t.0),
        required: false,
        max_length: None,
        is_optional: has_prefix(t.2, "MaybeNull<"@),
        is_json: false,
    }
}

/// The model field of a field line.
pub open spec fn built_field(
    name: Seq<char>,
    json_name: Seq<char>,
    go_type: Seq<char>,
    label: Seq<char>,
    required: bool,
    max_length: Option<usize>,
) -> ModelFieldSpec {
    ModelFieldSpec {
        name,
        json_name,
        go_type,
        ts_type: ts_type_of(go_type),
        label,
        required,
        max_length,
        is_optional: go_type.len() > 0 && go_type[0] == '*',
        is_json: go_type == "map[string]any"@,
    }
}

pub fn build_model_field(
    name: String,
    json_name: String,
    go_type: String,
    label: String,
    required: bool,
    max_length: Option<usize>,
) -> (r: ModelField)
    ensures
        r@ == built_field(name@, json_name@, go_type@, label@, required, max_length),
{
    let g = chars_of(go_type.as_str());
    let ts = ts_type_chars(g.as_slice());
    let is_optional = g.len() > 0 && g[0] == '*';
    let is_json = eq_str(g.as_slice(), "map[string]any");
    ModelField {
        name,
        json_name,
        go_type,
        ts_type: string_of(ts.as_slice()),
        label,
        required,
        max_length,
        is_optional,
        is_json,
    }
}

/// Fields that one line of a struct body contributes.
pub open spec fn line_fields(line: Seq<char>) -> Seq<ModelFieldSpec> {
    match embedded_name(line) {
        Some(n) => embedded_columns(n).map_values(|t: (Seq<char>, Seq<char>, Seq<char>)| embedded_field(t)),
        None => match field_line(line) {
            Some((n, j, g, l, q, m)) => seq![built_field(n, j, g, l, q, m)],
            None => Seq::empty(),
        },
    }
}

fn add_line_fields(fields: &mut Vec<ModelField>, line: &[char])
    ensures
        model_field_views(final(fields)@) == model_field_views(old(fields)@) + line_fields(line@),
{
    proof {
        reveal_strlit("MaybeNull<");
    }
    match parse_embedded_struct_name(line) {
        Some(n) => {
            let cols = expand_embedded_fields(n.as_slice());
            let ghost want = embedded_columns(n@).map_values(
                |t: (Seq<char>, Seq<char>, Seq<char>)| embedded_field(t),
            );
            let ghost start = model_field_views(fields@);
            for i in 0..cols.len()
                invariant
                    triple_views(cols@) == embedded_columns(n@),
                    want == embedded_columns(n@).map_values(
                        |t: (Seq<char>, Seq<char>, Seq<char>)| embedded_field(t),
                    ),
                    model_field_views(fields@) == start + want.take(i as int),
            {
                let (a, b, c) = &cols[i];
                assert(triple_views(cols@)[i as int] == (a@, b@, c@));
                let av = chars_of(a.as_str());
                let label = humanize_identifier(av.as_slice());
                let cv = chars_of(c.as_str());
                let is_optional = starts_with_str(cv.as_slice(), "MaybeNull<");
                let f = ModelField {
                    name: a.clone(),
                    json_name: b.clone(),
                    go_type: c.clone(),
                    ts_type: c.clone(),
                    label: string_of(label.as_slice()),
                    required: false,
                    max_length: None,
                    is_optional,
                    is_json: false,
                };
                assert(f@ == want[i as int]);
                let ghost before = model_field_views(fields@);
                fields.push(f);
                assert(model_field_views(fields@) =~= before.push(f@));
                assert(want.take(i + 1) =~= want.take(i as int).push(want[i as int]));
            }
            assert(want.take(cols@.len() as int) =~= want);
        },
        None => match field_line_chars(line) {
            Some((n, j, g, l, q, m)) => {
                let f = build_model_field(
                    string_of(n.as_slice()),
                    string_of(j.as_slice()),
                    string_of(g.as_slice()),
                    string_of(l.as_slice()),
                    q,
                    m,
                );
                let ghost before = model_field_views(fields@);
                fields.push(f);
                assert(model_field_views(fields@) =~= before + line_fields(line@));
            },
            None => {
                assert(model_field_views(fields@) =~= model_field_views(old(fields)@) + line_fields(line@));
            },
        },
    }
}

/// `struct`, blanks and `{` after blanks, from `e`.
pub open spec fn struct_tail(s: Seq<char>, e: int) -> bool {
    let b = ws_end(s, e);
    b > e && occurs_at(s, "struct"@, b) && char_at(s, ws_end(s, b + 6), '{')
}

/// The line opens `type <name> struct {`, after leading blanks.
pub open spec fn struct_header(s: Seq<char>, name: Seq<char>) -> bool {
    let w = ws_end(s, 0);
    occurs_at(s, "type"@, w) && exists|a: int|
        w + 4 < a <= ws_end(s, w + 4) && occurs_at(s, name, a) && struct_tail(s, a + name.len())
}

fn struct_tail_exec(s: &[char], e: usize) -> (r: bool)
    requires
        e <= s@.len(),
    ensures
        r == struct_tail(s@, e as int),
{
    proof {
        reveal_strlit("struct");
    }
    let n = s.len();
    let b = skip_ws(s, e);
    let st = chars_of("struct");
    if !(b > e && crate::text::matches_at(s, st.as_slice(), b)) {
        return false;
    }
    assert(b + 6 <= n);
    let c = skip_ws(s, b + 6);
    c < s.len() && s[c] == '{'
}

fn struct_header_exec(s: &[char], name: &[char]) -> (r: bool)
    ensures
        r == struct_header(s@, name@),
{
    proof {
        reveal_strlit("type");
    }
    let n = s.len();
    let w = skip_ws(s, 0);
    let ty = chars_of("type");
    if !crate::text::matches_at(s, ty.as_slice(), w) {
        return false;
    }
    assert(w + 4 <= n);
    let limit = skip_ws(s, w + 4);
    let mut a = w + 4;
    while a < limit
        invariant
            n == s@.len(),
            w + 4 <= a <= limit <= s@.len(),
            w == ws_end(s@, 0),
            occurs_at(s@, "type"@, w as int),
            limit == ws_end(s@, w + 4),
            forall|a2: int| w + 4 < a2 <= a ==> !(occurs_at(s@, name@, a2) && struct_tail(s@, a2 + name@.len())),
        decreases limit - a,
    {
        a += 1;
        if crate::text::matches_at(s, name, a) {
            assert(a + name@.len() <= n);
            if struct_tail_exec(s, a + name.len()) {
                assert(w + 4 < a <= ws_end(s@, w + 4) && occurs_at(s@, name@, a as int) && struct_tail(
                    s@,
                    a + name@.len(),
                ));
                return true;
            }
        }
    }
    false
}

/// Index of the first line from `i` that opens the struct.
pub open spec fn first_header(ls: Seq<Seq<char>>, name: Seq<char>, i: int) -> Option<int>
    decreases ls.len() - i,
{
    if i < 0 || i >= ls.len() {
        None
    } else if struct_header(ls[i], name) {
        Some(i)
    } else {
        first_header(ls, name, i + 1)
    }
}

/// Fields of the body lines up to the closing `}`; blank and comment lines are skipped.
pub open spec fn body_fields(ls: Seq<Seq<char>>) -> Seq<ModelFieldSpec>
    decreases ls.len(),
{
    if ls.len() == 0 {
        Seq::empty()
    } else {
        let t = trim(ls[0]);
        if t.len() == 0 || has_prefix(t, "//"@) {
            body_fields(ls.drop_first())
        } else if t == "}"@ {
            Seq::empty()
        } else {
            line_fields(ls[0]) + body_fields(ls.drop_first())
        }
    }
}

/// Fields of the struct `name` in a Go source, or nothing when it is not declared.
pub open spec fn struct_fields(content: Seq<char>, name: Seq<char>) -> Option<Seq<ModelFieldSpec>> {
    let ls = lines_of(content);
    match first_header(ls, name, 0) {
        Some(h) => Some(body_fields(ls.skip(h + 1))),
        None => None,
    }
}

pub fn parse_struct_fields_optional(content: &[char], struct_name: &[char]) -> (r: Option<Vec<ModelField>>)
    ensures
        match struct_fields(content@, struct_name@) {
            Some(fs) => r is Some && model_field_views(r->0@) == fs,
            None => r is None,
        },
{
    let ls = lines(content);
    let ghost v = views(ls@);
    let mut h: usize = 0;
    while h < ls.len()
        invariant
            v == views(ls@),
            v == lines_of(content@),
            h <= ls@.len(),
            first_header(v, struct_name@, 0) == first_header(v, struct_name@, h as int),
        ensures
            h <= ls@.len(),
            first_header(v, struct_name@, 0) == first_header(v, struct_name@, h as int),
            h < ls@.len() ==> struct_header(v[h as int], struct_name@),
        decreases ls@.len() - h,
    {
        assert(v[h as int] == ls@[h as int]@);
        if struct_header_exec(ls[h].as_slice(), struct_name) {
            break;
        }
        h += 1;
    }
    if h == ls.len() {
        return None;
    }
    assert(first_header(v, struct_name@, 0) == Some(h as int));
    let mut fields: Vec<ModelField> = Vec::new();
    let mut j = h + 1;
    assert(model_field_views(fields@) + body_fields(v.skip(j as int)) =~= body_fields(v.skip(h + 1)));
    while j < ls.len()
        invariant
            v == views(ls@),
            v == lines_of(content@),
            first_header(v, struct_name@, 0) == Some(h as int),
            h < j <= ls@.len(),
            body_fields(v.skip(h + 1)) == model_field_views(fields@) + body_fields(v.skip(j as int)),
        decreases ls@.len() - j,
    {
        proof {
            reveal_strlit("//");
            reveal_strlit("}");
        }
        let line = ls[j].as_slice();
        assert(v.skip(j as int)[0] == line@);
        assert(v.skip(j as int).drop_first() =~= v.skip(j + 1));
        let t = trimmed(line);
        if t.len() == 0 || starts_with_str(t.as_slice(), "//") {
            j += 1;
        } else if eq_str(t.as_slice(), "}") {
            assert(body_fields(v.skip(j as int)) =~= Seq::<ModelFieldSpec>::empty());
            assert(model_field_views(fields@) + Seq::<ModelFieldSpec>::empty() =~= model_field_views(fields@));
            return Some(fields);
        } else {
            let ghost before = model_field_views(fields@);
            add_line_fields(&mut fields, line);
            assert(before + (line_fields(line@) + body_fields(v.skip(j + 1))) =~= model_field_views(fields@)
                + body_fields(v.skip(j + 1)));
            j += 1;
        }
    }
    assert(v.skip(j as int) =~= Seq::<Seq<char>>::empty());
    assert(model_field_views(fields@) + Seq::<ModelFieldSpec>::empty() =~= model_field_views(fields@));
    Some(fields)
}

/// Fields of the struct `name`, or the error that it is not declared.
pub open spec fn model_file(content: Seq<char>, name: Seq<char>) -> Result<Seq<ModelFieldSpec>, Seq<char>> {
    match struct_fields(content, name) {
        Some(fs) => Ok(fs),
        None => Err("未找到 struct "@ + name + " 定义"@),
    }
}

pub fn parse_struct_fields(content: &[char], struct_name: &[char]) -> (r: Result<Vec<ModelField>, Vec<char>>)
    ensures
        match model_file(content@, struct_name@) {
            Ok(fs) => r is Ok && model_field_views(r->Ok_0@) == fs,
            Err(e) => r is Err && r->Err_0@ == e,
        },
{
    match parse_struct_fields_optional(content, struct_name) {
        Some(f) => Ok(f),
        None => {
            let mut m = chars_of("未找到 struct ");
            push_all(&mut m, struct_name);
            let tail = chars_of(" 定义");
            push_all(&mut m, tail.as_slice());
            Err(m)
        },
    }
}

/// Fields of the model struct `struct_name` in a Go model source.
pub fn parse_model_file(content: &str, struct_name: &str) -> (r: Result<Vec<ModelField>, String>)
    ensures
        match model_file(content@, struct_name@) {
            Ok(fs) => r is Ok && model_field_views(r->Ok_0@) == fs,
            Err(e) => r is Err && r->Err_0@ == e,
        },
{
    let c = chars_of(content);
    let n = chars_of(struct_name);
    match parse_struct_fields(c.as_slice(), n.as_slice()) {
        Ok(f) => Ok(f),
        Err(e) => Err(string_of(e.as_slice())),
    }
}

/// Fields of a struct that may be missing: none then.
pub open spec fn optional_fields(content: Seq<char>, name: Seq<char>) -> Seq<ModelFieldSpec> {
    match struct_fields(content, name) {
        Some(fs) => fs,
        None => Seq::empty(),
    }
}

/// Search and parameter fields of an entity: the structs `<entity>Search` and
/// `<entity>Params` of a payload source, each empty when it is missing.
pub fn parse_payload_file(content: &str, entity_name: &str) -> (r: Result<(Vec<ModelField>, Vec<ModelField>), String>)
    ensures
        r is Ok,
        model_field_views(r->Ok_0.0@) == optional_fields(content@, entity_name@ + "Search"@),
        model_field_views(r->Ok_0.1@) == optional_fields(content@, entity_name@ + "Params"@),
{
    let c = chars_of(content);
    let mut search_name = chars_of(entity_name);
    let sfx = chars_of("Search");
    push_all(&mut search_name, sfx.as_slice());
    let mut params_name = chars_of(entity_name);
    let pfx = chars_of("Params");
    push_all(&mut params_name, pfx.as_slice());
    let search = match parse_struct_fields_optional(c.as_slice(), search_name.as_slice()) {
        Some(f) => f,
        None => {
            let e: Vec<ModelField> = Vec::new();
            assert(model_field_views(e@) =~= Seq::<ModelFieldSpec>::empty());
            e
        },
    };
    let params = match parse_struct_fields_optional(c.as_slice(), params_name.as_slice()) {
        Some(f) => f,
        None => {
            let e: Vec<ModelField> = Vec::new();
            assert(model_field_views(e@) =~= Seq::<ModelFieldSpec>::empty());
            e
        },
    };
    Ok((search, params))
}

/// Patterns searched leftmost in a Go source.
#[derive(Clone, Copy, PartialEq, Eq, Structural)]
pub enum Probe {
    /// `Path: "<path>"` of a resource configuration.
    ConfigPath,
    /// `NewRPCResource("<path>"`.
    RpcResource,
    /// `table:<name>` of a bun tag.
    TableTag,
    /// `return "<path>"` of a `Path() string` method, lazily after its opening brace.
    Return,
}

/// A quoted text at `q`: `"`, at least one other character, `"`; its bounds.
pub open spec fn quoted_at(s: Seq<char>, q: int) -> Option<(int, int)> {
    let e = find_char(s, q + 1, '"');
    if char_at(s, q, '"') && e > q + 1 && e < s.len() {
        Some((q + 1, e))
    } else {
        None
    }
}

fn quoted_at_exec(s: &[char], q: usize) -> (r: Option<(usize, usize)>)
    requires
        q <= s@.len(),
    ensures
        match r {
            Some((x, y)) => quoted_at(s@, q as int) == Some((x as int, y as int)) && x <= y <= s@.len(),
            None => quoted_at(s@, q as int) is None,
        },
{
    if !(q < s.len() && s[q] == '"') {
        return None;
    }
    let e = seek_char(s, q + 1, '"');
    if e > q + 1 && e < s.len() {
        Some((q + 1, e))
    } else {
        None
    }
}

/// End of a run of characters other than `,`, backtick and `"`.
pub open spec fn table_name_end(s: Seq<char>, i: int) -> int
    decreases s.len() - i,
{
    if 0 <= i < s.len() && s[i] != ',' && s[i] != '`' && s[i] != '"' {
        table_name_end(s, i + 1)
    } else {
        i
    }
}

fn skip_table_name(s: &[char], i: usize) -> (r: usize)
    requires
        i <= s@.len(),
    ensures
        r == table_name_end(s@, i as int),
        i <= r <= s@.len(),
{
    let mut j = i;
    while j < s.len() && s[j] != ',' && s[j] != '`' && s[j] != '"'
        invariant
            i <= j <= s@.len(),
            table_name_end(s@, j as int) == table_name_end(s@, i as int),
        decreases s@.len() - j,
    {
        j += 1;
    }
    j
}

/// The pattern `k` at `p`; the bounds of what it captures.
pub open spec fn probe_at(s: Seq<char>, k: Probe, p: int) -> Option<(int, int)> {
    match k {
        Probe::ConfigPath => {
            let c = ws_end(s, p + 4);
            if occurs_at(s, "Path"@, p) && char_at(s, c, ':') {
                quoted_at(s, ws_end(s, c + 1))
            } else {
                None
            }
        },
        Probe::RpcResource => if occurs_at(s, "NewRPCResource("@, p) {
            quoted_at(s, p + 15)
        } else {
            None
        },
        Probe::TableTag => {
            let e = table_name_end(s, p + 6);
            if occurs_at(s, "table:"@, p) && e > p + 6 {
                Some((p + 6, e))
            } else {
                None
            }
        },
        Probe::Return => {
            let w = ws_end(s, p + 6);
            if occurs_at(s, "return"@, p) && w > p + 6 {
                quoted_at(s, w)
            } else {
                None
            }
        },
    }
}

/// Leftmost match of `k` at or after `i`.
pub open spec fn first_probe(s: Seq<char>, k: Probe, i: int) -> Option<(int, int)>
    decreases s.len() + 1 - i,
{
    if i < 0 || i > s.len() {
        None
    } else if probe_at(s, k, i) is Some {
        probe_at(s, k, i)
    } else {
        first_probe(s, k, i + 1)
    }
}

fn probe_at_exec(s: &[char], k: Probe, p: usize) -> (r: Option<(usize, usize)>)
    requires
        p <= s@.len(),
    ensures
        match r {
            Some((x, y)) => probe_at(s@, k, p as int) == Some((x as int, y as int)) && x <= y <= s@.len(),
            None => probe_at(s@, k, p as int) is None,
        },
{
    let n = s.len();
    match k {
        Probe::ConfigPath => {
            proof {
                reveal_strlit("Path");
            }
            if !crate::text::matches_at(s, chars_of("Path").as_slice(), p) {
                return None;
            }
            assert(p + 4 <= n);
            let c = skip_ws(s, p + 4);
            if !(c < n && s[c] == ':') {
                return None;
            }
            quoted_at_exec(s, skip_ws(s, c + 1))
        },
        Probe::RpcResource => {
            proof {
                reveal_strlit("NewRPCResource(");
            }
            if !crate::text::matches_at(s, chars_of("NewRPCResource(").as_slice(), p) {
                return None;
            }
            assert(p + 15 <= n);
            quoted_at_exec(s, p + 15)
        },
        Probe::TableTag => {
            proof {
                reveal_strlit("table:");
            }
            if !crate::text::matches_at(s, chars_of("table:").as_slice(), p) {
                return None;
            }
            assert(p + 6 <= n);
            let e = skip_table_name(s, p + 6);
            if e > p + 6 {
                Some((p + 6, e))
            } else {
                None
            }
        },
        Probe::Return => {
            proof {
                reveal_strlit("return");
            }
            if !crate::text::matches_at(s, chars_of("return").as_slice(), p) {
                return None;
            }
            assert(p + 6 <= n);
            let w = skip_ws(s, p + 6);
            if w > p + 6 {
                quoted_at_exec(s, w)
            } else {
                None
            }
        },
    }
}

fn first_probe_exec(s: &[char], k: Probe, from: usize) -> (r: Option<(usize, usize)>)
    requires
        from <= s@.len(),
    ensures
        match r {
            Some((x, y)) => first_probe(s@, k, from as int) == Some((x as int, y as int)) && x <= y <= s@.len(),
            None => first_probe(s@, k, from as int) is None,
        },
{
    let mut i = from;
    loop
        invariant
            from <= i <= s@.len(),
            first_probe(s@, k, from as int) == first_probe(s@, k, i as int),
        decreases s@.len() - i,
    {
        match probe_at_exec(s, k, i) {
            Some(x) => return Some(x),
            None => {},
        }
        if i == s.len() {
            assert(first_probe(s@, k, i + 1) is None);
            return None;
        }
        i += 1;
    }
}

/// `Path() string {` at `p`; the position after the brace.
pub open spec fn path_method_at(s: Seq<char>, p: int) -> Option<int> {
    let b = ws_end(s, p + 6);
    let c = ws_end(s, b + 6);
    if occurs_at(s, "Path()"@, p) && b > p + 6 && occurs_at(s, "string"@, b) && char_at(s, c, '{') {
        Some(c + 1)
    } else {
        None
    }
}

fn path_method_at_exec(s: &[char], p: usize) -> (r: Option<usize>)
    requires
        p <= s@.len(),
    ensures
        match r {
            Some(c) => path_method_at(s@, p as int) == Some(c as int) && c <= s@.len(),
            None => path_method_at(s@, p as int) is None,
        },
{
    proof {
        reveal_strlit("Path()");
        reveal_strlit("string");
    }
    let n = s.len();
    if !crate::text::matches_at(s, chars_of("Path()").as_slice(), p) {
        return None;
    }
    assert(p + 6 <= n);
    let b = skip_ws(s, p + 6);
    if !(b > p + 6 && crate::text::matches_at(s, chars_of("string").as_slice(), b)) {
        return None;
    }
    assert(b + 6 <= n);
    let c = skip_ws(s, b + 6);
    if c < n && s[c] == '{' {
        Some(c + 1)
    } else {
        None
    }
}

/// A `Path() string` method at `p` whose body returns a quoted path; the first such return.
pub open spec fn method_path_at(s: Seq<char>, p: int) -> Option<(int, int)> {
    match path_method_at(s, p) {
        Some(c) => first_probe(s, Probe::Return, c),
        None => None,
    }
}

pub open spec fn first_method_path(s: Seq<char>, i: int) -> Option<(int, int)>
    decreases s.len() + 1 - i,
{
    if i < 0 || i > s.len() {
        None
    } else if method_path_at(s, i) is Some {
        method_path_at(s, i)
    } else {
        first_method_path(s, i + 1)
    }
}

fn first_method_path_exec(s: &[char]) -> (r: Option<(usize, usize)>)
    ensures
        match r {
            Some((x, y)) => first_method_path(s@, 0) == Some((x as int, y as int)) && x <= y <= s@.len(),
            None => first_method_path(s@, 0) is None,
        },
{
    let mut i: usize = 0;
    loop
        invariant
            i <= s@.len(),
            first_method_path(s@, 0) == first_method_path(s@, i as int),
        decreases s@.len() - i,
    {
        match path_method_at_exec(s, i) {
            Some(c) => match first_probe_exec(s, Probe::Return, c) {
                Some(x) => return Some(x),
                None => {},
            },
            None => {},
        }
        if i == s.len() {
            assert(first_method_path(s@, i + 1) is None);
            return None;
        }
        i += 1;
    }
}

/// Path of a resource: a configured `Path`, else a `NewRPCResource` argument, else what
/// a `Path()` method returns.
pub open spec fn rpc_path(s: Seq<char>) -> Option<Seq<char>> {
    match first_probe(s, Probe::ConfigPath, 0) {
        Some((x, y)) => Some(s.subrange(x, y)),
        None => match first_probe(s, Probe::RpcResource, 0) {
            Some((x, y)) => Some(s.subrange(x, y)),
            None => match first_method_path(s, 0) {
                Some((x, y)) => Some(s.subrange(x, y)),
                None => None,
            },
        },
    }
}

pub fn extract_rpc_path(content: &str) -> (r: Option<String>)
    ensures
        match rpc_path(content@) {
            Some(p) => r is Some && r->0@ == p,
            None => r is None,
        },
{
    let cv = chars_of(content);
    let c = cv.as_slice();
    if let Some((x, y)) = first_probe_exec(c, Probe::ConfigPath, 0) {
        return Some(string_of(slice_of(c, x, y).as_slice()));
    }
    if let Some((x, y)) = first_probe_exec(c, Probe::RpcResource, 0) {
        return Some(string_of(slice_of(c, x, y).as_slice()));
    }
    match first_method_path_exec(c) {
        Some((x, y)) => Some(string_of(slice_of(c, x, y).as_slice())),
        None => None,
    }
}

/// Table name of a bun `table:` tag in a model source.
pub open spec fn table_tag(s: Seq<char>) -> Option<Seq<char>> {
    match first_probe(s, Probe::TableTag, 0) {
        Some((x, y)) => Some(s.subrange(x, y)),
        None => None,
    }
}

pub fn extract_table_name(content: &[char]) -> (r: Option<Vec<char>>)
    ensures
        match table_tag(content@) {
            Some(t) => r is Some && r->0@ == t,
            None => r is None,
        },
{
    match first_probe_exec(content, Probe::TableTag, 0) {
        Some((x, y)) => Some(slice_of(content, x, y)),
        None => None,
    }
}

/// `\` replaced by `/`.
pub open spec fn forward_slashes(s: Seq<char>) -> Seq<char> {
    Seq::new(s.len(), |i: int| if s[i] == '\\' { '/' } else { s[i] })
}

fn forward_slashes_exec(s: &[char]) -> (r: Vec<char>)
    ensures
        r@ == forward_slashes(s@),
{
    let mut r: Vec<char> = Vec::new();
    for i in 0..s.len()
        invariant
            r@ == forward_slashes(s@).take(i as int),
    {
        r.push(if s[i] == '\\' { '/' } else { s[i] });
        assert(r@ =~= forward_slashes(s@).take(i + 1));
    }
    assert(forward_slashes(s@).take(s@.len() as int) =~= forward_slashes(s@));
    r
}

/// Index of the last `c` before `i`, or -1.
pub open spec fn last_index(s: Seq<char>, c: char, i: int) -> int
    decreases i,
{
    if i <= 0 {
        -1
    } else if s[i - 1] == c {
        i - 1
    } else {
        last_index(s, c, i - 1)
    }
}

fn last_index_exec(s: &[char], c: char) -> (r: Option<usize>)
    ensures
        match r {
            Some(k) => last_index(s@, c, s@.len() as int) == k && k < s@.len(),
            None => last_index(s@, c, s@.len() as int) == -1,
        },
{
    let mut i = s.len();
    while i > 0
        invariant
            i <= s@.len(),
            last_index(s@, c, s@.len() as int) == last_index(s@, c, i as int),
        decreases i,
    {
        if s[i - 1] == c {
            return Some(i - 1);
        }
        i -= 1;
    }
    None
}

/// No line break in `s[a..b)`.
pub open spec fn single_line(s: Seq<char>, a: int, b: int) -> bool {
    forall|k: int| a <= k < b ==> s[k] != '\n'
}

/// `internal/` at `p` followed, on one line, by a non-empty module path that ends where
/// `/resource/` starts at `k`.
pub open spec fn module_at(s: Seq<char>, k: int, p: int) -> bool {
    occurs_at(s, "internal/"@, p) && p + 9 < k && single_line(s, p + 9, k)
}

pub open spec fn first_module(s: Seq<char>, k: int, i: int) -> Option<int>
    decreases s.len() + 1 - i,
{
    if i < 0 || i > s.len() {
        None
    } else if module_at(s, k, i) {
        Some(i)
    } else {
        first_module(s, k, i + 1)
    }
}

/// Module path and entity name of `internal/<module...>/resource/<entity>.go`; the
/// `/resource/` is the one before the last `/`, and the module starts at the leftmost
/// `internal/` that reaches it.
pub open spec fn module_entity(path: Seq<char>) -> Result<(Seq<char>, Seq<char>), Seq<char>> {
    let s = forward_slashes(path);
    let l = last_index(s, '/', s.len() as int);
    let k = l - 9;
    let err = "无法从路径推导模块名，期望格式: internal/{module...}/resource/{entity}.go"@;
    if l >= 0 && occurs_at(s, "/resource/"@, k) && l + 1 < s.len() - 3 && occurs_at(s, ".go"@, s.len() - 3) {
        match first_module(s, k, 0) {
            Some(p) => Ok((s.subrange(p + 9, k), s.subrange(l + 1, s.len() - 3))),
            None => Err(err),
        }
    } else {
        Err(err)
    }
}

fn first_module_exec(s: &[char], k: usize) -> (r: Option<usize>)
    requires
        k <= s@.len(),
    ensures
        match r {
            Some(p) => first_module(s@, k as int, 0) == Some(p as int) && p + 9 < k,
            None => first_module(s@, k as int, 0) is None,
        },
{
    proof {
        reveal_strlit("internal/");
    }
    let pat = chars_of("internal/");
    let mut i: usize = 0;
    loop
        invariant
            pat@ == "internal/"@,
            i <= s@.len(),
            k <= s@.len(),
            first_module(s@, k as int, 0) == first_module(s@, k as int, i as int),
        decreases s@.len() - i,
    {
        proof {
            reveal_strlit("internal/");
        }
        if crate::text::matches_at(s, pat.as_slice(), i) && i < k && k - i > 9 {
            let mut j = i + 9;
            while j < k && s[j] != '\n'
                invariant
                    i + 9 <= j <= k <= s@.len(),
                    single_line(s@, i + 9, j as int),
                decreases k - j,
            {
                j += 1;
            }
            if j == k {
                return Some(i);
            }
        }
        if i == s.len() {
            assert(first_module(s@, k as int, i + 1) is None);
            return None;
        }
        i += 1;
    }
}

fn module_entity_chars(path: &[char]) -> (r: Result<(Vec<char>, Vec<char>), Vec<char>>)
    ensures
        match module_entity(path@) {
            Ok((m, e)) => r is Ok && r->Ok_0.0@ == m && r->Ok_0.1@ == e,
            Err(e) => r is Err && r->Err_0@ == e,
        },
{
    proof {
        reveal_strlit("/resource/");
        reveal_strlit(".go");
    }
    let sv = forward_slashes_exec(path);
    let s = sv.as_slice();
    let n = s.len();
    let err = "无法从路径推导模块名，期望格式: internal/{module...}/resource/{entity}.go";
    let l = match last_index_exec(s, '/') {
        Some(l) => l,
        None => return Err(chars_of(err)),
    };
    if l < 9 || !crate::text::matches_at(s, chars_of("/resource/").as_slice(), l - 9) {
        return Err(chars_of(err));
    }
    if !(n >= 3 && l + 1 < n - 3 && crate::text::matches_at(s, chars_of(".go").as_slice(), n - 3)) {
        return Err(chars_of(err));
    }
    let k = l - 9;
    match first_module_exec(s, k) {
        Some(p) => Ok((slice_of(s, p + 9, k), slice_of(s, l + 1, n - 3))),
        None => Err(chars_of(err)),
    }
}

/// Module path and entity name of a resource source path.
pub fn extract_module_and_entity(resource_path: &str) -> (r: Result<(String, String), String>)
    ensures
        match module_entity(resource_path@) {
            Ok((m, e)) => r is Ok && r->Ok_0.0@ == m && r->Ok_0.1@ == e,
            Err(e) => r is Err && r->Err_0@ == e,
        },
{
    match module_entity_chars(chars_of(resource_path).as_slice()) {
        Ok((m, e)) => Ok((string_of(m.as_slice()), string_of(e.as_slice()))),
        Err(e) => Err(string_of(e.as_slice())),
    }
}

/// The resource path configured in a resource source, or the error naming the source.
pub fn resource_rpc_path(resource_display: &str, content: &str) -> (r: Result<String, String>)
    ensures
        match rpc_path(content@) {
            Some(p) => r is Ok && r->Ok_0@ == p,
            None => r is Err && r->Err_0@ == "未找到 Resource Path 配置: "@ + resource_display@,
        },
{
    match extract_rpc_path(content) {
        Some(p) => Ok(p),
        None => {
            let mut m = chars_of("未找到 Resource Path 配置: ");
            push_all(&mut m, chars_of(resource_display).as_slice());
            Err(string_of(m.as_slice()))
        },
    }
}

/// `/` replaced by `_`.
pub open spec fn underscored(s: Seq<char>) -> Seq<char> {
    Seq::new(s.len(), |i: int| if s[i] == '/' { '_' } else { s[i] })
}

/// Table of an entity: the model's `table:` tag, else `<module with _>_<entity>`.
pub open spec fn entity_table(model: Seq<char>, module_name: Seq<char>, entity: Seq<char>) -> Seq<char> {
    match table_tag(model) {
        Some(t) => t,
        None => underscored(module_name) + "_"@ + entity,
    }
}

fn entity_table_exec(model: &[char], module_name: &[char], entity: &[char]) -> (r: Vec<char>)
    ensures
        r@ == entity_table(model@, module_name@, entity@),
{
    match extract_table_name(model) {
        Some(t) => t,
        None => {
            let mut r: Vec<char> = Vec::new();
            for i in 0..module_name.len()
                invariant
                    r@ == underscored(module_name@).take(i as int),
            {
                r.push(if module_name[i] == '/' { '_' } else { module_name[i] });
                assert(r@ =~= underscored(module_name@).take(i + 1));
            }
            assert(underscored(module_name@).take(module_name@.len() as int) =~= underscored(module_name@));
            r.push('_');
            push_all(&mut r, entity);
            proof {
                reveal_strlit("_");
            }
            assert(r@ =~= underscored(module_name@) + "_"@ + entity@);
            r
        },
    }
}

/// The entity of a resource, from its module, name and resource path and from the model
/// and (when it could be read) payload sources; fails when the model struct is missing.
pub fn build_parsed_entity(
    module_name: String,
    entity_name: &str,
    rpc_path: String,
    model_content: &str,
    payload_content: Option<&str>,
) -> (r: Result<ParsedEntity, String>)
    ensures
        match model_file(model_content@, pascal(entity_name@)) {
            Err(e) => r is Err && r->Err_0@ == e,
            Ok(fs) => r is Ok && {
                let en = r->Ok_0;
                &&& en.name@ == pascal(entity_name@)
                &&& en.snake_name@ == entity_name@
                &&& en.table_name@ == entity_table(model_content@, module_name@, entity_name@)
                &&& en.module_name@ == module_name@
                &&& model_field_views(en.fields@) == fs
                &&& model_field_views(en.search_fields@) == match payload_content {
                    Some(p) => optional_fields(p@, pascal(entity_name@) + "Search"@),
                    None => Seq::empty(),
                }
                &&& model_field_views(en.param_fields@) == match payload_content {
                    Some(p) => optional_fields(p@, pascal(entity_name@) + "Params"@),
                    None => Seq::empty(),
                }
                &&& en.rpc_path@ == rpc_path@
            },
        },
{
    let ev = chars_of(entity_name);
    let name = string_of(to_pascal_case(ev.as_slice()).as_slice());
    let fields = match parse_model_file(model_content, name.as_str()) {
        Ok(f) => f,
        Err(e) => return Err(e),
    };
    let mc = chars_of(model_content);
    let mv = chars_of(module_name.as_str());
    let table = entity_table_exec(mc.as_slice(), mv.as_slice(), ev.as_slice());
    let (search_fields, param_fields) = match payload_content {
        Some(p) => match parse_payload_file(p, name.as_str()) {
            Ok(x) => x,
            Err(e) => return Err(e),
        },
        None => {
            let a: Vec<ModelField> = Vec::new();
            let b: Vec<ModelField> = Vec::new();
            assert(model_field_views(a@) =~= Seq::<ModelFieldSpec>::empty());
            assert(model_field_views(b@) =~= Seq::<ModelFieldSpec>::empty());
            (a, b)
        },
    };
    Ok(
        ParsedEntity {
            name,
            snake_name: entity_name.to_owned(),
            table_name: string_of(table.as_slice()),
            module_name,
            fields,
            search_fields,
            param_fields,
            rpc_path,
        },
    )
}

/// The Go types that have a nullable pointer form in the generated TypeScript.
pub open spec fn is_pointee_type(g: Seq<char>) -> bool {
    g == "string"@ || g == "bool"@ || is_int_type(g) || g == "time.Time"@ || g == "timex.DateTime"@
}

/// The TypeScript types of the plain Go types and of pointers to them; each type text is
/// told apart from the ones tested before it by its length or a character.
proof fn lemma_plain_and_pointer_types()
    ensures
        ts_type_of("string"@) == "string"@,
        ts_type_of("bool"@) == "boolean"@,
        ts_type_of("int"@) == "number"@,
        ts_type_of("int32"@) == "number"@,
        ts_type_of("int64"@) == "number"@,
        ts_type_of("uint"@) == "number"@,
        ts_type_of("uint32"@) == "number"@,
        ts_type_of("uint64"@) == "number"@,
        ts_type_of("time.Time"@) == "string"@,
        ts_type_of("timex.DateTime"@) == "string"@,
        ts_type_of("*string"@) == "MaybeNull<string>"@,
        ts_type_of("*bool"@) == "MaybeNull<boolean>"@,
        ts_type_of("*int"@) == "MaybeNull<number>"@,
        ts_type_of("*int32"@) == "MaybeNull<number>"@,
        ts_type_of("*int64"@) == "MaybeNull<number>"@,
        ts_type_of("*uint"@) == "MaybeNull<number>"@,
        ts_type_of("*uint32"@) == "MaybeNull<number>"@,
        ts_type_of("*uint64"@) == "MaybeNull<number>"@,
        ts_type_of("*time.Time"@) == "MaybeNull<string>"@,
        ts_type_of("*timex.DateTime"@) == "MaybeNull<string>"@,
{
    reveal_strlit("string");
    reveal_strlit("bool");
    reveal_strlit("int");
    reveal_strlit("int32");
    reveal_strlit("int64");
    reveal_strlit("uint");
    reveal_strlit("uint32");
    reveal_strlit("uint64");
    reveal_strlit("time.Time");
    reveal_strlit("timex.DateTime");
    reveal_strlit("*string");
    reveal_strlit("*bool");
    reveal_strlit("*int");
    reveal_strlit("*int32");
    reveal_strlit("*int64");
    reveal_strlit("*uint");
    reveal_strlit("*uint32");
    reveal_strlit("*uint64");
    reveal_strlit("*time.Time");
    reveal_strlit("*timex.DateTime");
    assert("bool"@.len() != "string"@.len());
    assert("int"@.len() != "string"@.len());
    assert("int"@.len() != "bool"@.len());
    assert("int32"@.len() != "string"@.len());
    assert("int32"@.len() != "bool"@.len());
    assert("int32"@.len() != "int"@.len());
    assert("int64"@.len() != "string"@.len());
    assert("int64"@.len() != "bool"@.len());
    assert("int64"@.len() != "int"@.len());
    assert("int64"@[3] != "int32"@[3]);
    assert("uint"@.len() != "string"@.len());
    assert("uint"@[0] != "bool"@[0]);
    assert("uint"@.len() != "int"@.len());
    assert("uint"@.len() != "int32"@.len());
    assert("uint"@.len() != "int64"@.len());
    assert("uint32"@[0] != "string"@[0]);
    assert("uint32"@.len() != "bool"@.len());
    assert("uint32"@.len() != "int"@.len());
    assert("uint32"@.len() != "int32"@.len());
    assert("uint32"@.len() != "int64"@.len());
    assert("uint32"@.len() != "uint"@.len());
    assert("uint64"@[0] != "string"@[0]);
    assert("uint64"@.len() != "bool"@.len());
    assert("uint64"@.len() != "int"@.len());
    assert("uint64"@.len() != "int32"@.len());
    assert("uint64"@.len() != "int64"@.len());
    assert("uint64"@.len() != "uint"@.len());
    assert("uint64"@[4] != "uint32"@[4]);
    assert("time.Time"@.len() != "string"@.len());
    assert("time.Time"@.len() != "bool"@.len());
    assert("time.Time"@.len() != "int"@.len());
    assert("time.Time"@.len() != "int32"@.len());
    assert("time.Time"@.len() != "int64"@.len());
    assert("time.Time"@.len() != "uint"@.len());
    assert("time.Time"@.len() != "uint32"@.len());
    assert("time.Time"@.len() != "uint64"@.len());
    assert("timex.DateTime"@.len() != "string"@.len());
    assert("timex.DateTime"@.len() != "bool"@.len());
    assert("timex.DateTime"@.len() != "int"@.len());
    assert("timex.DateTime"@.len() != "int32"@.len());
    assert("timex.DateTime"@.len() != "int64"@.len());
    assert("timex.DateTime"@.len() != "uint"@.len());
    assert("timex.DateTime"@.len() != "uint32"@.len());
    assert("timex.DateTime"@.len() != "uint64"@.len());
    assert("timex.DateTime"@.len() != "time.Time"@.len());
    assert("*string"@.len() != "string"@.len());
    assert("*string"@.len() != "bool"@.len());
    assert("*string"@.len() != "int"@.len());
    assert("*string"@.len() != "int32"@.len());
    assert("*string"@.len() != "int64"@.len());
    assert("*string"@.len() != "uint"@.len());
    assert("*string"@.len() != "uint32"@.len());
    assert("*string"@.len() != "uint64"@.len());
    assert("*string"@.len() != "time.Time"@.len());
    assert("*string"@.len() != "timex.DateTime"@.len());
    assert("*bool"@.len() != "string"@.len());
    assert("*bool"@.len() != "bool"@.len());
    assert("*bool"@.len() != "int"@.len());
    assert("*bool"@[0] != "int32"@[0]);
    assert("*bool"@[0] != "int64"@[0]);
    assert("*bool"@.len() != "uint"@.len());
    assert("*bool"@.len() != "uint32"@.len());
    assert("*bool"@.len() != "uint64"@.len());
    assert("*bool"@.len() != "time.Time"@.len());
    assert("*bool"@.len() != "timex.DateTime"@.len());
    assert("*bool"@.len() != "*string"@.len());
    assert("*int"@.len() != "string"@.len());
    assert("*int"@[0] != "bool"@[0]);
    assert("*int"@.len() != "int"@.len());
    assert("*int"@.len() != "int32"@.len());
    assert("*int"@.len() != "int64"@.len());
    assert("*int"@[0] != "uint"@[0]);
    assert("*int"@.len() != "uint32"@.len());
    assert("*int"@.len() != "uint64"@.len());
    assert("*int"@.len() != "time.Time"@.len());
    assert("*int"@.len() != "timex.DateTime"@.len());
    assert("*int"@.len() != "*string"@.len());
    assert("*int"@.len() != "*bool"@.len());
    assert("*int32"@[0] != "string"@[0]);
    assert("*int32"@.len() != "bool"@.len());
    assert("*int32"@.len() != "int"@.len());
    assert("*int32"@.len() != "int32"@.len());
    assert("*int32"@.len() != "int64"@.len());
    assert("*int32"@.len() != "uint"@.len());
    assert("*int32"@[0] != "uint32"@[0]);
    assert("*int32"@[0] != "uint64"@[0]);
    assert("*int32"@.len() != "time.Time"@.len());
    assert("*int32"@.len() != "timex.DateTime"@.len());
    assert("*int32"@.len() != "*string"@.len());
    assert("*int32"@.len() != "*bool"@.len());
    assert("*int32"@.len() != "*int"@.len());
    assert("*int64"@[0] != "string"@[0]);
    assert("*int64"@.len() != "bool"@.len());
    assert("*int64"@.len() != "int"@.len());
    assert("*int64"@.len() != "int32"@.len());
    assert("*int64"@.len() != "int64"@.len());
    assert("*int64"@.len() != "uint"@.len());
    assert("*int64"@[0] != "uint32"@[0]);
    assert("*int64"@[0] != "uint64"@[0]);
    assert("*int64"@.len() != "time.Time"@.len());
    assert("*int64"@.len() != "timex.DateTime"@.len());
    assert("*int64"@.len() != "*string"@.len());
    assert("*int64"@.len() != "*bool"@.len());
    assert("*int64"@.len() != "*int"@.len());
    assert("*int64"@[4] != "*int32"@[4]);
    assert("*uint"@.len() != "string"@.len());
    assert("*uint"@.len() != "bool"@.len());
    assert("*uint"@.len() != "int"@.len());
    assert("*uint"@[0] != "int32"@[0]);
    assert("*uint"@[0] != "int64"@[0]);
    assert("*uint"@.len() != "uint"@.len());
    assert("*uint"@.len() != "uint32"@.len());
    assert("*uint"@.len() != "uint64"@.len());
    assert("*uint"@.len() != "time.Time"@.len());
    assert("*uint"@.len() != "timex.DateTime"@.len());
    assert("*uint"@.len() != "*string"@.len());
    assert("*uint"@[1] != "*bool"@[1]);
    assert("*uint"@.len() != "*int"@.len());
    assert("*uint"@.len() != "*int32"@.len());
    assert("*uint"@.len() != "*int64"@.len());
    assert("*uint32"@.len() != "string"@.len());
    assert("*uint32"@.len() != "bool"@.len());
    assert("*uint32"@.len() != "int"@.len());
    assert("*uint32"@.len() != "int32"@.len());
    assert("*uint32"@.len() != "int64"@.len());
    assert("*uint32"@.len() != "uint"@.len());
    assert("*uint32"@.len() != "uint32"@.len());
    assert("*uint32"@.len() != "uint64"@.len());
    assert("*uint32"@.len() != "time.Time"@.len());
    assert("*uint32"@.len() != "timex.DateTime"@.len());
    assert("*uint32"@[1] != "*string"@[1]);
    assert("*uint32"@.len() != "*bool"@.len());
    assert("*uint32"@.len() != "*int"@.len());
    assert("*uint32"@.len() != "*int32"@.len());
    assert("*uint32"@.len() != "*int64"@.len());
    assert("*uint32"@.len() != "*uint"@.len());
    assert("*uint64"@.len() != "string"@.len());
    assert("*uint64"@.len() != "bool"@.len());
    assert("*uint64"@.len() != "int"@.len());
    assert("*uint64"@.len() != "int32"@.len());
    assert("*uint64"@.len() != "int64"@.len());
    assert("*uint64"@.len() != "uint"@.len());
    assert("*uint64"@.len() != "uint32"@.len());
    assert("*uint64"@.len() != "uint64"@.len());
    assert("*uint64"@.len() != "time.Time"@.len());
    assert("*uint64"@.len() != "timex.DateTime"@.len());
    assert("*uint64"@[1] != "*string"@[1]);
    assert("*uint64"@.len() != "*bool"@.len());
    assert("*uint64"@.len() != "*int"@.len());
    assert("*uint64"@.len() != "*int32"@.len());
    assert("*uint64"@.len() != "*int64"@.len());
    assert("*uint64"@.len() != "*uint"@.len());
    assert("*uint64"@[5] != "*uint32"@[5]);
    assert("*time.Time"@.len() != "string"@.len());
    assert("*time.Time"@.len() != "bool"@.len());
    assert("*time.Time"@.len() != "int"@.len());
    assert("*time.Time"@.len() != "int32"@.len());
    assert("*time.Time"@.len() != "int64"@.len());
    assert("*time.Time"@.len() != "uint"@.len());
    assert("*time.Time"@.len() != "uint32"@.len());
    assert("*time.Time"@.len() != "uint64"@.len());
    assert("*time.Time"@.len() != "time.Time"@.len());
    assert("*time.Time"@.len() != "timex.DateTime"@.len());
    assert("*time.Time"@.len() != "*string"@.len());
    assert("*time.Time"@.len() != "*bool"@.len());
    assert("*time.Time"@.len() != "*int"@.len());
    assert("*time.Time"@.len() != "*int32"@.len());
    assert("*time.Time"@.len() != "*int64"@.len());
    assert("*time.Time"@.len() != "*uint"@.len());
    assert("*time.Time"@.len() != "*uint32"@.len());
    assert("*time.Time"@.len() != "*uint64"@.len());
    assert("*timex.DateTime"@.len() != "string"@.len());
    assert("*timex.DateTime"@.len() != "bool"@.len());
    assert("*timex.DateTime"@.len() != "int"@.len());
    assert("*timex.DateTime"@.len() != "int32"@.len());
    assert("*timex.DateTime"@.len() != "int64"@.len());
    assert("*timex.DateTime"@.len() != "uint"@.len());
    assert("*timex.DateTime"@.len() != "uint32"@.len());
    assert("*timex.DateTime"@.len() != "uint64"@.len());
    assert("*timex.DateTime"@.len() != "time.Time"@.len());
    assert("*timex.DateTime"@.len() != "timex.DateTime"@.len());
    assert("*timex.DateTime"@.len() != "*string"@.len());
    assert("*timex.DateTime"@.len() != "*bool"@.len());
    assert("*timex.DateTime"@.len() != "*int"@.len());
    assert("*timex.DateTime"@.len() != "*int32"@.len());
    assert("*timex.DateTime"@.len() != "*int64"@.len());
    assert("*timex.DateTime"@.len() != "*uint"@.len());
    assert("*timex.DateTime"@.len() != "*uint32"@.len());
    assert("*timex.DateTime"@.len() != "*uint64"@.len());
    assert("*timex.DateTime"@.len() != "*time.Time"@.len());
}

/// Go integers are TypeScript numbers, and a pointer to one of the plain Go types is the
/// nullable form of the type it points to.
pub proof fn law_pointer_is_nullable_pointee(g: Seq<char>)
    requires
        is_pointee_type(g),
    ensures
        ts_type_of("*"@ + g) == "MaybeNull<"@ + ts_type_of(g) + ">"@,
        is_int_type(g) ==> ts_type_of(g) == "number"@,
        g == "bool"@ ==> ts_type_of(g) == "boolean"@,
        g == "string"@ || g == "time.Time"@ || g == "timex.DateTime"@ ==> ts_type_of(g) == "string"@,
{
    lemma_plain_and_pointer_types();
    if g == "string"@ {
        assert("*"@ + g =~= "*string"@) by {
            reveal_strlit("*");
            reveal_strlit("string");
            reveal_strlit("*string");
        }
        assert("MaybeNull<"@ + "string"@ + ">"@ =~= "MaybeNull<string>"@) by {
            reveal_strlit("MaybeNull<");
            reveal_strlit("string");
            reveal_strlit(">");
            reveal_strlit("MaybeNull<string>");
        }
    }
    if g == "bool"@ {
        assert("*"@ + g =~= "*bool"@) by {
            reveal_strlit("*");
            reveal_strlit("bool");
            reveal_strlit("*bool");
        }
        assert("MaybeNull<"@ + "boolean"@ + ">"@ =~= "MaybeNull<boolean>"@) by {
            reveal_strlit("MaybeNull<");
            reveal_strlit("boolean");
            reveal_strlit(">");
            reveal_strlit("MaybeNull<boolean>");
        }
    }
    if g == "int"@ {
        assert("*"@ + g =~= "*int"@) by {
            reveal_strlit("*");
            reveal_strlit("int");
            reveal_strlit("*int");
        }
        assert("MaybeNull<"@ + "number"@ + ">"@ =~= "MaybeNull<number>"@) by {
            reveal_strlit("MaybeNull<");
            reveal_strlit("number");
            reveal_strlit(">");
            reveal_strlit("MaybeNull<number>");
        }
    }
    if g == "int32"@ {
        assert("*"@ + g =~= "*int32"@) by {
            reveal_strlit("*");
            reveal_strlit("int32");
            reveal_strlit("*int32");
        }
        assert("MaybeNull<"@ + "number"@ + ">"@ =~= "MaybeNull<number>"@) by {
            reveal_strlit("MaybeNull<");
            reveal_strlit("number");
            reveal_strlit(">");
            reveal_strlit("MaybeNull<number>");
        }
    }
    if g == "int64"@ {
        assert("*"@ + g =~= "*int64"@) by {
            reveal_strlit("*");
            reveal_strlit("int64");
            reveal_strlit("*int64");
        }
        assert("MaybeNull<"@ + "number"@ + ">"@ =~= "MaybeNull<number>"@) by {
            reveal_strlit("MaybeNull<");
            reveal_strlit("number");
            reveal_strlit(">");
            reveal_strlit("MaybeNull<number>");
        }
    }
    if g == "uint"@ {
        assert("*"@ + g =~= "*uint"@) by {
            reveal_strlit("*");
            reveal_strlit("uint");
            reveal_strlit("*uint");
        }
        assert("MaybeNull<"@ + "number"@ + ">"@ =~= "MaybeNull<number>"@) by {
            reveal_strlit("MaybeNull<");
            reveal_strlit("number");
            reveal_strlit(">");
            reveal_strlit("MaybeNull<number>");
        }
    }
    if g == "uint32"@ {
        assert("*"@ + g =~= "*uint32"@) by {
            reveal_strlit("*");
            reveal_strlit("uint32");
            reveal_strlit("*uint32");
        }
        assert("MaybeNull<"@ + "number"@ + ">"@ =~= "MaybeNull<number>"@) by {
            reveal_strlit("MaybeNull<");
            reveal_strlit("number");
            reveal_strlit(">");
            reveal_strlit("MaybeNull<number>");
        }
    }
    if g == "uint64"@ {
        assert("*"@ + g =~= "*uint64"@) by {
            reveal_strlit("*");
            reveal_strlit("uint64");
            reveal_strlit("*uint64");
        }
        assert("MaybeNull<"@ + "number"@ + ">"@ =~= "MaybeNull<number>"@) by {
            reveal_strlit("MaybeNull<");
            reveal_strlit("number");
            reveal_strlit(">");
            reveal_strlit("MaybeNull<number>");
        }
    }
    if g == "time.Time"@ {
        assert("*"@ + g =~= "*time.Time"@) by {
            reveal_strlit("*");
            reveal_strlit("time.Time");
            reveal_strlit("*time.Time");
        }
        assert("MaybeNull<"@ + "string"@ + ">"@ =~= "MaybeNull<string>"@) by {
            reveal_strlit("MaybeNull<");
            reveal_strlit("string");
            reveal_strlit(">");
            reveal_strlit("MaybeNull<string>");
        }
    }
    if g == "timex.DateTime"@ {
        assert("*"@ + g =~= "*timex.DateTime"@) by {
            reveal_strlit("*");
            reveal_strlit("timex.DateTime");
            reveal_strlit("*timex.DateTime");
        }
        assert("MaybeNull<"@ + "string"@ + ">"@ =~= "MaybeNull<string>"@) by {
            reveal_strlit("MaybeNull<");
            reveal_strlit("string");
            reveal_strlit(">");
            reveal_strlit("MaybeNull<string>");
        }
    }
}

} // verus!
