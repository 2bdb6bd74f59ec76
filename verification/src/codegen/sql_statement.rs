//! Statements of an SQL script: `CREATE TABLE` and `COMMENT ON TABLE / COLUMN`.
use vstd::prelude::*;
use crate::text::{chars_of, string_of, trim, trimmed, slice_of};
use crate::codegen::sql_lexer::{split_top, split_top_level};
use crate::codegen::pattern::{
    ws_end, skip_ws, ci_at, ci_match, char_at, find_char, seek_char, name_end, skip_name, opt_char,
    skip_opt_char,
};

verus! {

/// A statement that the DDL reader understands.
#[derive(Debug, Clone, PartialEq, Eq)]
pub enum SqlStatement {
    CreateTable(String),
    CommentOnTable { table: String, comment: String },
    CommentOnColumn { table: String, column: String, comment: String },
}

/// Plain content of a statement.
pub ghost enum StatementSpec {
    CreateTable(Seq<char>),
    CommentOnTable { table: Seq<char>, comment: Seq<char> },
    CommentOnColumn { table: Seq<char>, column: Seq<char>, comment: Seq<char> },
}

impl View for SqlStatement {
    type V = StatementSpec;

    open spec fn view(&self) -> StatementSpec {
        match self {
            SqlStatement::CreateTable(s) => StatementSpec::CreateTable(s@),
            SqlStatement::CommentOnTable { table, comment } => StatementSpec::CommentOnTable {
                table: table@,
                comment: comment@,
            },
            SqlStatement::CommentOnColumn { table, column, comment } => StatementSpec::CommentOnColumn {
                table: table@,
                column: column@,
                comment: comment@,
            },
        }
    }
}

pub open spec fn statement_views(v: Seq<SqlStatement>) -> Seq<StatementSpec> {
    Seq::new(v.len(), |i: int| v[i]@)
}

/// Statements of a script: its top-level pieces between semicolons.
pub fn split_sql_statements(sql: &[char]) -> (r: Vec<Vec<char>>)
    ensures
        crate::text::views(r@) == split_top(sql@, ';'),
{
    split_top_level(sql, ';')
}

/// Column definitions of a table body: its top-level pieces between commas.
pub fn split_top_level_segments(body: &[char]) -> (r: Vec<Vec<char>>)
    ensures
        crate::text::views(r@) == split_top(body@, ','),
{
    split_top_level(body, ',')
}

/// Blanks, an optional `;` and blanks up to the end, from `i`.
pub open spec fn statement_end(s: Seq<char>, i: int) -> bool {
    let a = ws_end(s, i);
    a == s.len() || (char_at(s, a, ';') && ws_end(s, a + 1) == s.len())
}

fn statement_end_exec(s: &[char], i: usize) -> (r: bool)
    requires
        i <= s@.len(),
    ensures
        r == statement_end(s@, i as int),
{
    let a = skip_ws(s, i);
    if a == s.len() {
        return true;
    }
    s[a] == ';' && skip_ws(s, a + 1) == s.len()
}

/// Blanks, `IS` or `=`, blanks and a quoted text closing the statement, from `i`;
/// the bounds of the quoted text.
pub open spec fn quoted_tail(s: Seq<char>, i: int) -> Option<(int, int)> {
    let w = ws_end(s, i);
    let p = if ci_at(s, w, "is"@) {
        w + 2
    } else if char_at(s, w, '=') {
        w + 1
    } else {
        -1
    };
    let q = ws_end(s, p);
    let r = find_char(s, q + 1, '\'');
    if w > i && p >= 0 && char_at(s, q, '\'') && r < s.len() && statement_end(s, r + 1) {
        Some((q + 1, r))
    } else {
        None
    }
}

fn quoted_tail_exec(s: &[char], i: usize) -> (r: Option<(usize, usize)>)
    requires
        i <= s@.len(),
    ensures
        match r {
            Some((x, y)) => quoted_tail(s@, i as int) == Some((x as int, y as int)) && x <= y <= s@.len(),
            None => quoted_tail(s@, i as int) is None,
        },
{
    proof {
        reveal_strlit("is");
    }
    let w = skip_ws(s, i);
    if w == i {
        return None;
    }
    let p: usize;
    let n = s.len();
    if ci_match(s, w, "is") {
        assert(w + 2 <= n);
        p = w + 2;
    } else if w < s.len() && s[w] == '=' {
        p = w + 1;
    } else {
        return None;
    }
    let q = skip_ws(s, p);
    if !(q < s.len() && s[q] == '\'') {
        return None;
    }
    let r = seek_char(s, q + 1, '\'');
    if r == s.len() {
        return None;
    }
    if !statement_end_exec(s, r + 1) {
        return None;
    }
    Some((q + 1, r))
}

/// `COMMENT ON <kw>` and blanks at the start, with an optional backtick; the position after it.
pub open spec fn comment_on_prefix(s: Seq<char>, kw: Seq<char>) -> Option<int> {
    let a = ws_end(s, 0);
    let b = ws_end(s, a + 7);
    let c = ws_end(s, b + 2);
    let d = ws_end(s, c + kw.len());
    if ci_at(s, a, "comment"@) && b > a + 7 && ci_at(s, b, "on"@) && c > b + 2 && ci_at(s, c, kw)
        && d > c + kw.len() {
        Some(opt_char(s, d, '`'))
    } else {
        None
    }
}

fn comment_on_prefix_exec(s: &[char], kw: &str) -> (r: Option<usize>)
    ensures
        match r {
            Some(d) => comment_on_prefix(s@, kw@) == Some(d as int) && d <= s@.len(),
            None => comment_on_prefix(s@, kw@) is None,
        },
{
    proof {
        reveal_strlit("comment");
        reveal_strlit("on");
    }
    let kl = chars_of(kw).len();
    let n = s.len();
    let a = skip_ws(s, 0);
    if !ci_match(s, a, "comment") {
        return None;
    }
    assert(a + 7 <= n);
    let b = skip_ws(s, a + 7);
    if !(b > a + 7 && ci_match(s, b, "on")) {
        return None;
    }
    assert(b + 2 <= n);
    let c = skip_ws(s, b + 2);
    if !(c > b + 2 && ci_match(s, c, kw)) {
        return None;
    }
    assert(c + kl <= n);
    let d = skip_ws(s, c + kl);
    if d <= c + kl {
        return None;
    }
    Some(skip_opt_char(s, d, '`'))
}

/// `COMMENT ON TABLE name IS '<text>'`: the table name and the text.
pub open spec fn comment_on_table(s: Seq<char>) -> Option<(Seq<char>, Seq<char>)> {
    match comment_on_prefix(s, "table"@) {
        Some(d) => {
            let e = name_end(s, d, true);
            match quoted_tail(s, opt_char(s, e, '`')) {
                Some((x, y)) => if e > d {
                    Some((s.subrange(d, e), s.subrange(x, y)))
                } else {
                    None
                },
                None => None,
            }
        },
        None => None,
    }
}

fn comment_on_table_exec(s: &[char]) -> (r: Option<(Vec<char>, Vec<char>)>)
    ensures
        match comment_on_table(s@) {
            Some((a, b)) => r is Some && r->Some_0.0@ == a && r->Some_0.1@ == b,
            None => r is None,
        },
{
    let d = match comment_on_prefix_exec(s, "table") {
        Some(d) => d,
        None => return None,
    };
    let e = skip_name(s, d, true);
    if e <= d {
        return None;
    }
    let e2 = skip_opt_char(s, e, '`');
    match quoted_tail_exec(s, e2) {
        Some((x, y)) => Some((slice_of(s, d, e), slice_of(s, x, y))),
        None => None,
    }
}

/// After a table name ending at `i`: optional backtick, blanks, `.`, blanks, optional
/// backtick, the column name, optional backtick and the quoted tail; the column bounds and
/// the text bounds.
pub open spec fn column_rest(s: Seq<char>, i: int) -> Option<(int, int, int, int)> {
    let j = ws_end(s, opt_char(s, i, '`'));
    let j2 = opt_char(s, ws_end(s, j + 1), '`');
    let k = name_end(s, j2, false);
    if char_at(s, j, '.') && k > j2 {
        match quoted_tail(s, opt_char(s, k, '`')) {
            Some((x, y)) => Some((j2, k, x, y)),
            None => None,
        }
    } else {
        None
    }
}

fn column_rest_exec(s: &[char], i: usize) -> (r: Option<(usize, usize, usize, usize)>)
    requires
        i <= s@.len(),
    ensures
        match r {
            Some((a, b, x, y)) => column_rest(s@, i as int) == Some((a as int, b as int, x as int, y as int))
                && a <= b <= s@.len() && x <= y <= s@.len(),
            None => column_rest(s@, i as int) is None,
        },
{
    let j = skip_ws(s, skip_opt_char(s, i, '`'));
    if !(j < s.len() && s[j] == '.') {
        return None;
    }
    let j2 = skip_opt_char(s, skip_ws(s, j + 1), '`');
    let k = skip_name(s, j2, false);
    if k <= j2 {
        return None;
    }
    match quoted_tail_exec(s, skip_opt_char(s, k, '`')) {
        Some((x, y)) => Some((j2, k, x, y)),
        None => None,
    }
}

/// Some end in `(d, e]` of the table name lets the rest of a column comment match.
pub open spec fn has_column_split(s: Seq<char>, d: int, e: int) -> bool {
    exists|m: int| d < m <= e && column_rest(s, m) is Some
}

/// The largest such end: a longer table name is tried first.
pub open spec fn last_column_split(s: Seq<char>, d: int, e: int) -> int {
    choose|m: int|
        d < m <= e && column_rest(s, m) is Some && forall|m2: int| m < m2 <= e ==> column_rest(s, m2) is None
}

/// `COMMENT ON COLUMN table.column IS '<text>'`: table, column and text.
pub open spec fn comment_on_column(s: Seq<char>) -> Option<(Seq<char>, Seq<char>, Seq<char>)> {
    match comment_on_prefix(s, "column"@) {
        Some(d) => {
            let e = name_end(s, d, true);
            if has_column_split(s, d, e) {
                let m = last_column_split(s, d, e);
                let (j2, k, x, y) = column_rest(s, m)->0;
                Some((s.subrange(d, m), s.subrange(j2, k), s.subrange(x, y)))
            } else {
                None
            }
        },
        None => None,
    }
}

fn comment_on_column_exec(s: &[char]) -> (r: Option<(Vec<char>, Vec<char>, Vec<char>)>)
    ensures
        match comment_on_column(s@) {
            Some((a, b, c)) => r is Some && r->Some_0.0@ == a && r->Some_0.1@ == b && r->Some_0.2@ == c,
            None => r is None,
        },
{
    let d = match comment_on_prefix_exec(s, "column") {
        Some(d) => d,
        None => return None,
    };
    let e = skip_name(s, d, true);
    let mut m = e;
    while m > d
        invariant
            d <= m <= e <= s@.len(),
            e == name_end(s@, d as int, true),
            comment_on_prefix(s@, "column"@) == Some(d as int),
            forall|m2: int| m < m2 <= e ==> column_rest(s@, m2) is None,
        decreases m,
    {
        match column_rest_exec(s, m) {
            Some((j2, k, x, y)) => {
                proof {
                    assert(d < m <= e && column_rest(s@, m as int) is Some && forall|m2: int|
                        m < m2 <= e ==> column_rest(s@, m2) is None);
                    let w = last_column_split(s@, d as int, e as int);
                    assert(w == m) by {
                        if w < m {
                            assert(column_rest(s@, m as int) is Some);
                        }
                        if w > m {
                            assert(column_rest(s@, w) is None);
                        }
                    }
                }
                return Some((slice_of(s, d, m), slice_of(s, j2, k), slice_of(s, x, y)));
            },
            None => {},
        }
        m -= 1;
    }
    assert(!has_column_split(s@, d as int, e as int));
    None
}

/// `CREATE TABLE` at the start, after blanks.
pub open spec fn is_create_table(s: Seq<char>) -> bool {
    let a = ws_end(s, 0);
    let b = ws_end(s, a + 6);
    ci_at(s, a, "create"@) && b > a + 6 && ci_at(s, b, "table"@)
}

fn is_create_table_exec(s: &[char]) -> (r: bool)
    ensures
        r == is_create_table(s@),
{
    proof {
        reveal_strlit("create");
    }
    let n = s.len();
    let a = skip_ws(s, 0);
    if !ci_match(s, a, "create") {
        return false;
    }
    assert(a + 6 <= n);
    let b = skip_ws(s, a + 6);
    b > a + 6 && ci_match(s, b, "table")
}

/// Kind of a statement, read after trimming it.
pub open spec fn classify(stmt: Seq<char>) -> Option<StatementSpec> {
    let t = trim(stmt);
    if is_create_table(t) {
        Some(StatementSpec::CreateTable(t))
    } else {
        match comment_on_table(t) {
            Some((table, comment)) => Some(StatementSpec::CommentOnTable { table, comment }),
            None => match comment_on_column(t) {
                Some((table, column, comment)) => Some(
                    StatementSpec::CommentOnColumn { table, column, comment },
                ),
                None => None,
            },
        }
    }
}

/// `COMMENT ON TABLE` or `COMMENT ON COLUMN`, in that order.
fn parse_comment_statement(t: &[char]) -> (r: Option<SqlStatement>)
    ensures
        match r {
            Some(st) => st@ == (match comment_on_table(t@) {
                Some((table, comment)) => StatementSpec::CommentOnTable { table, comment },
                None => StatementSpec::CommentOnColumn {
                    table: comment_on_column(t@)->Some_0.0,
                    column: comment_on_column(t@)->Some_0.1,
                    comment: comment_on_column(t@)->Some_0.2,
                },
            }) && (comment_on_table(t@) is Some || comment_on_column(t@) is Some),
            None => comment_on_table(t@) is None && comment_on_column(t@) is None,
        },
{
    if let Some((table, comment)) = comment_on_table_exec(t) {
        return Some(
            SqlStatement::CommentOnTable { table: string_of(table.as_slice()), comment: string_of(comment.as_slice()) },
        );
    }
    match comment_on_column_exec(t) {
        Some((table, column, comment)) => Some(
            SqlStatement::CommentOnColumn {
                table: string_of(table.as_slice()),
                column: string_of(column.as_slice()),
                comment: string_of(comment.as_slice()),
            },
        ),
        None => None,
    }
}

/// Kind of a statement: a `CREATE TABLE`, a `COMMENT ON`, or nothing the reader uses.
pub fn classify_statement(stmt: &[char]) -> (r: Option<SqlStatement>)
    ensures
        match classify(stmt@) {
            Some(c) => r is Some && r->0@ == c,
            None => r is None,
        },
{
    let tv = trimmed(stmt);
    let t = tv.as_slice();
    if is_create_table_exec(t) {
        return Some(SqlStatement::CreateTable(string_of(t)));
    }
    parse_comment_statement(t)
}

} // verus!
