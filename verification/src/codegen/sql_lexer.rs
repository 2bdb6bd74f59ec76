//! Quote- and parenthesis-aware scanning of SQL text.
use vstd::prelude::*;
use crate::text::{trim, trimmed, views};

verus! {

/// Lexical mode of the scanner.
#[derive(Debug, Clone, Copy, PartialEq, Eq, Structural)]
pub enum Quote {
    Plain,
    Single,
    Double,
    Backtick,
}

/// Mode and depth after reading `ch`, where `prev` is the character read before it.
pub open spec fn next_state(mode: Quote, depth: nat, prev: char, ch: char) -> (Quote, nat) {
    match mode {
        Quote::Single => if ch == '\'' && prev != '\\' { (Quote::Plain, depth) } else { (mode, depth) },
        Quote::Double => if ch == '"' && prev != '\\' { (Quote::Plain, depth) } else { (mode, depth) },
        Quote::Backtick => if ch == '`' { (Quote::Plain, depth) } else { (mode, depth) },
        Quote::Plain => if ch == '\'' {
            (Quote::Single, depth)
        } else if ch == '"' {
            (Quote::Double, depth)
        } else if ch == '`' {
            (Quote::Backtick, depth)
        } else if ch == '(' {
            (Quote::Plain, depth + 1)
        } else if ch == ')' {
            (Quote::Plain, if depth > 0 { (depth - 1) as nat } else { 0 })
        } else {
            (Quote::Plain, depth)
        },
    }
}

/// The character before position `i`, or NUL at the start.
pub open spec fn prev_char(s: Seq<char>, i: int) -> char {
    if i <= 0 { '\0' } else { s[i - 1] }
}

/// Mode and depth after reading all of `s` from the plain mode at depth 0.
pub open spec fn scan(s: Seq<char>) -> (Quote, nat)
    decreases s.len(),
{
    if s.len() == 0 {
        (Quote::Plain, 0)
    } else {
        let (m, d) = scan(s.drop_last());
        next_state(m, d, prev_char(s, s.len() - 1), s.last())
    }
}

/// Pieces finished so far and the piece being read, splitting at `sep` outside quotes and
/// parentheses; finished pieces are trimmed and empty ones dropped.
pub open spec fn split_scan(s: Seq<char>, sep: char) -> (Seq<Seq<char>>, Seq<char>)
    decreases s.len(),
{
    if s.len() == 0 {
        (Seq::empty(), Seq::empty())
    } else {
        let t = s.drop_last();
        let (pieces, cur) = split_scan(t, sep);
        let (m, d) = scan(t);
        if m == Quote::Plain && s.last() == sep && d == 0 {
            (if trim(cur).len() > 0 { pieces.push(trim(cur)) } else { pieces }, Seq::empty())
        } else {
            (pieces, cur.push(s.last()))
        }
    }
}

/// Top-level pieces of `s` between separators `sep`.
pub open spec fn split_top(s: Seq<char>, sep: char) -> Seq<Seq<char>> {
    let (pieces, cur) = split_scan(s, sep);
    if trim(cur).len() > 0 { pieces.push(trim(cur)) } else { pieces }
}

pub fn step_state(mode: Quote, depth: usize, prev: char, ch: char) -> (r: (Quote, usize))
    requires
        depth < usize::MAX,
    ensures
        (r.0, r.1 as nat) == next_state(mode, depth as nat, prev, ch),
{
    match mode {
        Quote::Single => if ch == '\'' && prev != '\\' { (Quote::Plain, depth) } else { (mode, depth) },
        Quote::Double => if ch == '"' && prev != '\\' { (Quote::Plain, depth) } else { (mode, depth) },
        Quote::Backtick => if ch == '`' { (Quote::Plain, depth) } else { (mode, depth) },
        Quote::Plain => if ch == '\'' {
            (Quote::Single, depth)
        } else if ch == '"' {
            (Quote::Double, depth)
        } else if ch == '`' {
            (Quote::Backtick, depth)
        } else if ch == '(' {
            (Quote::Plain, depth + 1)
        } else if ch == ')' {
            (Quote::Plain, if depth > 0 { depth - 1 } else { 0 })
        } else {
            (Quote::Plain, depth)
        },
    }
}

pub proof fn lemma_scan_depth_bound(s: Seq<char>)
    ensures
        scan(s).1 <= s.len(),
    decreases s.len(),
{
    if s.len() > 0 {
        lemma_scan_depth_bound(s.drop_last());
    }
}

/// Splits `s` at top-level occurrences of `sep`, as the statement and column splitters do.
pub fn split_top_level(s: &[char], sep: char) -> (r: Vec<Vec<char>>)
    ensures
        views(r@) == split_top(s@, sep),
{
    let mut pieces: Vec<Vec<char>> = Vec::new();
    let mut cur: Vec<char> = Vec::new();
    let mut mode = Quote::Plain;
    let mut depth: usize = 0;
    let mut prev: char = '\0';
    for i in 0..s.len()
        invariant
            (views(pieces@), cur@) == split_scan(s@.take(i as int), sep),
            (mode, depth as nat) == scan(s@.take(i as int)),
            prev == prev_char(s@, i as int),
            depth <= i,
    {
        let ch = s[i];
        let ghost t = s@.take(i as int);
        proof {
            assert(s@.take(i + 1).drop_last() =~= t);
            assert(s@.take(i + 1).last() == ch);
            assert(prev_char(s@.take(i + 1), i as int) == prev_char(s@, i as int));
        }
        if mode == Quote::Plain && ch == sep && depth == 0 {
            let t2 = trimmed(cur.as_slice());
            if t2.len() > 0 {
                pieces.push(t2);
            }
            cur = Vec::new();
            assert(views(pieces@) =~= split_scan(s@.take(i + 1), sep).0);
        } else {
            cur.push(ch);
        }
        let (m2, d2) = step_state(mode, depth, prev, ch);
        mode = m2;
        depth = d2;
        prev = ch;
    }
    proof {
        assert(s@.take(s@.len() as int) =~= s@);
    }
    let t2 = trimmed(cur.as_slice());
    if t2.len() > 0 {
        pieces.push(t2);
    }
    assert(views(pieces@) =~= split_top(s@, sep));
    pieces
}

/// `t[k]` is the parenthesis that brings the depth opened by `t[0]` back to zero.
#[verifier::opaque]
pub open spec fn closes_at(t: Seq<char>, k: int) -> bool {
    0 <= k < t.len() && scan(t.take(k)).0 == Quote::Plain && t[k] == ')' && scan(t.take(k)).1 <= 1
}

/// Position of the parenthesis matching the one at `open`, searching from `open` on.
pub fn find_matching_paren(s: &[char], open: usize) -> (r: Option<usize>)
    requires
        open <= s@.len(),
    ensures
        match r {
            Some(j) => open <= j < s@.len() && s@[j as int] == ')' && closes_at(s@.skip(open as int), j - open) && forall|k: int|
                0 <= k < j - open ==> !closes_at(s@.skip(open as int), k),
            None => forall|k: int| !closes_at(s@.skip(open as int), k),
        },
{
    let ghost t = s@.skip(open as int);
    let mut mode = Quote::Plain;
    let mut depth: usize = 0;
    let mut prev: char = '\0';
    let mut i = open;
    while i < s.len()
        invariant
            open <= i <= s@.len(),
            t == s@.skip(open as int),
            (mode, depth as nat) == scan(t.take(i - open)),
            prev == prev_char(t, i - open),
            depth <= i - open,
            forall|k: int| 0 <= k < i - open ==> !closes_at(t, k),
        decreases s@.len() - i,
    {
        let ch = s[i];
        let ghost k = i - open;
        proof {
            reveal(closes_at);
            assert(t[k] == ch);
            assert(t.take(k + 1).drop_last() =~= t.take(k));
            assert(prev_char(t.take(k + 1), k) == prev_char(t, k));
        }
        if mode == Quote::Plain && ch == ')' && depth <= 1 {
            return Some(i);
        }
        let (m2, d2) = step_state(mode, depth, prev, ch);
        mode = m2;
        depth = d2;
        prev = ch;
        i += 1;
    }
    proof {
        reveal(closes_at);
    }
    None
}

} // verus!
