//! The title a conversation takes from its first message: the words of the message, single
//! spaced, cut to eighteen characters.
use vstd::prelude::*;
use crate::text::{is_ws, is_whitespace, join, views, chars_of, join_with, string_of, push_str};

verus! {

/// The maximal runs of non-`White_Space` characters of `s`, as `str::split_whitespace`.
pub open spec fn words(s: Seq<char>) -> Seq<Seq<char>>
    decreases s.len(),
{
    if s.len() == 0 {
        Seq::empty()
    } else {
        let w = words(s.drop_last());
        let c = s.last();
        if is_ws(c) {
            w
        } else if s.len() >= 2 && !is_ws(s[s.len() - 2]) {
            w.drop_last().push(w.last().push(c))
        } else {
            w.push(seq![c])
        }
    }
}

/// Title for a conversation whose first message is `content`.
pub open spec fn conversation_title(content: Seq<char>) -> Seq<char> {
    let t = join(words(content), " "@);
    if t.len() == 0 {
        "新对话"@
    } else if t.len() > 18 {
        t.take(18) + "..."@
    } else {
        t
    }
}

fn split_words(s: &[char]) -> (r: Vec<Vec<char>>)
    ensures
        views(r@) == words(s@),
{
    let mut r: Vec<Vec<char>> = Vec::new();
    let mut cur: Vec<char> = Vec::new();
    let mut in_word: bool = false;
    let mut i: usize = 0;
    assert(s@.take(0) =~= Seq::<char>::empty());
    assert(views(r@) =~= Seq::<Seq<char>>::empty());
    while i < s.len()
        invariant
            i <= s@.len(),
            in_word == (i > 0 && !is_ws(s@[i - 1])),
            in_word ==> words(s@.take(i as int)).len() > 0 && views(r@) == words(s@.take(i as int)).drop_last()
                && cur@ == words(s@.take(i as int)).last(),
            !in_word ==> views(r@) == words(s@.take(i as int)),
        decreases s@.len() - i,
    {
        let c = s[i];
        let ghost p = s@.take(i + 1);
        assert(p.drop_last() =~= s@.take(i as int));
        assert(p.last() == c);
        if is_whitespace(c) {
            if in_word {
                let ghost before = views(r@);
                r.push(cur);
                cur = Vec::new();
                assert(views(r@) =~= before.push(words(s@.take(i as int)).last()));
                assert(views(r@) =~= words(s@.take(i as int)));
            }
            in_word = false;
        } else {
            if in_word {
                assert(p[p.len() - 2] == s@[i - 1]);
                cur.push(c);
                assert(words(p) =~= words(s@.take(i as int)).drop_last().push(words(s@.take(i as int)).last().push(c)));
            } else {
                if i > 0 {
                    assert(p[p.len() - 2] == s@[i - 1]);
                }
                cur = Vec::new();
                cur.push(c);
                assert(cur@ =~= seq![c]);
                assert(words(p) =~= words(s@.take(i as int)).push(seq![c]));
                assert(views(r@) =~= words(p).drop_last());
            }
            in_word = true;
        }
        i += 1;
    }
    assert(s@.take(s@.len() as int) =~= s@);
    if in_word {
        let ghost before = views(r@);
        r.push(cur);
        assert(views(r@) =~= before.push(words(s@).last()));
        assert(views(r@) =~= words(s@));
    }
    r
}

/// Builds the title for a conversation from the text of its first message.
pub fn build_conversation_title(content: &str) -> (r: String)
    ensures
        r@ == conversation_title(content@),
{
    let c = chars_of(content);
    let w = split_words(c.as_slice());
    let t = join_with(w.as_slice(), " ");
    if t.len() == 0 {
        return String::from_str("新对话");
    }
    if t.len() > 18 {
        let mut out = crate::text::slice_of(t.as_slice(), 0, 18);
        push_str(&mut out, "...");
        assert(t@.subrange(0, 18) =~= t@.take(18));
        return string_of(out.as_slice());
    }
    string_of(t.as_slice())
}

} // verus!
