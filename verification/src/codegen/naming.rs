//! Splitting of snake-case names into segments and their capitalised spellings.
use vstd::prelude::*;
use crate::text::{split, split_char, views, copy_chars, slice_of, push_all};
use crate::unicode::{to_uppercase, unicode_upper};

verus! {

/// The non-empty pieces, in order.
pub open spec fn nonempty(pieces: Seq<Seq<char>>) -> Seq<Seq<char>>
    decreases pieces.len(),
{
    if pieces.len() == 0 {
        Seq::empty()
    } else {
        let r = nonempty(pieces.drop_last());
        if pieces.last().len() > 0 { r.push(pieces.last()) } else { r }
    }
}

/// Non-empty `_`-separated segments of a name.
pub open spec fn name_segments(v: Seq<char>) -> Seq<Seq<char>> {
    nonempty(split_char(v, '_'))
}

pub fn nonempty_exec(pieces: Vec<Vec<char>>) -> (r: Vec<Vec<char>>)
    ensures
        views(r@) == nonempty(views(pieces@)),
{
    let mut r: Vec<Vec<char>> = Vec::new();
    for i in 0..pieces.len()
        invariant
            views(r@) == nonempty(views(pieces@).take(i as int)),
    {
        assert(views(pieces@).take(i + 1).drop_last() =~= views(pieces@).take(i as int));
        if pieces[i].len() > 0 {
            r.push(copy_chars(&pieces[i]));
        }
        assert(views(r@) =~= nonempty(views(pieces@).take(i + 1)));
    }
    assert(views(pieces@).take(pieces@.len() as int) =~= views(pieces@));
    r
}

pub fn segments_of(v: &[char]) -> (r: Vec<Vec<char>>)
    ensures
        views(r@) == name_segments(v@),
{
    nonempty_exec(split(v, '_'))
}

/// First character upper-cased (Unicode), the rest kept.
pub fn capitalize(l: &[char]) -> (r: Vec<char>)
    requires
        l@.len() > 0,
    ensures
        r@ == unicode_upper(l@[0]) + l@.skip(1),
{
    let mut r = to_uppercase(l[0]);
    let rest = slice_of(l, 1, l.len());
    assert(l@.subrange(1, l@.len() as int) =~= l@.skip(1));
    push_all(&mut r, rest.as_slice());
    r
}

} // verus!
