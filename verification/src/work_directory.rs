//! Confinement of agent file access to a work directory (Unix-style `/` paths).
use vstd::prelude::*;
use crate::text::{chars_of, trimmed, trim, split, split_char, views, eq_str, join, join_with, push_all, string_of, copy_chars};

verus! {

/// Effect of one `/`-separated piece on a stack of directory names: empty pieces and `.`
/// change nothing, `..` leaves the last name (never above the root), a name is entered.
pub open spec fn step(acc: Seq<Seq<char>>, piece: Seq<char>) -> Seq<Seq<char>> {
    if piece.len() == 0 || piece == "."@ {
        acc
    } else if piece == ".."@ {
        if acc.len() > 0 {
            acc.drop_last()
        } else {
            acc
        }
    } else {
        acc.push(piece)
    }
}

/// Directory names reached from `base` by walking `pieces` in order.
pub open spec fn resolve(base: Seq<Seq<char>>, pieces: Seq<Seq<char>>) -> Seq<Seq<char>>
    decreases pieces.len(),
{
    if pieces.len() == 0 {
        base
    } else {
        step(resolve(base, pieces.drop_last()), pieces.last())
    }
}

/// Names of the lexically normalised form of path `p`.
pub open spec fn normal_segments(p: Seq<char>) -> Seq<Seq<char>> {
    resolve(Seq::empty(), split_char(p, '/'))
}

/// Text of an absolute path made of `segs`.
pub open spec fn render(segs: Seq<Seq<char>>) -> Seq<char> {
    "/"@ + join(segs, "/"@)
}

pub open spec fn is_absolute(p: Seq<char>) -> bool {
    p.len() > 0 && p[0] == '/'
}

/// `a` is a component-wise prefix of `b`, as `Path::starts_with`.
pub open spec fn segments_prefix(a: Seq<Seq<char>>, b: Seq<Seq<char>>) -> bool {
    a.len() <= b.len() && b.take(a.len() as int) == a
}

/// Result of walking `pieces` from `base`.
fn walk(base: Vec<Vec<char>>, pieces: &Vec<Vec<char>>) -> (r: Vec<Vec<char>>)
    ensures
        views(r@) == resolve(views(base@), views(pieces@)),
{
    let mut acc = base;
    let ghost b = views(acc@);
    for i in 0..pieces.len()
        invariant
            views(acc@) == resolve(b, views(pieces@).take(i as int)),
    {
        let ghost before = views(acc@);
        let p = &pieces[i];
        assert(views(pieces@).take(i + 1).drop_last() =~= views(pieces@).take(i as int));
        assert(views(pieces@).take(i + 1).last() == p@);
        if p.len() == 0 || eq_str(p.as_slice(), ".") {
        } else if eq_str(p.as_slice(), "..") {
            if acc.len() > 0 {
                acc.pop();
                assert(views(acc@) =~= before.drop_last());
            }
        } else {
            acc.push(copy_chars(p));
            assert(views(acc@) =~= before.push(p@));
        }
    }
    assert(views(pieces@).take(pieces@.len() as int) =~= views(pieces@));
    acc
}

fn render_exec(segs: &Vec<Vec<char>>) -> (r: Vec<char>)
    ensures
        r@ == render(views(segs@)),
{
    let mut out = chars_of("/");
    let body = join_with(segs.as_slice(), "/");
    push_all(&mut out, body.as_slice());
    out
}

/// Normalised names of an absolute path.
fn normalize_segments(p: &[char]) -> (r: Vec<Vec<char>>)
    ensures
        views(r@) == normal_segments(p@),
{
    let pieces = split(p, '/');
    let empty: Vec<Vec<char>> = Vec::new();
    assert(views(empty@) =~= Seq::<Seq<char>>::empty());
    walk(empty, &pieces)
}

/// Checks that the work directory is an absolute path and normalises it.
pub fn normalize_work_directory(work_directory: &str) -> (r: Result<String, String>)
    ensures
        trim(work_directory@).len() == 0 ==> r is Err && r->Err_0@ == "work_directory 不能为空"@,
        trim(work_directory@).len() > 0 && !is_absolute(trim(work_directory@)) ==> r is Err
            && r->Err_0@ == "work_directory 必须是绝对路径"@,
        is_absolute(trim(work_directory@)) ==> r is Ok && r->Ok_0@ == render(
            normal_segments(trim(work_directory@)),
        ),
{
    match root_segments(work_directory) {
        Ok(segs) => Ok(string_of(render_exec(&segs).as_slice())),
        Err(e) => Err(e),
    }
}

fn root_segments(work_directory: &str) -> (r: Result<Vec<Vec<char>>, String>)
    ensures
        trim(work_directory@).len() == 0 ==> r is Err && r->Err_0@ == "work_directory 不能为空"@,
        trim(work_directory@).len() > 0 && !is_absolute(trim(work_directory@)) ==> r is Err
            && r->Err_0@ == "work_directory 必须是绝对路径"@,
        is_absolute(trim(work_directory@)) ==> r is Ok && views(r->Ok_0@) == normal_segments(
            trim(work_directory@),
        ),
{
    let w = chars_of(work_directory);
    let t = trimmed(w.as_slice());
    if t.len() == 0 {
        return Err(String::from_str("work_directory 不能为空"));
    }
    if t[0] != '/' {
        return Err(String::from_str("work_directory 必须是绝对路径"));
    }
    Ok(normalize_segments(t.as_slice()))
}

/// Names of the path that `requested` denotes inside `root`.
pub open spec fn candidate_segments(root: Seq<Seq<char>>, requested: Seq<char>) -> Seq<Seq<char>> {
    if requested.len() == 0 {
        root
    } else if is_absolute(requested) {
        normal_segments(requested)
    } else {
        resolve(root, split_char(requested, '/'))
    }
}

/// Resolves `requested_path` against the work directory and accepts it only when it stays
/// inside; the accepted path is returned normalised.
pub fn assert_path_within_work_directory(work_directory: &str, requested_path: &str) -> (r: Result<
    String,
    String,
>)
    ensures
        !is_absolute(trim(work_directory@)) ==> r is Err,
        is_absolute(trim(work_directory@)) ==> {
            let root = normal_segments(trim(work_directory@));
            let cand = candidate_segments(root, requested_path@);
            &&& segments_prefix(root, cand) ==> r is Ok && r->Ok_0@ == render(cand)
            &&& !segments_prefix(root, cand) ==> r is Err && r->Err_0@ == "路径超出工作目录边界: "@
                + requested_path@
        },
{
    let root = match root_segments(work_directory) {
        Ok(s) => s,
        Err(e) => return Err(e),
    };
    let req = chars_of(requested_path);
    let cand = if req.len() == 0 {
        copy_segments(&root)
    } else if req[0] == '/' {
        normalize_segments(req.as_slice())
    } else {
        let pieces = split(req.as_slice(), '/');
        walk(copy_segments(&root), &pieces)
    };
    if segments_start_with(&cand, &root) {
        Ok(string_of(render_exec(&cand).as_slice()))
    } else {
        let mut e = chars_of("路径超出工作目录边界: ");
        push_all(&mut e, req.as_slice());
        Err(string_of(e.as_slice()))
    }
}

fn copy_segments(v: &Vec<Vec<char>>) -> (r: Vec<Vec<char>>)
    ensures
        views(r@) == views(v@),
{
    let mut r: Vec<Vec<char>> = Vec::new();
    for i in 0..v.len()
        invariant
            r@.len() == i,
            forall|j: int| 0 <= j < i ==> #[trigger] r@[j]@ == v@[j]@,
    {
        r.push(copy_chars(&v[i]));
    }
    assert(views(r@) =~= views(v@));
    r
}

/// Component-wise prefix test.
fn segments_start_with(b: &Vec<Vec<char>>, a: &Vec<Vec<char>>) -> (r: bool)
    ensures
        r == segments_prefix(views(a@), views(b@)),
{
    if a.len() > b.len() {
        return false;
    }
    let mut i: usize = 0;
    while i < a.len()
        invariant
            a@.len() <= b@.len(),
            i <= a@.len(),
            forall|j: int| 0 <= j < i ==> views(b@)[j] == views(a@)[j],
        decreases a@.len() - i,
    {
        if !crate::text::seq_eq(b[i].as_slice(), a[i].as_slice()) {
            assert(views(b@).take(a@.len() as int)[i as int] == views(b@)[i as int]);
            return false;
        }
        i += 1;
    }
    assert(views(b@).take(a@.len() as int) =~= views(a@));
    true
}

} // verus!
