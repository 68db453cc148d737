//! Path arithmetic on `/`-separated paths, as `std::path` performs it on
//! Unix: components, joining, prefixes, file names and extensions.
use vstd::prelude::*;

use crate::text::{chars_eq, chars_of, push_all, split_chars, split_on, views};

verus! {

/// The normal components among `/`-separated pieces: non-empty and not
/// `.` (what `Path::components` keeps besides `..` and the root).
pub open spec fn kept(ps: Seq<Seq<char>>) -> Seq<Seq<char>>
    decreases ps.len(),
{
    if ps.len() == 0 {
        seq![]
    } else {
        let r = kept(ps.drop_last());
        let p = ps.last();
        if p.len() > 0 && p != "."@ {
            r.push(p)
        } else {
            r
        }
    }
}

/// The components of a path.
pub open spec fn components(path: Seq<char>) -> Seq<Seq<char>> {
    kept(split_on(path, '/'))
}

/// `ps` joined with `sep` between consecutive elements.
pub open spec fn join(ps: Seq<Seq<char>>, sep: char) -> Seq<char>
    decreases ps.len(),
{
    if ps.len() == 0 {
        seq![]
    } else if ps.len() == 1 {
        ps[0]
    } else {
        join(ps.drop_last(), sep) + seq![sep] + ps.last()
    }
}

/// `Path::join` on Unix: an absolute `p` replaces `base`; otherwise a
/// separator is inserted unless `base` is empty or already ends in one.
pub open spec fn join_path(base: Seq<char>, p: Seq<char>) -> Seq<char> {
    if p.len() > 0 && p[0] == '/' {
        p
    } else if base.len() > 0 && base.last() != '/' {
        base + seq!['/'] + p
    } else {
        base + p
    }
}

/// `base` joined with `p`.
pub fn join_path_chars(base: &[char], p: &[char]) -> (r: Vec<char>)
    ensures
        r@ == join_path(base@, p@),
{
    let mut r: Vec<char> = Vec::new();
    if p.len() > 0 && p[0] == '/' {
        push_all(&mut r, p);
        assert(r@ =~= p@);
    } else {
        push_all(&mut r, base);
        if base.len() > 0 && base[base.len() - 1] != '/' {
            r.push('/');
        }
        push_all(&mut r, p);
        assert(r@ =~= join_path(base@, p@));
    }
    r
}

/// `ps` with the empty and `.` pieces dropped.
pub fn kept_chars(ps: &Vec<Vec<char>>) -> (r: Vec<Vec<char>>)
    ensures
        views(r@) == kept(views(ps@)),
{
    let mut r: Vec<Vec<char>> = Vec::new();
    let dot = chars_of(".");
    let mut i: usize = 0;
    assert(views(ps@).take(0) =~= Seq::<Seq<char>>::empty());
    assert(views(r@) =~= Seq::<Seq<char>>::empty());
    while i < ps.len()
        invariant
            i <= ps@.len(),
            dot@ == "."@,
            views(r@) == kept(views(ps@).take(i as int)),
        decreases ps.len() - i,
    {
        let p = &ps[i];
        let ghost t = views(ps@).take(i + 1);
        assert(t.drop_last() =~= views(ps@).take(i as int));
        assert(t.last() == p@);
        if p.len() > 0 && !chars_eq(p.as_slice(), dot.as_slice()) {
            let ghost before = r@;
            let c = crate::text::sub_chars(p.as_slice(), 0, p.len());
            assert(c@ =~= p@);
            r.push(c);
            assert(views(r@) =~= views(before).push(p@));
        }
        i = i + 1;
    }
    assert(views(ps@).take(ps@.len() as int) =~= views(ps@));
    r
}

/// The components of `path`.
pub fn components_chars(path: &[char]) -> (r: Vec<Vec<char>>)
    ensures
        views(r@) == components(path@),
{
    let pieces = split_chars(path, '/');
    kept_chars(&pieces)
}

/// `ps` joined with `sep`.
pub fn join_chars(ps: &Vec<Vec<char>>, sep: char) -> (r: Vec<char>)
    ensures
        r@ == join(views(ps@), sep),
{
    let mut r: Vec<char> = Vec::new();
    let mut i: usize = 0;
    assert(views(ps@).take(0) =~= Seq::<Seq<char>>::empty());
    while i < ps.len()
        invariant
            i <= ps@.len(),
            r@ == join(views(ps@).take(i as int), sep),
        decreases ps.len() - i,
    {
        let ghost t = views(ps@).take(i + 1);
        assert(t.drop_last() =~= views(ps@).take(i as int));
        assert(t.last() == ps@[i as int]@);
        if i > 0 {
            r.push(sep);
        }
        let ghost before = r@;
        push_all(&mut r, ps[i].as_slice());
        proof {
            if i == 0 {
                assert(t =~= seq![ps@[0]@]);
                assert(r@ =~= ps@[0]@);
            } else {
                assert(r@ =~= join(views(ps@).take(i as int), sep) + seq![sep] + ps@[i as int]@);
            }
        }
        i = i + 1;
    }
    assert(views(ps@).take(ps@.len() as int) =~= views(ps@));
    r
}

/// Whether some piece is `..`.
pub open spec fn has_parent(ps: Seq<Seq<char>>) -> bool {
    exists|i: int| 0 <= i < ps.len() && ps[i] == ".."@
}

/// Whether some piece is `..`.
pub fn has_parent_chars(ps: &Vec<Vec<char>>) -> (r: bool)
    ensures
        r == has_parent(views(ps@)),
{
    let dd = chars_of("..");
    let mut i: usize = 0;
    while i < ps.len()
        invariant
            i <= ps@.len(),
            dd@ == ".."@,
            forall|j: int| 0 <= j < i ==> views(ps@)[j] != ".."@,
        decreases ps.len() - i,
    {
        assert(views(ps@)[i as int] == ps@[i as int]@);
        if chars_eq(ps[i].as_slice(), dd.as_slice()) {
            return true;
        }
        i = i + 1;
    }
    false
}

/// The final component of a path, as `Path::file_name` gives it: none
/// when there are no components or the last one is `..`.
pub open spec fn file_name(path: Seq<char>) -> Option<Seq<char>> {
    let ks = components(path);
    if ks.len() == 0 || ks.last() == ".."@ {
        None
    } else {
        Some(ks.last())
    }
}

/// `Path::extension`: the text after the last `.` of the file name, when
/// the name has a `.` that is not its first character.
pub open spec fn extension(path: Seq<char>) -> Option<Seq<char>> {
    match file_name(path) {
        Some(f) => {
            let parts = split_on(f, '.');
            if parts.len() < 2 || (parts.len() == 2 && parts[0].len() == 0) {
                None
            } else {
                Some(parts.last())
            }
        },
        None => None,
    }
}

/// What `Path::parent` returns for a path: the path without its final
/// component.
pub uninterp spec fn parent_of(p: Seq<char>) -> Option<Seq<char>>;

/// The parent of `path` (`Path::parent`): `None` for the empty path (and
/// for a root), `Some` of the path without its final component otherwise.
#[verifier::external_body]
pub(crate) fn path_parent(path: &[char]) -> (r: Option<Vec<char>>)
    ensures
        match r {
            Some(v) => parent_of(path@) == Some(v@),
            None => parent_of(path@) is None,
        },
        path@.len() == 0 ==> r is None,
{
    let s: String = path.iter().collect();
    std::path::Path::new(&s).parent().map(|q| q.to_string_lossy().chars().collect())
}

/// Whether `path` names a regular file (`Path::is_file`).  The answer
/// depends on the file system, so nothing is promised about it.
#[verifier::external_body]
pub(crate) fn path_is_file(path: &[char]) -> (r: bool) {
    std::path::Path::new(&path.iter().collect::<String>()).is_file()
}

/// Whether `path` exists (`Path::exists`).  The answer depends on the
/// file system, so nothing is promised about it.
#[verifier::external_body]
pub(crate) fn path_exists_chars(path: &[char]) -> (r: bool) {
    std::path::Path::new(&path.iter().collect::<String>()).exists()
}

/// A canonical absolute path: it starts at the root and has no `..`
/// component (nor, by `components`, a `.` one).
pub open spec fn canonical_path(p: Seq<char>) -> bool {
    p.len() > 0 && p[0] == '/' && !has_parent(components(p))
}

/// The canonical absolute form of `path` (`Path::canonicalize`: absolute,
/// every intermediate component normalized and symbolic links resolved),
/// or `None` when it does not resolve.  Which path comes back depends on
/// the file system; that it is canonical is what the documentation
/// promises.
#[verifier::external_body]
pub(crate) fn canonicalize(path: &[char]) -> (r: Option<Vec<char>>)
    ensures
        r matches Some(v) ==> canonical_path(v@),
{
    std::path::Path::new(&path.iter().collect::<String>()).canonicalize().ok().map(
        |p| p.to_string_lossy().chars().collect(),
    )
}

/// `Path::starts_with` on two absolute paths: the components of `base`
/// are a prefix of those of `p`.
pub open spec fn path_starts_with(p: Seq<char>, base: Seq<char>) -> bool {
    crate::text::starts_with(components(p), components(base))
}

/// Whether the components of `base` are a prefix of those of `p`.
pub fn path_starts_with_chars(p: &[char], base: &[char]) -> (r: bool)
    ensures
        r == path_starts_with(p@, base@),
{
    let pc = components_chars(p);
    let bc = components_chars(base);
    if bc.len() > pc.len() {
        return false;
    }
    let mut i: usize = 0;
    while i < bc.len()
        invariant
            i <= bc@.len() <= pc@.len(),
            views(pc@) == components(p@),
            views(bc@) == components(base@),
            forall|j: int| 0 <= j < i ==> views(pc@)[j] == views(bc@)[j],
        decreases bc.len() - i,
    {
        assert(views(pc@)[i as int] == pc@[i as int]@);
        assert(views(bc@)[i as int] == bc@[i as int]@);
        if !chars_eq(pc[i].as_slice(), bc[i].as_slice()) {
            let ghost a = views(pc@).subrange(0, views(bc@).len() as int);
            assert(a[i as int] != views(bc@)[i as int]);
            assert(a != views(bc@));
            assert(!crate::text::starts_with(views(pc@), views(bc@)));
            return false;
        }
        i = i + 1;
    }
    assert(views(pc@).subrange(0, views(bc@).len() as int) =~= views(bc@));
    true
}

} // verus!
