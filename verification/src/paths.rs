//! Unix path arithmetic over character sequences, following `std::path`:
//! components split at `/`, empty and `.` segments dropped, `..` kept.
use vstd::prelude::*;

use crate::text::{chars_eq, find_last, occurs_at, rows, slice_chars, split_char, split_on};

verus! {

pub open spec fn dot_dot() -> Seq<char> {
    seq!['.', '.']
}

/// A segment that `Path::components` reports as a component of its own.
pub open spec fn is_component(c: Seq<char>) -> bool {
    c.len() > 0 && c != seq!['.']
}

pub open spec fn keep_components(segs: Seq<Seq<char>>) -> Seq<Seq<char>>
    decreases segs.len(),
{
    if segs.len() == 0 {
        Seq::<Seq<char>>::empty()
    } else {
        let prev = keep_components(segs.drop_last());
        if is_component(segs.last()) {
            prev.push(segs.last())
        } else {
            prev
        }
    }
}

/// The named components of a path (the root and a leading `.` are not listed).
pub open spec fn components(path: Seq<char>) -> Seq<Seq<char>> {
    keep_components(split_on(path, '/'))
}

/// `Path::file_name`: the last component unless it is `..`.
pub open spec fn file_name(path: Seq<char>) -> Option<Seq<char>> {
    let cs = components(path);
    if cs.len() == 0 || cs.last() == dot_dot() {
        None
    } else {
        Some(cs.last())
    }
}

/// Index of the last `.` in `name`, if any.
pub open spec fn last_dot(name: Seq<char>, i: int) -> bool {
    0 <= i < name.len() && name[i] == '.' && forall|j: int| i < j < name.len() ==> name[j] != '.'
}

/// The stem of a file name: the name without its last extension (`Path::file_stem`).
pub open spec fn stem_of(name: Seq<char>) -> Seq<char> {
    if exists|i: int| last_dot(name, i) {
        let i = choose|i: int| last_dot(name, i);
        if i == 0 {
            name
        } else {
            name.take(i)
        }
    } else {
        name
    }
}

pub open spec fn file_stem(path: Seq<char>) -> Option<Seq<char>> {
    match file_name(path) {
        Some(name) => Some(stem_of(name)),
        None => None,
    }
}

proof fn lemma_kept_components_free(segs: Seq<Seq<char>>)
    requires
        forall|k: int| 0 <= k < segs.len() ==> crate::text::free_of(#[trigger] segs[k], '/'),
    ensures
        forall|k: int| 0 <= k < keep_components(segs).len() ==> crate::text::free_of(
            #[trigger] keep_components(segs)[k],
            '/',
        ),
    decreases segs.len(),
{
    if segs.len() > 0 {
        let init = segs.drop_last();
        assert forall|k: int| 0 <= k < init.len() implies crate::text::free_of(#[trigger] init[k], '/') by {
            assert(init[k] == segs[k]);
        }
        lemma_kept_components_free(init);
        assert(crate::text::free_of(segs[segs.len() - 1], '/'));
        let prev = keep_components(init);
        assert forall|k: int| 0 <= k < keep_components(segs).len() implies crate::text::free_of(
            #[trigger] keep_components(segs)[k],
            '/',
        ) by {
            if k < prev.len() {
                assert(keep_components(segs)[k] == prev[k]);
            }
        }
    }
}

/// No component of a path, and not its file stem, holds `/`.
pub proof fn lemma_components_free_of_slash(path: Seq<char>)
    ensures
        forall|k: int| 0 <= k < components(path).len() ==> crate::text::free_of(
            #[trigger] components(path)[k],
            '/',
        ),
        match file_stem(path) {
            Some(stem) => crate::text::free_of(stem, '/'),
            None => true,
        },
{
    crate::text::lemma_split_pieces_free(path, '/');
    lemma_kept_components_free(split_on(path, '/'));
    let cs = components(path);
    if cs.len() > 0 {
        let name = cs.last();
        assert(crate::text::free_of(cs[cs.len() - 1], '/'));
        if exists|i: int| last_dot(name, i) {
            let i = choose|i: int| last_dot(name, i);
            if i != 0 {
                assert forall|j: int| 0 <= j < name.take(i).len() implies name.take(i)[j] != '/' by {
                    assert(name.take(i)[j] == name[j]);
                }
            }
        }
    }
}

/// The components of `path`.
pub fn path_components(path: &[char]) -> (out: Vec<Vec<char>>)
    ensures
        rows(out@) == components(path@),
{
    let segs = split_char(path, '/');
    let mut out: Vec<Vec<char>> = Vec::new();
    let mut i: usize = 0;
    while i < segs.len()
        invariant
            i <= segs.len(),
            rows(segs@) == split_on(path@, '/'),
            rows(out@) == keep_components(rows(segs@).take(i as int)),
        decreases segs.len() - i,
    {
        let ghost prev = rows(out@);
        let seg = &segs[i];
        proof {
            assert(rows(segs@).take((i + 1) as int).drop_last() =~= rows(segs@).take(i as int));
            assert(rows(segs@)[i as int] == seg@);
        }
        let dot: [char; 1] = ['.'];
        let keep = seg.len() > 0 && !chars_eq(seg.as_slice(), &dot);
        proof {
            assert(dot@ =~= seq!['.']);
        }
        if keep {
            out.push(seg.clone());
            assert(rows(out@) =~= prev.push(seg@));
        }
        i = i + 1;
    }
    assert(rows(segs@).take(segs.len() as int) =~= rows(segs@));
    out
}

/// `Path::file_stem` computed from a name (`None` when the name is absent).
pub fn stem_chars(name: &[char]) -> (out: Vec<char>)
    ensures
        out@ == stem_of(name@),
{
    let dot: [char; 1] = ['.'];
    proof {
        assert(dot@ =~= seq!['.']);
    }
    match find_last(name, &dot) {
        Some(i) => {
            proof {
                assert(name@.subrange(i as int, i + 1)[0] == name@[i as int]);
                assert(last_dot(name@, i as int)) by {
                    assert forall|j: int| i < j < name@.len() implies name@[j] != '.' by {
                        if name@[j] == '.' {
                            assert(name@.subrange(j, j + 1) =~= dot@);
                            assert(occurs_at(name@, dot@, j));
                        }
                    }
                }
                let k = choose|k: int| last_dot(name@, k);
                assert(k == i);
            }
            if i == 0 {
                slice_chars(name, 0, name.len())
            } else {
                slice_chars(name, 0, i)
            }
        },
        None => {
            proof {
                assert forall|k: int| !last_dot(name@, k) by {
                    if last_dot(name@, k) {
                        assert(name@.subrange(k, k + 1) =~= dot@);
                        assert(occurs_at(name@, dot@, k));
                    }
                }
            }
            slice_chars(name, 0, name.len())
        },
    }
}

/// `Path::file_name` of `path`, with its components.
pub fn file_name_chars(cs: &Vec<Vec<char>>) -> (out: Option<Vec<char>>)
    ensures
        match out {
            Some(n) => rows(cs@).len() > 0 && rows(cs@).last() != dot_dot() && n@ == rows(
                cs@,
            ).last(),
            None => rows(cs@).len() == 0 || rows(cs@).last() == dot_dot(),
        },
{
    if cs.len() == 0 {
        return None;
    }
    let last = &cs[cs.len() - 1];
    let dd: [char; 2] = ['.', '.'];
    proof {
        assert(dd@ =~= dot_dot());
    }
    if chars_eq(last.as_slice(), &dd) {
        None
    } else {
        Some(last.clone())
    }
}

/// `Path::join` on Unix: an absolute `part` replaces `base`; otherwise `part`
/// is appended, with a `/` between them unless `base` is empty or already ends in one.
pub open spec fn join_path(base: Seq<char>, part: Seq<char>) -> Seq<char> {
    if part.len() > 0 && part[0] == '/' {
        part
    } else if base.len() == 0 || base.last() == '/' {
        base + part
    } else {
        base + seq!['/'] + part
    }
}

/// Joins `part` onto `base` (`Path::join`).
pub fn join_path_str(base: &str, part: &str) -> (out: String)
    ensures
        out@ == join_path(base@, part@),
{
    let b = crate::text::chars_of(base);
    let p = crate::text::chars_of(part);
    if p.len() > 0 && p[0] == '/' {
        return crate::text::owned(part);
    }
    let mut out = b.clone();
    if b.len() > 0 && b[b.len() - 1] != '/' {
        out.push('/');
    }
    crate::text::push_all(&mut out, p.as_slice());
    proof {
        if b.len() > 0 && b@.last() != '/' {
            assert(b@ + seq!['/'] =~= b@.push('/'));
        }
    }
    crate::text::string_from_chars(out.as_slice())
}

} // verus!
