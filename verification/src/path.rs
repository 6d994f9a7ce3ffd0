//! Paths as `Path::components` sees them on Unix: repeated `/` collapse, `.` is dropped except
//! at the start of a relative path, and a trailing `/` changes nothing.

use vstd::prelude::*;
use crate::text::{copy_range, first_from, first_index, same_chars, to_chars};

verus! {

/// A segment between separators becomes a component unless it is empty, or a `.` that does
/// not open a relative path.
pub open spec fn keep_segment(seg: Seq<char>, first: bool) -> bool {
    seg.len() > 0 && !(seg == seq!['.'] && !first)
}

pub proof fn lemma_first_from(s: Seq<char>, c: char, i: int)
    requires
        0 <= i <= s.len(),
    ensures
        i <= first_from(s, c, i) <= s.len(),
        first_from(s, c, i) < s.len() ==> s[first_from(s, c, i)] == c,
        forall|j: int| i <= j < first_from(s, c, i) ==> s[j] != c,
    decreases s.len() - i,
{
    if i < s.len() && s[i] != c {
        lemma_first_from(s, c, i + 1);
    }
}

/// The components found from position `i` on.
pub open spec fn segments_from(s: Seq<char>, i: int, first: bool) -> Seq<Seq<char>>
    decreases s.len() - i,
{
    if i < 0 || i > s.len() {
        seq![]
    } else {
        let k = first_from(s, '/', i);
        proof {
            lemma_first_from(s, '/', i);
        }
        let seg = s.subrange(i, k);
        let head = if keep_segment(seg, first) {
            seq![seg]
        } else {
            Seq::empty()
        };
        if k < s.len() {
            head + segments_from(s, k + 1, false)
        } else {
            head
        }
    }
}

/// The components of a path, each as its text: `/` for the root, `.`, `..` or a name.
pub open spec fn components(s: Seq<char>) -> Seq<Seq<char>> {
    let root: Seq<Seq<char>> = if s.len() > 0 && s[0] == '/' {
        seq![seq!['/']]
    } else {
        Seq::empty()
    };
    root + segments_from(s, 0, true)
}

/// A component that names a file or folder (not the root, `.` or `..`).
pub open spec fn is_name(c: Seq<char>) -> bool {
    c != seq!['/'] && c != seq!['.'] && c != seq!['.', '.']
}

/// `Path::parent(path) == Some(dir)`: the path minus its last component is `dir`.
pub open spec fn parent_is(path: Seq<char>, dir: Seq<char>) -> bool {
    let c = components(path);
    c.len() > 0 && c.last() != seq!['/'] && c.drop_last() =~= components(dir)
}

/// `Path::file_name`: the last component, when it is a name.
pub open spec fn file_name(path: Seq<char>) -> Option<Seq<char>> {
    let c = components(path);
    if c.len() > 0 && is_name(c.last()) {
        Some(c.last())
    } else {
        None
    }
}

pub open spec fn views(v: Seq<Vec<char>>) -> Seq<Seq<char>> {
    v.map_values(|x: Vec<char>| x@)
}

/// The components of `path`.
pub fn components_of(path: &str) -> (r: Vec<Vec<char>>)
    ensures
        views(r@) == components(path@),
{
    let s = to_chars(path);
    let mut out: Vec<Vec<char>> = Vec::new();
    if s.len() > 0 && s[0] == '/' {
        let mut root: Vec<char> = Vec::new();
        root.push('/');
        out.push(root);
        assert(views(out@) =~= seq![seq!['/']]);
    }
    assert(views(out@) + segments_from(s@, 0, true) == components(s@));
    let mut i: usize = 0;
    let mut first = true;
    loop
        invariant_except_break
            i <= s.len(),
            views(out@) + segments_from(s@, i as int, first) == components(s@),
        invariant
            s@ == path@,
        ensures
            views(out@) == components(s@),
        decreases s.len() - i,
    {
        let k = first_index(&s, '/', i);
        proof {
            lemma_first_from(s@, '/', i as int);
        }
        let seg = copy_range(&s, i, k);
        let keep = seg.len() > 0 && !(seg.len() == 1 && seg[0] == '.' && !first);
        assert(keep == keep_segment(seg@, first)) by {
            if seg@.len() == 1 && seg@[0] == '.' {
                assert(seg@ =~= seq!['.']);
            }
        }
        let ghost before = views(out@);
        if keep {
            out.push(seg);
        }
        let ghost head: Seq<Seq<char>> = if keep { seq![seg@] } else { Seq::empty() };
        assert(views(out@) =~= before + head);
        if k == s.len() {
            assert(segments_from(s@, i as int, first) == head);
            break;
        }
        assert(segments_from(s@, i as int, first) == head + segments_from(s@, k + 1, false));
        assert(before + (head + segments_from(s@, k + 1, false)) =~= (before + head)
            + segments_from(s@, k + 1, false));
        i = k + 1;
        first = false;
    }
    out
}

/// `parent_is` decided from the components of the path and of the folder.
pub fn parent_matches(path: &Vec<Vec<char>>, dir: &Vec<Vec<char>>) -> (r: bool)
    ensures
        r == (views(path@).len() > 0 && views(path@).last() != seq!['/'] && views(path@).drop_last()
            =~= views(dir@)),
{
    let n = path.len();
    if n == 0 {
        return false;
    }
    let last = &path[n - 1];
    if last.len() == 1 && last[0] == '/' {
        assert(views(path@).last() =~= seq!['/']);
        return false;
    }
    assert(views(path@).last() != seq!['/']) by {
        if views(path@).last() == seq!['/'] {
            assert(last@ == seq!['/']);
        }
    }
    if n - 1 != dir.len() {
        assert(views(path@).drop_last().len() != views(dir@).len());
        return false;
    }
    let mut i: usize = 0;
    while i < n - 1
        invariant
            n == path.len(),
            n - 1 == dir.len(),
            i <= n - 1,
            forall|j: int| 0 <= j < i ==> path@[j]@ == dir@[j]@,
        decreases n - 1 - i,
    {
        if !same_chars(&path[i], &dir[i]) {
            assert(views(path@).drop_last()[i as int] != views(dir@)[i as int]);
            return false;
        }
        i = i + 1;
    }
    assert(views(path@).drop_last() =~= views(dir@));
    true
}

/// The last component, when it is a name.
pub fn name_of(path: &Vec<Vec<char>>) -> (r: Option<&Vec<char>>)
    ensures
        r matches Some(v) ==> views(path@).len() > 0 && is_name(views(path@).last()) && v@
            == views(path@).last(),
        r is None ==> !(views(path@).len() > 0 && is_name(views(path@).last())),
{
    let n = path.len();
    if n == 0 {
        return None;
    }
    let last = &path[n - 1];
    let special = (last.len() == 1 && (last[0] == '/' || last[0] == '.')) || (last.len() == 2
        && last[0] == '.' && last[1] == '.');
    assert(special == !is_name(last@)) by {
        if last@.len() == 1 {
            assert(last@ == seq![last@[0]]);
        }
        if last@.len() == 2 {
            assert(last@ == seq![last@[0], last@[1]]);
        }
    }
    if special {
        None
    } else {
        Some(last)
    }
}

} // verus!

verus! {

/// `Path::join` on Unix: an absolute `part` replaces `base`; otherwise `part` follows `base`,
/// with a `/` between them unless `base` is empty or already ends in `/`.
pub open spec fn join_path(base: Seq<char>, part: Seq<char>) -> Seq<char> {
    if part.len() > 0 && part[0] == '/' {
        part
    } else if base.len() > 0 && base.last() != '/' {
        base + seq!['/'] + part
    } else {
        base + part
    }
}

/// `base` joined with `part`.
pub fn join(base: &str, part: &str) -> (r: String)
    ensures
        r@ == join_path(base@, part@),
{
    let b = to_chars(base);
    let p = to_chars(part);
    if p.len() > 0 && p[0] == '/' {
        return String::from_str(part);
    }
    let mut r = String::from_str(base);
    if b.len() > 0 && b[b.len() - 1] != '/' {
        crate::text::push_char(&mut r, '/');
    }
    r.append(part);
    r
}

} // verus!
