//! Validation of requested artifact paths.
//!
//! A served path is acceptable only when it is absolute, its first
//! component is the artifact directory `zips`, and no later component is a
//! parent-directory reference, so no request can reach outside the artifact
//! directory.

use vstd::prelude::*;
use vstd::string::StrSliceExecFns;

verus! {

/// The artifact directory component.
pub open spec fn zips_seg() -> Seq<char> {
    seq!['z', 'i', 'p', 's']
}

/// The parent-directory component.
pub open spec fn parent_seg() -> Seq<char> {
    seq!['.', '.']
}

/// First position at or after `i` holding a separator (or the end).
pub open spec fn seg_end(s: Seq<char>, i: int) -> int
    decreases s.len() - i,
    when 0 <= i <= s.len()
{
    if i < s.len() && s[i] != '/' {
        seg_end(s, i + 1)
    } else {
        i
    }
}

/// First position at or after `i` holding something else than a separator
/// (or the end).
pub open spec fn seg_start(s: Seq<char>, i: int) -> int
    decreases s.len() - i,
    when 0 <= i <= s.len()
{
    if i < s.len() && s[i] == '/' {
        seg_start(s, i + 1)
    } else {
        i
    }
}

pub proof fn lemma_seg_end(s: Seq<char>, i: int)
    requires
        0 <= i <= s.len(),
    ensures
        i <= seg_end(s, i) <= s.len(),
        seg_end(s, i) < s.len() ==> s[seg_end(s, i)] == '/',
        forall|k: int| i <= k < seg_end(s, i) ==> s[k] != '/',
    decreases s.len() - i,
{
    if i < s.len() && s[i] != '/' {
        lemma_seg_end(s, i + 1);
    }
}

pub proof fn lemma_seg_start(s: Seq<char>, i: int)
    requires
        0 <= i <= s.len(),
    ensures
        i <= seg_start(s, i) <= s.len(),
        seg_start(s, i) < s.len() ==> s[seg_start(s, i)] != '/',
        forall|k: int| i <= k < seg_start(s, i) ==> s[k] == '/',
    decreases s.len() - i,
{
    if i < s.len() && s[i] == '/' {
        lemma_seg_start(s, i + 1);
    }
}

/// The components of `s` from position `i` on: maximal runs between
/// separators, with empty runs and lone-dot runs left out, as the standard
/// path normalization does.
pub open spec fn segs(s: Seq<char>, i: int) -> Seq<Seq<char>>
    decreases s.len() - i,
    when 0 <= i <= s.len()
    via segs_decreases
{
    let p = seg_start(s, i);
    if p >= s.len() {
        seq![]
    } else {
        let e = seg_end(s, p);
        let seg = s.subrange(p, e);
        if seg == seq!['.'] {
            segs(s, e)
        } else {
            seq![seg] + segs(s, e)
        }
    }
}

#[via_fn]
proof fn segs_decreases(s: Seq<char>, i: int) {
    lemma_seg_start(s, i);
    if seg_start(s, i) < s.len() {
        lemma_seg_end(s, seg_start(s, i));
    }
}

/// What the artifact server may serve: an absolute path whose first
/// component is the artifact directory and whose later components never
/// point at a parent directory.
pub open spec fn path_ok(s: Seq<char>) -> bool {
    &&& s.len() > 0
    &&& s[0] == '/'
    &&& segs(s, 0).len() >= 1
    &&& segs(s, 0)[0] == zips_seg()
    &&& forall|k: int| 1 <= k < segs(s, 0).len() ==> segs(s, 0)[k] != parent_seg()
}

/// Every component of `s` turns up in the component list: a maximal
/// non-separator run starting at `p` (right after a separator or at the
/// front) is in `segs(s, j)` for any `j` at or before it, unless it is the
/// lone dot that normalization drops.
proof fn lemma_segs_contains(s: Seq<char>, j: int, p: int)
    requires
        0 <= j <= p < s.len(),
        s[p] != '/',
        p == 0 || s[p - 1] == '/',
    ensures
        s.subrange(p, seg_end(s, p)) != seq!['.'] ==> segs(s, j).contains(
            s.subrange(p, seg_end(s, p)),
        ),
    decreases p - j,
{
    lemma_seg_start(s, j);
    let p2 = seg_start(s, j);
    assert(p2 <= p) by {
        if p2 > p {
            assert(s[p] == '/');
        }
    }
    lemma_seg_end(s, p2);
    let e2 = seg_end(s, p2);
    let seg = s.subrange(p, seg_end(s, p));
    if p2 == p {
        if seg != seq!['.'] {
            assert(segs(s, j) == seq![seg] + segs(s, e2));
            assert(segs(s, j)[0] == seg);
            assert(segs(s, j).contains(seg));
        }
    } else {
        assert(p >= 1 && s[p - 1] == '/');
        assert(e2 <= p - 1) by {
            if e2 > p - 1 {
                assert(p2 <= p - 1 < e2);
                assert(s[p - 1] != '/');
            }
        }
        assert(e2 >= p2 + 1) by {
            assert(s[p2] != '/');
            assert(seg_end(s, p2) == seg_end(s, p2 + 1));
            lemma_seg_end(s, p2 + 1);
        }
        lemma_segs_contains(s, e2, p);
        if seg != seq!['.'] {
            let rest = segs(s, e2);
            let k = choose|k: int| 0 <= k < rest.len() && rest[k] == seg;
            let seg2 = s.subrange(p2, e2);
            if seg2 == seq!['.'] {
                assert(segs(s, j) == rest);
            } else {
                assert(segs(s, j) == seq![seg2] + rest);
                assert(segs(s, j)[1 + k] == seg);
            }
            assert(segs(s, j).contains(seg));
        }
    }
}

/// A parent-directory step embedded anywhere in the string defeats the
/// guard: its component is in the list, and the list admits `..` nowhere —
/// not first (the artifact directory stands there) and not later.
proof fn lemma_parent_step_rejects(s: Seq<char>, i: int)
    requires
        0 <= i,
        i + 3 <= s.len(),
        s[i] == '/',
        s[i + 1] == '.',
        s[i + 2] == '.',
        i + 3 == s.len() || s[i + 3] == '/',
    ensures
        !path_ok(s),
{
    if path_ok(s) {
        let p = i + 1;
        assert(seg_end(s, p) == seg_end(s, p + 1));
        assert(seg_end(s, p + 1) == seg_end(s, p + 2));
        assert(seg_end(s, p + 2) == p + 2);
        let seg = s.subrange(p, seg_end(s, p));
        assert(seg =~= parent_seg());
        lemma_segs_contains(s, 0, p);
        assert(segs(s, 0).contains(parent_seg()));
        let k = choose|k: int|
            0 <= k < segs(s, 0).len() && segs(s, 0)[k] == parent_seg();
        if k == 0 {
            assert(segs(s, 0)[0] == zips_seg());
        } else {
            assert(segs(s, 0)[k] != parent_seg());
        }
    }
}

/// An accepted path cannot climb towards a parent directory anywhere: no
/// `/../` occurs in it and it does not end in `/..`, so it cannot reach
/// outside the artifact directory even through a combination of steps.
pub proof fn lemma_no_parent_traversal(s: Seq<char>)
    requires
        path_ok(s),
    ensures
        forall|i: int|
            0 <= i && i + 4 <= s.len() ==> #[trigger] s.subrange(i, i + 4) != seq![
                '/',
                '.',
                '.',
                '/',
            ],
        s.len() >= 3 ==> s.subrange(s.len() - 3, s.len() as int) != seq!['/', '.', '.'],
{
    assert forall|i: int| 0 <= i && i + 4 <= s.len() implies #[trigger] s.subrange(i, i + 4)
        != seq!['/', '.', '.', '/'] by {
        if s.subrange(i, i + 4) == seq!['/', '.', '.', '/'] {
            assert(s[i] == s.subrange(i, i + 4)[0]);
            assert(s[i + 1] == s.subrange(i, i + 4)[1]);
            assert(s[i + 2] == s.subrange(i, i + 4)[2]);
            assert(s[i + 3] == s.subrange(i, i + 4)[3]);
            lemma_parent_step_rejects(s, i);
        }
    }
    if s.len() >= 3 && s.subrange(s.len() - 3, s.len() as int) == seq!['/', '.', '.'] {
        let i = s.len() - 3;
        assert(s[i] == s.subrange(i, s.len() as int)[0]);
        assert(s[i + 1] == s.subrange(i, s.len() as int)[1]);
        assert(s[i + 2] == s.subrange(i, s.len() as int)[2]);
        lemma_parent_step_rejects(s, i);
    }
}

fn find_seg_start(path: &str, i: usize, n: usize) -> (p: usize)
    requires
        n == path@.len(),
        i <= n,
    ensures
        i <= p <= n,
        p as int == seg_start(path@, i as int),
    decreases n - i,
{
    if i < n && path.get_char(i) == '/' {
        find_seg_start(path, i + 1, n)
    } else {
        i
    }
}

fn find_seg_end(path: &str, i: usize, n: usize) -> (e: usize)
    requires
        n == path@.len(),
        i <= n,
    ensures
        i <= e <= n,
        e as int == seg_end(path@, i as int),
    decreases n - i,
{
    if i < n && path.get_char(i) != '/' {
        find_seg_end(path, i + 1, n)
    } else {
        i
    }
}

/// Check that the path starts with `/zips/` and does not try to get out of
/// this hierarchy.
pub fn is_acceptable_path_name(path: &str) -> (r: bool)
    ensures
        r == path_ok(path@),
{
    let ghost s = path@;
    let n = path.unicode_len();
    if n == 0 || path.get_char(0) != '/' {
        return false;
    }
    let mut i: usize = 0;
    let ghost mut seen: Seq<Seq<char>> = seq![];
    let mut any_seg = false;
    loop
        invariant
            0 <= i <= n,
            n == s.len(),
            s == path@,
            s.len() > 0,
            s[0] == '/',
            segs(s, 0) == seen + segs(s, i as int),
            any_seg == (seen.len() > 0),
            seen.len() > 0 ==> seen[0] == zips_seg(),
            forall|k: int| 1 <= k < seen.len() ==> seen[k] != parent_seg(),
        decreases n - i,
    {
        let p = find_seg_start(path, i, n);
        if p == n {
            // no further component: the component list is what was seen
            proof {
                assert(segs(s, i as int) =~= Seq::<Seq<char>>::empty());
                assert(segs(s, 0) =~= seen);
            }
            return any_seg;
        }
        let e = find_seg_end(path, p, n);
        proof {
            lemma_seg_start(s, i as int);
            lemma_seg_end(s, p as int);
            assert(s[p as int] != '/');
            assert(seg_end(s, p as int) == seg_end(s, p as int + 1));
            assert(e > p);
        }
        let ghost seg = s.subrange(p as int, e as int);
        // classify the component by its characters
        let len = e - p;
        let is_dot = len == 1 && path.get_char(p) == '.';
        let is_parent = len == 2 && path.get_char(p) == '.' && path.get_char(p + 1) == '.';
        let is_zips = len == 4 && path.get_char(p) == 'z' && path.get_char(p + 1) == 'i'
            && path.get_char(p + 2) == 'p' && path.get_char(p + 3) == 's';
        proof {
            assert(seg.len() == len);
            if is_dot {
                assert(seg =~= seq!['.']);
            } else {
                assert(seg != seq!['.']) by {
                    if seg == seq!['.'] {
                        assert(seg[0] == '.');
                    }
                }
            }
            assert(is_parent == (seg == parent_seg())) by {
                if seg == parent_seg() {
                    assert(seg[0] == '.' && seg[1] == '.');
                }
                if is_parent {
                    assert(seg =~= parent_seg());
                }
            }
            assert(is_zips == (seg == zips_seg())) by {
                if seg == zips_seg() {
                    assert(seg[0] == 'z' && seg[1] == 'i' && seg[2] == 'p' && seg[3] == 's');
                }
                if is_zips {
                    assert(seg =~= zips_seg());
                }
            }
        }
        if is_dot {
            // normalization drops a lone-dot component
            proof {
                assert(segs(s, i as int) == segs(s, e as int));
            }
            i = e;
            continue;
        }
        proof {
            assert(segs(s, i as int) == seq![seg] + segs(s, e as int));
        }
        if !any_seg {
            if !is_zips {
                // the first component is not the artifact directory
                proof {
                    assert(seen =~= Seq::<Seq<char>>::empty());
                    assert(segs(s, 0) =~= segs(s, i as int));
                    assert(segs(s, 0)[0] == seg);
                }
                return false;
            }
            any_seg = true;
        } else if is_parent {
            // a later component points at the parent directory
            proof {
                assert(segs(s, 0)[seen.len() as int] == seg);
                assert(1 <= seen.len() < segs(s, 0).len());
            }
            return false;
        }
        proof {
            seen = seen.push(seg);
            assert(segs(s, 0) =~= seen + segs(s, e as int));
        }
        i = e;
    }
}

} // verus!
