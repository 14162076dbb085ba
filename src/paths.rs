//! Paths compared by their components rather than by their text.

use vstd::prelude::*;
use crate::text::{chars_of, slice_chars};

verus! {

/// Either slash separates path components.
pub open spec fn is_separator(c: char) -> bool {
    c == '/' || c == '\\'
}

/// The components that a segment between separators contributes: none for
/// an empty segment, nor for `.` except where it begins the path.
pub open spec fn kept(seg: Seq<char>, first: bool) -> Seq<Seq<char>> {
    if seg.len() == 0 || (seg == seq!['.'] && !first) {
        Seq::empty()
    } else {
        seq![seg]
    }
}

/// The components of `s` from a scan that stands at `i`, the current
/// segment having begun at `start`.
pub open spec fn segments_from(s: Seq<char>, i: int, start: int) -> Seq<Seq<char>>
    decreases s.len() - i,
{
    if i >= s.len() {
        kept(s.subrange(start, s.len() as int), start == 0)
    } else if is_separator(s[i]) {
        kept(s.subrange(start, i), start == 0) + segments_from(s, i + 1, i + 1)
    } else {
        segments_from(s, i + 1, start)
    }
}

/// The components of a path: an empty component for the root of an
/// absolute path, then each non-empty segment in order, where `.` counts
/// only as the first segment of a relative path.
pub open spec fn path_components(s: Seq<char>) -> Seq<Seq<char>> {
    if s.len() > 0 && is_separator(s[0]) {
        seq![Seq::<char>::empty()] + segments_from(s, 0, 0)
    } else {
        segments_from(s, 0, 0)
    }
}

/// The character sequences that `v` holds.
pub open spec fn seqs_view(v: Seq<Vec<char>>) -> Seq<Seq<char>> {
    v.map_values(|x: Vec<char>| x@)
}

/// `pre` is a leading part of `s`.
pub open spec fn is_prefix_of(pre: Seq<Seq<char>>, s: Seq<Seq<char>>) -> bool {
    pre.len() <= s.len() && s.take(pre.len() as int) == pre
}

fn push_kept(out: &mut Vec<Vec<char>>, seg: Vec<char>, first: bool)
    ensures
        seqs_view(final(out)@) == seqs_view(old(out)@) + kept(seg@, first),
{
    let ghost before = seqs_view(out@);
    if seg.len() == 0 || (seg.len() == 1 && seg[0] == '.' && !first) {
        assert(seg@ == seq!['.'] ==> seg.len() == 1 && seg@[0] == '.');
        if seg.len() == 1 {
            assert(seg@ =~= seq!['.']);
        }
        assert(seqs_view(out@) =~= before + kept(seg@, first));
    } else {
        assert(seg@ != seq!['.'] || first);
        out.push(seg);
        assert(seqs_view(out@) =~= before + kept(seg@, first));
    }
}

/// The components of the path `s`.
pub fn components_of(s: &Vec<char>) -> (r: Vec<Vec<char>>)
    ensures
        seqs_view(r@) == path_components(s@),
{
    let mut out: Vec<Vec<char>> = Vec::new();
    if s.len() > 0 && (s[0] == '/' || s[0] == '\\') {
        out.push(Vec::new());
    }
    let ghost head = seqs_view(out@);
    assert(head + segments_from(s@, 0, 0) =~= path_components(s@));
    let mut start: usize = 0;
    let mut i: usize = 0;
    while i < s.len()
        invariant
            start <= i <= s.len(),
            seqs_view(out@) + segments_from(s@, i as int, start as int) == path_components(s@),
        decreases s.len() - i,
    {
        if s[i] == '/' || s[i] == '\\' {
            let ghost before = seqs_view(out@);
            push_kept(&mut out, slice_chars(s, start, i), start == 0);
            assert(seqs_view(out@) + segments_from(s@, i + 1, i + 1) =~= before + (kept(
                s@.subrange(start as int, i as int),
                start == 0,
            ) + segments_from(s@, i + 1, i + 1)));
            start = i + 1;
        }
        i += 1;
    }
    push_kept(&mut out, slice_chars(s, start, s.len()), start == 0);
    out
}

fn same_chars(a: &Vec<char>, b: &Vec<char>) -> (r: bool)
    ensures
        r == (a@ == b@),
{
    if a.len() != b.len() {
        return false;
    }
    let mut k: usize = 0;
    while k < a.len()
        invariant
            a.len() == b.len(),
            k <= a.len(),
            forall|j: int| 0 <= j < k ==> a@[j] == b@[j],
        decreases a.len() - k,
    {
        if a[k] != b[k] {
            return false;
        }
        k += 1;
    }
    assert(a@ =~= b@);
    true
}

/// Tests whether the first `n` components of `a` equal those of `b`.
pub fn same_leading_components(a: &Vec<Vec<char>>, b: &Vec<Vec<char>>, n: usize) -> (r: bool)
    requires
        n <= a.len(),
        n <= b.len(),
    ensures
        r == (seqs_view(a@).take(n as int) == seqs_view(b@).take(n as int)),
{
    let mut k: usize = 0;
    while k < n
        invariant
            n <= a.len(),
            n <= b.len(),
            k <= n,
            forall|j: int| 0 <= j < k ==> seqs_view(a@)[j] == seqs_view(b@)[j],
        decreases n - k,
    {
        if !same_chars(&a[k], &b[k]) {
            assert(seqs_view(a@).take(n as int)[k as int] != seqs_view(b@).take(n as int)[k as int]);
            return false;
        }
        k += 1;
    }
    assert(seqs_view(a@).take(n as int) =~= seqs_view(b@).take(n as int));
    true
}

/// Tests whether two paths name the same file, component by component, so
/// that `a//b/./c` and `a\b\c` both match `a/b/c`.
pub fn same_file_path(a: &str, b: &str) -> (r: bool)
    ensures
        r == (path_components(a@) == path_components(b@)),
{
    let ca = components_of(&chars_of(a));
    let cb = components_of(&chars_of(b));
    if ca.len() != cb.len() {
        return false;
    }
    let r = same_leading_components(&ca, &cb, ca.len());
    assert(seqs_view(ca@).take(ca.len() as int) =~= seqs_view(ca@));
    assert(seqs_view(cb@).take(cb.len() as int) =~= seqs_view(cb@));
    r
}

} // verus!
