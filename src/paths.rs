//! `::`-separated paths and references from one module to another.

use vstd::prelude::*;

verus! {

/// Segments of `s` split on `::`, scanning from `i`, the current segment starting at `start`.
pub open spec fn split_from(s: Seq<char>, start: nat, i: nat) -> Seq<Seq<char>>
    decreases s.len() - i,
{
    if i + 1 < s.len() && s[i as int] == ':' && s[(i + 1) as int] == ':' {
        seq![s.subrange(start as int, i as int)] + split_from(s, i + 2, i + 2)
    } else if i < s.len() {
        split_from(s, start, i + 1)
    } else {
        seq![s.subrange(start as int, s.len() as int)]
    }
}

/// The segments of a path: `s` split on each `::`, left to right.
pub open spec fn segments(s: Seq<char>) -> Seq<Seq<char>> {
    split_from(s, 0, 0)
}

pub open spec fn views(v: Seq<String>) -> Seq<Seq<char>> {
    v.map_values(|x: String| x@)
}

proof fn lemma_split_from_nonempty(s: Seq<char>, start: nat, i: nat)
    ensures
        split_from(s, start, i).len() >= 1,
    decreases s.len() - i,
{
    if i + 1 < s.len() && s[i as int] == ':' && s[(i + 1) as int] == ':' {
        lemma_split_from_nonempty(s, i + 2, i + 2);
    } else if i < s.len() {
        lemma_split_from_nonempty(s, start, i + 1);
    }
}

/// A path has at least one segment.
pub proof fn lemma_segments_nonempty(s: Seq<char>)
    ensures
        segments(s).len() >= 1,
{
    lemma_split_from_nonempty(s, 0, 0);
}

/// Splits `s` on `::`.
pub fn split_path(s: &str) -> (r: Vec<String>)
    ensures
        views(r@) == segments(s@),
{
    let n = s.unicode_len();
    let mut out: Vec<String> = Vec::new();
    let mut start: usize = 0;
    let mut i: usize = 0;
    while i < n
        invariant
            n == s@.len(),
            start <= i <= n,
            views(out@) + split_from(s@, start as nat, i as nat) == segments(s@),
        decreases n - i,
    {
        if i + 1 < n && s.get_char(i) == ':' && s.get_char(i + 1) == ':' {
            let seg = String::from_str(s.substring_char(start, i));
            let ghost before = views(out@);
            out.push(seg);
            assert(views(out@) =~= before.push(seg@));
            assert(views(out@) + split_from(s@, (i + 2) as nat, (i + 2) as nat) =~= before
                + split_from(s@, start as nat, i as nat));
            i = i + 2;
            start = i;
        } else {
            i = i + 1;
        }
    }
    let seg = String::from_str(s.substring_char(start, n));
    let ghost before = views(out@);
    out.push(seg);
    assert(views(out@) =~= before.push(seg@));
    assert(views(out@) =~= before + split_from(s@, start as nat, i as nat));
    out
}

/// How many leading segments `a` and `b` share, counting from `k`.
pub open spec fn common_len(a: Seq<Seq<char>>, b: Seq<Seq<char>>, k: nat) -> nat
    decreases a.len() - k,
{
    if k < a.len() && k < b.len() && a[k as int] == b[k as int] {
        common_len(a, b, k + 1)
    } else {
        k
    }
}

proof fn lemma_common_len_bounds(a: Seq<Seq<char>>, b: Seq<Seq<char>>, k: nat)
    requires
        k <= a.len(),
        k <= b.len(),
    ensures
        k <= common_len(a, b, k) <= a.len(),
        common_len(a, b, k) <= b.len(),
    decreases a.len() - k,
{
    if k < a.len() && k < b.len() && a[k as int] == b[k as int] {
        lemma_common_len_bounds(a, b, k + 1);
    }
}

/// `n` times `super::`.
pub open spec fn supers(n: nat) -> Seq<char>
    decreases n,
{
    if n == 0 {
        Seq::empty()
    } else {
        supers((n - 1) as nat) + "super::"@
    }
}

/// The segments `a[from..to]`, each followed by `::`.
pub open spec fn module_chain(a: Seq<Seq<char>>, from: nat, to: nat) -> Seq<char>
    decreases to,
{
    if to <= from {
        Seq::empty()
    } else {
        module_chain(a, from, (to - 1) as nat) + a[to - 1] + "::"@
    }
}

/// A reference to the item at path `target`, written from inside the module that
/// holds the item at path `path`: one `super::` for each module of `path` past the
/// modules the two share, then the modules of `target` past those, then its last
/// segment.
pub open spec fn relative_path_of(target: Seq<char>, path: Seq<char>) -> Seq<char> {
    let a = segments(target);
    let b = segments(path);
    let ma = a.drop_last();
    let mb = b.drop_last();
    let k = common_len(ma, mb, 0);
    supers((mb.len() - k) as nat) + module_chain(ma, k, ma.len()) + a.last()
}

/// The path of `target` as seen from the module of the item at `path`.
pub fn relative_path(target: &str, path: &str) -> (r: String)
    ensures
        r@ == relative_path_of(target@, path@),
{
    let a = split_path(target);
    let b = split_path(path);
    proof {
        lemma_segments_nonempty(target@);
        lemma_segments_nonempty(path@);
    }
    let ghost av = views(a@);
    let ghost bv = views(b@);
    let ghost ma = av.drop_last();
    let ghost mb = bv.drop_last();
    assert(av.len() == a.len() && bv.len() == b.len());
    let ma_len = a.len() - 1;
    let mb_len = b.len() - 1;
    let mut k: usize = 0;
    while k < ma_len && k < mb_len && a[k] == b[k]
        invariant
            ma_len == ma.len(),
            mb_len == mb.len(),
            ma.len() + 1 == a@.len(),
            mb.len() + 1 == b@.len(),
            av == views(a@),
            bv == views(b@),
            ma == av.drop_last(),
            mb == bv.drop_last(),
            k <= ma_len,
            k <= mb_len,
            common_len(ma, mb, 0) == common_len(ma, mb, k as nat),
        decreases ma_len - k,
    {
        assert(ma[k as int] == a@[k as int]@);
        assert(mb[k as int] == b@[k as int]@);
        k = k + 1;
    }
    assert(common_len(ma, mb, k as nat) == k) by {
        if k < ma_len && k < mb_len {
            assert(ma[k as int] == a@[k as int]@);
            assert(mb[k as int] == b@[k as int]@);
        }
    }
    let mut out = String::new();
    let ups = mb_len - k;
    let mut j: usize = 0;
    assert(out@ =~= supers(0));
    while j < ups
        invariant
            j <= ups,
            out@ == supers(j as nat),
        decreases ups - j,
    {
        out.append("super::");
        j = j + 1;
    }
    let ghost base = out@;
    let mut j: usize = k;
    assert(out@ =~= base + module_chain(ma, k as nat, k as nat));
    while j < ma_len
        invariant
            k <= j <= ma_len,
            ma_len == ma.len(),
            ma.len() + 1 == a@.len(),
            av == views(a@),
            ma == av.drop_last(),
            out@ == base + module_chain(ma, k as nat, j as nat),
        decreases ma_len - j,
    {
        assert(ma[j as int] == a@[j as int]@);
        out.append(a[j].as_str());
        out.append("::");
        assert(out@ =~= base + module_chain(ma, k as nat, (j + 1) as nat));
        j = j + 1;
    }
    assert(av.last() == a@[ma_len as int]@);
    out.append(a[ma_len].as_str());
    assert(out@ =~= relative_path_of(target@, path@));
    out
}

} // verus!
