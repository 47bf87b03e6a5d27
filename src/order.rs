//! The rendering order of a block's items: by offset, then by name, then by position.

use vstd::prelude::*;
use crate::ir::BlockItem;

verus! {

/// Lexicographic order of `a` and `b` from position `i` on, by code point.
pub open spec fn name_lt_from(a: Seq<char>, b: Seq<char>, i: nat) -> bool
    decreases a.len() - i,
{
    if i >= a.len() {
        i < b.len()
    } else if i >= b.len() {
        false
    } else if a[i as int] != b[i as int] {
        (a[i as int] as u32) < (b[i as int] as u32)
    } else {
        name_lt_from(a, b, i + 1)
    }
}

/// `a` comes strictly before `b` in lexicographic order (the order of `String`).
pub open spec fn name_lt(a: Seq<char>, b: Seq<char>) -> bool {
    name_lt_from(a, b, 0)
}

/// The sort key of `x`, (offset, name), is strictly below that of `y`.
pub open spec fn key_lt(x: BlockItem, y: BlockItem) -> bool {
    x.byte_offset < y.byte_offset || (x.byte_offset == y.byte_offset && name_lt(x.name@, y.name@))
}

pub open spec fn same_key(x: BlockItem, y: BlockItem) -> bool {
    x.byte_offset == y.byte_offset && x.name@ == y.name@
}

/// Item `i` is rendered before item `j`: a smaller key, or the same key and an
/// earlier place in the block.
pub open spec fn order_lt(items: Seq<BlockItem>, i: int, j: int) -> bool {
    key_lt(items[i], items[j]) || (same_key(items[i], items[j]) && i < j)
}

/// `x` occurs in `p`.
pub open spec fn has_index(p: Seq<usize>, x: int) -> bool {
    exists|k: int| 0 <= k < p.len() && p[k] == x
}

/// `p` lists every index of `items` exactly once, in rendering order.
pub open spec fn is_sorted_order(items: Seq<BlockItem>, p: Seq<usize>) -> bool {
    &&& p.len() == items.len()
    &&& forall|k: int| 0 <= k < p.len() ==> #[trigger] p[k] < items.len()
    &&& forall|x: int| 0 <= x < items.len() ==> #[trigger] has_index(p, x)
    &&& forall|a: int, b: int|
        0 <= a < b < p.len() ==> #[trigger] order_lt(items, p[a] as int, p[b] as int)
}

/// The rendering order of `items` (the only sequence that `is_sorted_order` admits).
pub open spec fn sorted_order_of(items: Seq<BlockItem>) -> Seq<usize> {
    choose|p: Seq<usize>| is_sorted_order(items, p)
}

proof fn lemma_name_lt_from_trans(a: Seq<char>, b: Seq<char>, c: Seq<char>, i: nat)
    requires
        name_lt_from(a, b, i),
        name_lt_from(b, c, i),
    ensures
        name_lt_from(a, c, i),
    decreases a.len() - i,
{
    if i < a.len() && i < b.len() && i < c.len() && a[i as int] == b[i as int] && b[i as int]
        == c[i as int] {
        lemma_name_lt_from_trans(a, b, c, i + 1);
    }
}

proof fn lemma_name_lt_from_asym(a: Seq<char>, b: Seq<char>, i: nat)
    ensures
        !(name_lt_from(a, b, i) && name_lt_from(b, a, i)),
    decreases a.len() - i,
{
    if i < a.len() && i < b.len() && a[i as int] == b[i as int] {
        lemma_name_lt_from_asym(a, b, i + 1);
    }
}

proof fn lemma_name_lt_from_total(a: Seq<char>, b: Seq<char>, i: nat)
    requires
        i <= a.len(),
        i <= b.len(),
        a.subrange(0, i as int) == b.subrange(0, i as int),
        !name_lt_from(a, b, i),
        !name_lt_from(b, a, i),
    ensures
        a == b,
    decreases a.len() - i,
{
    if i < a.len() && i < b.len() {
        assert(a[i as int] == b[i as int]) by {
            if a[i as int] != b[i as int] {
                vstd::utf8::char_u32_cast(a[i as int], a[i as int] as u32);
                vstd::utf8::char_u32_cast(b[i as int], b[i as int] as u32);
            }
        }
        assert(a.subrange(0, (i + 1) as int) =~= a.subrange(0, i as int).push(a[i as int]));
        assert(b.subrange(0, (i + 1) as int) =~= b.subrange(0, i as int).push(b[i as int]));
        lemma_name_lt_from_total(a, b, i + 1);
    } else {
        assert(a =~= a.subrange(0, i as int));
        assert(b =~= b.subrange(0, i as int));
    }
}

/// `order_lt` is a strict total order on the indices of `items`.
pub proof fn lemma_order_lt_strict_total(items: Seq<BlockItem>, i: int, j: int, l: int)
    ensures
        !order_lt(items, i, i),
        !(order_lt(items, i, j) && order_lt(items, j, i)),
        order_lt(items, i, j) && order_lt(items, j, l) ==> order_lt(items, i, l),
        i != j ==> order_lt(items, i, j) || order_lt(items, j, i),
{
    let (x, y, z) = (items[i], items[j], items[l]);
    lemma_name_lt_from_asym(x.name@, x.name@, 0);
    lemma_name_lt_from_asym(x.name@, y.name@, 0);
    lemma_name_lt_from_asym(y.name@, z.name@, 0);
    lemma_name_lt_from_asym(x.name@, z.name@, 0);
    if name_lt(x.name@, y.name@) && name_lt(y.name@, z.name@) {
        lemma_name_lt_from_trans(x.name@, y.name@, z.name@, 0);
    }
    assert(x.name@.subrange(0, 0) =~= y.name@.subrange(0, 0));
    assert(y.name@.subrange(0, 0) =~= z.name@.subrange(0, 0));
    if !name_lt(x.name@, y.name@) && !name_lt(y.name@, x.name@) {
        lemma_name_lt_from_total(x.name@, y.name@, 0);
    }
    if !name_lt(y.name@, z.name@) && !name_lt(z.name@, y.name@) {
        lemma_name_lt_from_total(y.name@, z.name@, 0);
    }
}

proof fn lemma_sorted_order_prefix(items: Seq<BlockItem>, p: Seq<usize>, q: Seq<usize>, k: int)
    requires
        is_sorted_order(items, p),
        is_sorted_order(items, q),
        0 <= k <= p.len(),
    ensures
        forall|j: int| 0 <= j < k ==> p[j] == q[j],
    decreases k,
{
    if k > 0 {
        let m = k - 1;
        lemma_sorted_order_prefix(items, p, q, m);
        let x = p[m] as int;
        let y = q[m] as int;
        assert(has_index(q, x));
        assert(has_index(p, y));
        let jx = choose|jj: int| 0 <= jj < q.len() && q[jj] == x;
        let jy = choose|jj: int| 0 <= jj < p.len() && p[jj] == y;
        lemma_order_lt_strict_total(items, x, y, x);
        lemma_order_lt_strict_total(items, y, x, y);
        if jx < m {
            assert(order_lt(items, p[jx] as int, p[m] as int));
        }
        if jy < m {
            assert(order_lt(items, q[jy] as int, q[m] as int));
        }
        if x != y {
            assert(order_lt(items, q[m] as int, q[jx] as int));
            assert(order_lt(items, p[m] as int, p[jy] as int));
        }
    }
}

/// There is one rendering order of a block's items: two sequences that both list
/// each index once in rendering order are equal.
pub proof fn lemma_sorted_order_unique(items: Seq<BlockItem>, p: Seq<usize>, q: Seq<usize>)
    requires
        is_sorted_order(items, p),
        is_sorted_order(items, q),
    ensures
        p == q,
{
    lemma_sorted_order_prefix(items, p, q, p.len() as int);
    assert(p =~= q);
}

/// Whether `a` comes strictly before `b` in lexicographic order.
pub fn name_less(a: &str, b: &str) -> (r: bool)
    ensures
        r == name_lt(a@, b@),
{
    let na = a.unicode_len();
    let nb = b.unicode_len();
    let mut i: usize = 0;
    while i < na && i < nb
        invariant
            na == a@.len(),
            nb == b@.len(),
            i <= na,
            i <= nb,
            name_lt(a@, b@) == name_lt_from(a@, b@, i as nat),
        decreases na - i,
    {
        let x = a.get_char(i);
        let y = b.get_char(i);
        if x != y {
            return (x as u32) < (y as u32);
        }
        i = i + 1;
    }
    i < nb
}

/// Whether `a` and `b` hold the same characters.
pub fn same_text(a: &str, b: &str) -> (r: bool)
    ensures
        r == (a@ == b@),
{
    let n = a.unicode_len();
    if n != b.unicode_len() {
        return false;
    }
    let mut i: usize = 0;
    while i < n
        invariant
            n == a@.len(),
            n == b@.len(),
            i <= n,
            a@.take(i as int) == b@.take(i as int),
        decreases n - i,
    {
        if a.get_char(i) != b.get_char(i) {
            return false;
        }
        assert(a@.take(i + 1) =~= a@.take(i as int).push(a@[i as int]));
        assert(b@.take(i + 1) =~= b@.take(i as int).push(b@[i as int]));
        i = i + 1;
    }
    assert(a@ =~= a@.take(n as int));
    assert(b@ =~= b@.take(n as int));
    true
}

fn item_before(items: &Vec<BlockItem>, i: usize, j: usize) -> (r: bool)
    requires
        i < items.len(),
        j < items.len(),
    ensures
        r == order_lt(items@, i as int, j as int),
{
    let x = &items[i];
    let y = &items[j];
    if x.byte_offset != y.byte_offset {
        x.byte_offset < y.byte_offset
    } else if name_less(x.name.as_str(), y.name.as_str()) {
        true
    } else {
        x.name == y.name && i < j
    }
}

/// The indices of `items` in rendering order: by offset, then by name, items with
/// equal offset and name in their order in the block.
pub fn sorted_order(items: &Vec<BlockItem>) -> (r: Vec<usize>)
    ensures
        is_sorted_order(items@, r@),
        r@ == sorted_order_of(items@),
{
    let n = items.len();
    let mut r: Vec<usize> = Vec::new();
    let mut i: usize = 0;
    while i < n
        invariant
            n == items@.len(),
            i <= n,
            r@.len() == i,
            forall|k: int| 0 <= k < r@.len() ==> #[trigger] r@[k] < i,
            forall|x: int| 0 <= x < i ==> #[trigger] has_index(r@, x),
            forall|a: int, b: int|
                0 <= a < b < r@.len() ==> #[trigger] order_lt(items@, r@[a] as int, r@[b] as int),
        decreases n - i,
    {
        let mut pos: usize = 0;
        while pos < r.len() && item_before(items, r[pos], i)
            invariant
                n == items@.len(),
                i < n,
                pos <= r@.len(),
                forall|k: int| 0 <= k < r@.len() ==> #[trigger] r@[k] < i,
                forall|k: int| 0 <= k < pos ==> order_lt(items@, #[trigger] r@[k] as int, i as int),
            decreases r@.len() - pos,
        {
            pos = pos + 1;
        }
        let ghost old_r = r@;
        proof {
            if pos < old_r.len() {
                lemma_order_lt_strict_total(items@, old_r[pos as int] as int, i as int, 0);
                assert forall|k: int| pos <= k < old_r.len() implies order_lt(
                    items@,
                    i as int,
                    #[trigger] old_r[k] as int,
                ) by {
                    if k > pos {
                        assert(order_lt(items@, old_r[pos as int] as int, old_r[k] as int));
                        lemma_order_lt_strict_total(
                            items@,
                            i as int,
                            old_r[pos as int] as int,
                            old_r[k] as int,
                        );
                    }
                }
            }
        }
        r.insert(pos, i);
        proof {
            assert forall|a: int, b: int| 0 <= a < b < r@.len() implies #[trigger] order_lt(
                items@,
                r@[a] as int,
                r@[b] as int,
            ) by {
                if b < pos {
                    assert(order_lt(items@, old_r[a] as int, old_r[b] as int));
                } else if b == pos {
                    assert(order_lt(items@, old_r[a] as int, i as int));
                } else if a < pos {
                    assert(order_lt(items@, old_r[a] as int, old_r[b - 1] as int));
                } else if a == pos {
                    assert(order_lt(items@, i as int, old_r[b - 1] as int));
                } else {
                    assert(order_lt(items@, old_r[a - 1] as int, old_r[b - 1] as int));
                }
            }
            assert forall|x: int| 0 <= x < i + 1 implies #[trigger] has_index(r@, x) by {
                if x == i {
                    assert(r@[pos as int] == x);
                } else {
                    assert(has_index(old_r, x));
                    let k = choose|k: int| 0 <= k < old_r.len() && old_r[k] == x;
                    if k < pos {
                        assert(r@[k] == x);
                    } else {
                        assert(r@[k + 1] == x);
                    }
                }
            }
        }
        i = i + 1;
    }
    proof {
        lemma_sorted_order_unique(items@, r@, sorted_order_of(items@));
    }
    r
}

} // verus!
