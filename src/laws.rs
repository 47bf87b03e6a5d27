//! Properties of rendering that relate several values or calls.

use vstd::prelude::*;
use crate::emit::{access_marker_of, access_suffix};
use crate::ir::{Access, Block, BlockItem, IR, Options, Register, RenderError};
use crate::order::{is_sorted_order, key_lt, lemma_order_lt_strict_total, same_key};
use crate::render::{render_text_of, result_view, value_type_of};

verus! {

/// Rendering is deterministic: any two results that meet the contract of
/// `render_text` for the same options, IR, block and path hold the same text, or the
/// same error.
pub proof fn lemma_render_deterministic(
    opts: Options,
    ir: IR,
    b: Block,
    path: Seq<char>,
    r1: Result<String, RenderError>,
    r2: Result<String, RenderError>,
)
    requires
        result_view(r1) == render_text_of(opts, ir, b, path),
        result_view(r2) == render_text_of(opts, ir, b, path),
    ensures
        r1 is Ok <==> r2 is Ok,
        r1 is Ok ==> r1->Ok_0@ == r2->Ok_0@,
        r1 is Err ==> r1 == r2,
{
}

/// In the rendering order of a block's items, of two items with different (offset,
/// name) keys the one at the earlier place is the one with the smaller key: smaller
/// offset, or equal offset and lexicographically smaller name.
pub proof fn lemma_rendering_order(items: Seq<BlockItem>, p: Seq<usize>, a: int, b: int)
    requires
        is_sorted_order(items, p),
        0 <= a < p.len(),
        0 <= b < p.len(),
        !same_key(items[p[a] as int], items[p[b] as int]),
    ensures
        a < b <==> key_lt(items[p[a] as int], items[p[b] as int]),
{
    let x = p[a] as int;
    let y = p[b] as int;
    lemma_order_lt_strict_total(items, x, y, x);
    lemma_order_lt_strict_total(items, y, x, y);
    if a < b {
        assert(crate::order::order_lt(items, x, y));
    } else if b < a {
        assert(crate::order::order_lt(items, y, x));
    }
}

/// A register without fieldset gets the unsigned integer type of exactly its width
/// when that width is 8, 16, 32 or 64, and is refused for any other width.
pub proof fn lemma_width_coverage(ir: IR, r: Register, path: Seq<char>)
    requires
        r.fieldset is None,
    ensures
        r.bit_size == 8 ==> value_type_of(ir, r, path) == Ok::<Seq<char>, RenderError>("u8"@),
        r.bit_size == 16 ==> value_type_of(ir, r, path) == Ok::<Seq<char>, RenderError>("u16"@),
        r.bit_size == 32 ==> value_type_of(ir, r, path) == Ok::<Seq<char>, RenderError>("u32"@),
        r.bit_size == 64 ==> value_type_of(ir, r, path) == Ok::<Seq<char>, RenderError>("u64"@),
        !(r.bit_size == 8 || r.bit_size == 16 || r.bit_size == 32 || r.bit_size == 64)
            ==> value_type_of(ir, r, path) == Err::<Seq<char>, RenderError>(
            RenderError::UnsupportedBitSize(r.bit_size),
        ),
{
}

/// Each access mode has its own capability marker: `R` for read-only, `W` for
/// write-only and `RW` for read-write, so two modes never share one.
pub proof fn lemma_access_fidelity(cp: Seq<char>, a1: Access, a2: Access)
    ensures
        access_marker_of(cp, a1) == access_marker_of(cp, a2) <==> a1 == a2,
{
    reveal_strlit("R");
    reveal_strlit("W");
    reveal_strlit("RW");
    reveal_strlit("::");
    if access_marker_of(cp, a1) == access_marker_of(cp, a2) {
        let n: int = cp.len() as int + 2;
        assert(access_marker_of(cp, a1).len() == n + access_suffix(a1).len());
        assert(access_marker_of(cp, a2).len() == n + access_suffix(a2).len());
        assert(access_marker_of(cp, a1)[n] == access_suffix(a1)[0]);
        assert(access_marker_of(cp, a2)[n] == access_suffix(a2)[0]);
    }
}

} // verus!
