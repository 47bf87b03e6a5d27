//! Rendering a CSR block: value types, per-item code, and the whole output unit.

use vstd::prelude::*;
use crate::emit::{
    access_marker_of, marker_name_of, marker_type_name, opt_view, register_text, render_register,
    upper_of,
};
use crate::ir::{Block, BlockItem, BlockItemInner, IR, Options, Register, RenderError};
use crate::order::{same_text, sorted_order, sorted_order_of};
use crate::paths::{relative_path, relative_path_of};

verus! {

#[verifier::external_type_specification]
#[verifier::external_body]
pub struct ExTokenStream(proc_macro2::TokenStream);

#[verifier::external_type_specification]
#[verifier::external_body]
pub struct ExLexError(proc_macro2::LexError);

/// Relies on `<proc_macro2::TokenStream as FromStr>::from_str`, which lexes Rust
/// source text into tokens. Whether it succeeds depends on the lexer in use (the
/// compiler's inside a procedural macro, proc-macro2's own elsewhere), so nothing is
/// stated of the outcome.
#[verifier::external_body]
fn lex(text: &str) -> (r: Result<proc_macro2::TokenStream, proc_macro2::LexError>) {
    text.parse::<proc_macro2::TokenStream>()
}

pub open spec fn result_view(r: Result<String, RenderError>) -> Result<Seq<char>, RenderError> {
    match r {
        Ok(s) => Ok(s@),
        Err(e) => Err(e),
    }
}

/// The IR holds a fieldset at path `p`.
pub open spec fn has_fieldset(ir: IR, p: Seq<char>) -> bool {
    exists|k: int| 0 <= k < ir.fieldsets@.len() && (#[trigger] ir.fieldsets@[k]).path@ == p
}

/// The raw unsigned integer type of a register `bits` wide, for the supported widths.
pub open spec fn raw_type_of(bits: u32) -> Option<Seq<char>> {
    if bits == 8 {
        Some("u8"@)
    } else if bits == 16 {
        Some("u16"@)
    } else if bits == 32 {
        Some("u32"@)
    } else if bits == 64 {
        Some("u64"@)
    } else {
        None
    }
}

/// The value type of register `r`, referenced from the module of the item at `path`:
/// its fieldset, which must exist, or else the raw integer of its width.
pub open spec fn value_type_of(ir: IR, r: Register, path: Seq<char>) -> Result<Seq<char>, RenderError> {
    match r.fieldset {
        Some(f) => if has_fieldset(ir, f@) {
            Ok(relative_path_of(f@, path))
        } else {
            Err(RenderError::MissingFieldset)
        },
        None => match raw_type_of(r.bit_size) {
            Some(t) => Ok(t),
            None => Err(RenderError::UnsupportedBitSize(r.bit_size)),
        },
    }
}

/// The code for one block item, or why it cannot be rendered. For a register the
/// value type is resolved first, then an array descriptor is refused.
pub open spec fn item_text(cp: Seq<char>, ir: IR, path: Seq<char>, item: BlockItem) -> Result<Seq<char>, RenderError> {
    match item.inner {
        BlockItemInner::Block(_) => Err(RenderError::NestedBlock),
        BlockItemInner::Register(r) => match value_type_of(ir, r, path) {
            Err(e) => Err(e),
            Ok(ty) => if item.array is Some {
                Err(RenderError::RegisterArray)
            } else {
                Ok(
                    register_text(
                        cp,
                        item.name@,
                        ty,
                        marker_name_of(upper_of(item.name@)),
                        access_marker_of(cp, r.access),
                        item.byte_offset as nat,
                        opt_view(item.description),
                    ),
                )
            },
        },
    }
}

/// The code for the items `items[order[0]]`, `items[order[1]]`, ... one after the
/// other, or the error of the first item that cannot be rendered.
pub open spec fn items_text(
    cp: Seq<char>,
    ir: IR,
    path: Seq<char>,
    items: Seq<BlockItem>,
    order: Seq<usize>,
) -> Result<Seq<char>, RenderError>
    decreases order.len(),
{
    if order.len() == 0 {
        Ok(Seq::empty())
    } else {
        match items_text(cp, ir, path, items, order.drop_last()) {
            Err(e) => Err(e),
            Ok(t) => match item_text(cp, ir, path, items[order.last() as int]) {
                Err(e) => Err(e),
                Ok(u) => Ok(t + u),
            },
        }
    }
}

/// The output unit of block `b` at `path`: the code of its items in rendering order.
pub open spec fn render_text_of(opts: Options, ir: IR, b: Block, path: Seq<char>) -> Result<Seq<char>, RenderError> {
    items_text(opts.common_path@, ir, path, b.items@, sorted_order_of(b.items@))
}

/// Whether the IR holds a fieldset at path `p`.
pub fn find_fieldset(ir: &IR, p: &str) -> (r: bool)
    ensures
        r == has_fieldset(*ir, p@),
{
    let n = ir.fieldsets.len();
    let mut k: usize = 0;
    while k < n
        invariant
            n == ir.fieldsets@.len(),
            k <= n,
            forall|j: int| 0 <= j < k ==> (#[trigger] ir.fieldsets@[j]).path@ != p@,
        decreases n - k,
    {
        if same_text(ir.fieldsets[k].path.as_str(), p) {
            return true;
        }
        k = k + 1;
    }
    false
}

/// The value type of register `r` as written from the module of the item at `path`.
pub fn value_type(ir: &IR, r: &Register, path: &str) -> (res: Result<String, RenderError>)
    ensures
        result_view(res) == value_type_of(*ir, *r, path@),
        r.fieldset is None ==> (res is Ok <==> (r.bit_size == 8 || r.bit_size == 16
            || r.bit_size == 32 || r.bit_size == 64)),
{
    match &r.fieldset {
        Some(f) => {
            if find_fieldset(ir, f.as_str()) {
                Ok(relative_path(f.as_str(), path))
            } else {
                Err(RenderError::MissingFieldset)
            }
        },
        None => {
            if r.bit_size == 8 {
                Ok(String::from_str("u8"))
            } else if r.bit_size == 16 {
                Ok(String::from_str("u16"))
            } else if r.bit_size == 32 {
                Ok(String::from_str("u32"))
            } else if r.bit_size == 64 {
                Ok(String::from_str("u64"))
            } else {
                Err(RenderError::UnsupportedBitSize(r.bit_size))
            }
        },
    }
}

/// The code for one block item at `path`, or why it cannot be rendered.
pub fn render_item(opts: &Options, ir: &IR, item: &BlockItem, path: &str) -> (res: Result<String, RenderError>)
    ensures
        result_view(res) == item_text(opts.common_path@, *ir, path@, *item),
{
    match &item.inner {
        BlockItemInner::Block(_) => Err(RenderError::NestedBlock),
        BlockItemInner::Register(r) => {
            let ty = match value_type(ir, r, path) {
                Ok(t) => t,
                Err(e) => {
                    return Err(e);
                },
            };
            if item.array.is_some() {
                return Err(RenderError::RegisterArray);
            }
            let marker = marker_type_name(item.name.as_str());
            Ok(
                render_register(
                    opts.common_path(),
                    item.name.as_str(),
                    ty.as_str(),
                    marker.as_str(),
                    r.access,
                    item.byte_offset,
                    &item.description,
                ),
            )
        },
    }
}

proof fn lemma_error_persists(
    cp: Seq<char>,
    ir: IR,
    path: Seq<char>,
    items: Seq<BlockItem>,
    order: Seq<usize>,
    k: int,
    e: RenderError,
)
    requires
        0 <= k <= order.len(),
        items_text(cp, ir, path, items, order.take(k)) == Err::<Seq<char>, RenderError>(e),
    ensures
        items_text(cp, ir, path, items, order) == Err::<Seq<char>, RenderError>(e),
    decreases order.len() - k,
{
    if k == order.len() {
        assert(order.take(k) =~= order);
    } else {
        assert(order.take(k + 1).drop_last() =~= order.take(k));
        lemma_error_persists(cp, ir, path, items, order, k + 1, e);
    }
}

/// Renders block `b`, which lives at `path`, into source text: each item's code in
/// rendering order, or the error of the first item in that order that cannot be
/// rendered.
pub fn render_text(opts: &Options, ir: &IR, b: &Block, path: &str) -> (res: Result<String, RenderError>)
    ensures
        result_view(res) == render_text_of(*opts, *ir, *b, path@),
{
    let order = sorted_order(&b.items);
    let ghost cp = opts.common_path@;
    let ghost items = b.items@;
    let n = order.len();
    let mut out = String::new();
    let mut k: usize = 0;
    assert(order@.take(0) =~= Seq::<usize>::empty());
    while k < n
        invariant
            n == order@.len(),
            n == items.len(),
            items == b.items@,
            order@ == sorted_order_of(items),
            cp == opts.common_path@,
            k <= n,
            forall|j: int| 0 <= j < n ==> #[trigger] order@[j] < n,
            items_text(cp, *ir, path@, items, order@.take(k as int)) == Ok::<
                Seq<char>,
                RenderError,
            >(out@),
        decreases n - k,
    {
        assert(order@.take(k + 1).drop_last() =~= order@.take(k as int));
        assert(order@.take(k + 1).last() == order@[k as int]);
        let idx = order[k];
        match render_item(opts, ir, &b.items[idx], path) {
            Ok(t) => {
                out.append(t.as_str());
            },
            Err(e) => {
                proof {
                    assert(item_text(cp, *ir, path@, items[order@[k as int] as int]) == Err::<
                        Seq<char>,
                        RenderError,
                    >(e));
                    assert(items_text(cp, *ir, path@, items, order@.take(k + 1)) == Err::<
                        Seq<char>,
                        RenderError,
                    >(e));
                    lemma_error_persists(cp, *ir, path@, items, order@, k + 1, e);
                }
                return Err(e);
            },
        }
        k = k + 1;
    }
    assert(order@.take(n as int) =~= order@);
    Ok(out)
}

/// Renders block `b`, which lives at `path`, into tokens: the text of `render_text`,
/// lexed. A block that cannot be rendered gives its error; text the lexer refuses
/// gives `RenderError::Lex`.
pub fn render(opts: &Options, ir: &IR, b: &Block, path: &str) -> (res: Result<
    proc_macro2::TokenStream,
    RenderError,
>)
    ensures
        render_text_of(*opts, *ir, *b, path@) is Err ==> res == Err::<
            proc_macro2::TokenStream,
            RenderError,
        >(render_text_of(*opts, *ir, *b, path@)->Err_0),
        render_text_of(*opts, *ir, *b, path@) is Ok ==> (res is Ok || res == Err::<
            proc_macro2::TokenStream,
            RenderError,
        >(RenderError::Lex)),
{
    match render_text(opts, ir, b, path) {
        Err(e) => Err(e),
        Ok(text) => match lex(text.as_str()) {
            Ok(tokens) => Ok(tokens),
            Err(_) => Err(RenderError::Lex),
        },
    }
}

} // verus!
