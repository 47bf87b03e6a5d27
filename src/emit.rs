//! Text of the code emitted for one CSR: accessor, marker type and its capability impls.

use vstd::prelude::*;
use crate::hex::{append_csr_immediate, csr_immediate};
use crate::ir::Access;

verus! {

/// What `str::to_uppercase` returns for the given characters.
pub uninterp spec fn upper_of(s: Seq<char>) -> Seq<char>;

/// Relies on `str::to_uppercase`: the full Unicode upper case of `s`, which depends
/// on the characters of `s` alone; an empty string stays empty.
#[verifier::external_body]
fn to_upper(s: &str) -> (r: String)
    ensures
        r@ == upper_of(s@),
        s@.len() == 0 ==> r@.len() == 0,
{
    s.to_uppercase()
}

/// Name of the marker type of a register whose upper-cased name is `upper`.
pub open spec fn marker_name_of(upper: Seq<char>) -> Seq<char> {
    "CSR_"@ + upper
}

/// The marker type name for an already upper-cased register name.
pub fn marker_name_from_upper(upper: &str) -> (r: String)
    ensures
        r@ == marker_name_of(upper@),
{
    let mut s = String::from_str("CSR_");
    s.append(upper);
    s
}

/// The marker type name of the register called `name`: `CSR_` and `name` upper-cased.
pub fn marker_type_name(name: &str) -> (r: String)
    ensures
        r@ == marker_name_of(upper_of(name@)),
{
    let upper = to_upper(name);
    marker_name_from_upper(upper.as_str())
}

/// The capability marker's own name for each access mode.
pub open spec fn access_suffix(a: Access) -> Seq<char> {
    match a {
        Access::Read => "R"@,
        Access::Write => "W"@,
        Access::ReadWrite => "RW"@,
    }
}

/// The path of the capability marker for `a` within the common module `cp`.
pub open spec fn access_marker_of(cp: Seq<char>, a: Access) -> Seq<char> {
    cp + "::"@ + access_suffix(a)
}

/// The capability marker for an access mode: read-only `R`, write-only `W`, or
/// read-write `RW`, inside the common module.
pub fn access_marker(cp: &str, a: Access) -> (r: String)
    ensures
        r@ == access_marker_of(cp@, a),
        a == Access::Read ==> r@ == cp@ + "::R"@,
        a == Access::Write ==> r@ == cp@ + "::W"@,
        a == Access::ReadWrite ==> r@ == cp@ + "::RW"@,
{
    let mut s = String::from_str(cp);
    proof {
        reveal_strlit("::");
        reveal_strlit("R");
        reveal_strlit("W");
        reveal_strlit("RW");
        reveal_strlit("::R");
        reveal_strlit("::W");
        reveal_strlit("::RW");
    }
    s.append("::");
    match a {
        Access::Read => s.append("R"),
        Access::Write => s.append("W"),
        Access::ReadWrite => s.append("RW"),
    }
    assert(s@ =~= access_marker_of(cp@, a));
    assert(a == Access::Read ==> s@ =~= cp@ + "::R"@);
    assert(a == Access::Write ==> s@ =~= cp@ + "::W"@);
    assert(a == Access::ReadWrite ==> s@ =~= cp@ + "::RW"@);
    s
}

/// Instruction that reads CSR `n` into the output operand without writing it.
pub open spec fn read_template_of(n: nat) -> Seq<char> {
    "csrrs {0}, "@ + csr_immediate(n) + ", x0"@
}

/// Instruction that writes the input operand to CSR `n`, discarding the old value.
pub open spec fn write_template_of(n: nat) -> Seq<char> {
    "csrrw x0, "@ + csr_immediate(n) + ", {0}"@
}

fn append_read_template(out: &mut String, n: u32)
    ensures
        final(out)@ == old(out)@ + read_template_of(n as nat),
{
    out.append("csrrs {0}, ");
    append_csr_immediate(out, n);
    out.append(", x0");
    assert(final(out)@ =~= old(out)@ + read_template_of(n as nat));
}

fn append_write_template(out: &mut String, n: u32)
    ensures
        final(out)@ == old(out)@ + write_template_of(n as nat),
{
    out.append("csrrw x0, ");
    append_csr_immediate(out, n);
    out.append(", {0}");
    assert(final(out)@ =~= old(out)@ + write_template_of(n as nat));
}

/// The read instruction template for the CSR at `offset`.
pub fn read_template(offset: u32) -> (r: String)
    ensures
        r@ == read_template_of(offset as nat),
{
    let mut s = String::new();
    append_read_template(&mut s, offset);
    assert(s@ =~= read_template_of(offset as nat));
    s
}

/// The write instruction template for the CSR at `offset`.
pub fn write_template(offset: u32) -> (r: String)
    ensures
        r@ == write_template_of(offset as nat),
{
    let mut s = String::new();
    append_write_template(&mut s, offset);
    assert(s@ =~= write_template_of(offset as nat));
    s
}

/// How one character of documentation is written inside a string literal.
pub open spec fn escape_char(c: char) -> Seq<char> {
    if c == '"' || c == '\\' {
        "\\"@ + seq![c]
    } else if c == '\r' {
        "\\r"@
    } else {
        seq![c]
    }
}

/// `s` with each character escaped for a string literal.
pub open spec fn escaped(s: Seq<char>) -> Seq<char>
    decreases s.len(),
{
    if s.len() == 0 {
        Seq::empty()
    } else {
        escaped(s.drop_last()) + escape_char(s.last())
    }
}

/// The documentation attribute for a description, or nothing.
pub open spec fn doc_text(doc: Option<Seq<char>>) -> Seq<char> {
    match doc {
        None => Seq::empty(),
        Some(t) => "#[doc = \""@ + escaped(t) + "\"]\n"@,
    }
}

pub open spec fn opt_view(o: Option<String>) -> Option<Seq<char>> {
    match o {
        None => None,
        Some(s) => Some(s@),
    }
}

fn append_escaped(out: &mut String, s: &str)
    ensures
        final(out)@ == old(out)@ + escaped(s@),
{
    let n = s.unicode_len();
    let mut i: usize = 0;
    proof {
        assert(s@.take(0) =~= Seq::<char>::empty());
    }
    while i < n
        invariant
            n == s@.len(),
            i <= n,
            out@ == old(out)@ + escaped(s@.take(i as int)),
        decreases n - i,
    {
        let c = s.get_char(i);
        let ghost before = out@;
        let one = s.substring_char(i, i + 1);
        assert(one@ =~= seq![c]);
        if c == '"' || c == '\\' {
            out.append("\\");
            out.append(one);
        } else if c == '\r' {
            out.append("\\r");
        } else {
            out.append(one);
        }
        proof {
            let t = s@.take(i + 1);
            assert(t.drop_last() =~= s@.take(i as int));
            assert(t.last() == c);
            assert(out@ =~= before + escape_char(c));
        }
        i = i + 1;
    }
    assert(s@.take(n as int) =~= s@);
}

/// Appends the documentation attribute for `doc`, if there is one.
fn append_doc(out: &mut String, doc: &Option<String>)
    ensures
        final(out)@ == old(out)@ + doc_text(opt_view(*doc)),
{
    match doc {
        None => {
            assert(old(out)@ + doc_text(opt_view(*doc)) =~= old(out)@);
        },
        Some(t) => {
            out.append("#[doc = \"");
            append_escaped(out, t.as_str());
            out.append("\"]\n");
            assert(final(out)@ =~= old(out)@ + doc_text(opt_view(*doc)));
        },
    }
}

/// The documentation attribute for a description, or the empty string.
pub fn doc_attribute(doc: &Option<String>) -> (r: String)
    ensures
        r@ == doc_text(opt_view(*doc)),
{
    let mut s = String::new();
    append_doc(&mut s, doc);
    assert(s@ =~= doc_text(opt_view(*doc)));
    s
}

/// The code emitted for one register: the accessor `name`, returning the wrapper over
/// value type `ty`, marker type `marker` and capability `acc` (all within common module
/// `cp`), then the marker type and its read/write impls for CSR `n`.
pub open spec fn register_text(
    cp: Seq<char>,
    name: Seq<char>,
    ty: Seq<char>,
    marker: Seq<char>,
    acc: Seq<char>,
    n: nat,
    doc: Option<Seq<char>>,
) -> Seq<char> {
    doc_text(doc) + "#[inline(always)]\npub const fn "@ + name + "() -> "@ + cp + "::Reg<"@ + ty
        + ", "@ + marker + ", "@ + acc + "> {\n    unsafe { "@ + cp + "::Reg::new() }\n}\n\n"@
        + "#[allow(non_camel_case_types)]\n#[doc(hidden)]\npub struct "@ + marker + ";\n\nimpl "@
        + cp + "::SealedCSR for "@ + marker
        + " {\n    #[inline]\n    unsafe fn read_csr() -> usize {\n        let r: usize;\n        core::arch::asm!(\""@
        + read_template_of(n) + "\", out(reg) r);\n        r\n    }\n\n    #[inline]\n    unsafe fn write_csr(value: usize) {\n        core::arch::asm!(\""@
        + write_template_of(n) + "\", in(reg) value);\n    }\n}\n\nimpl "@ + cp + "::CSR for "@
        + marker + " {}\n\n"@
}

fn append_register(
    out: &mut String,
    cp: &str,
    name: &str,
    ty: &str,
    marker: &str,
    acc: &str,
    n: u32,
    doc: &Option<String>,
)
    ensures
        final(out)@ == old(out)@ + register_text(cp@, name@, ty@, marker@, acc@, n as nat, opt_view(*doc)),
{
    append_doc(out, doc);
    out.append("#[inline(always)]\npub const fn ");
    out.append(name);
    out.append("() -> ");
    out.append(cp);
    out.append("::Reg<");
    out.append(ty);
    out.append(", ");
    out.append(marker);
    out.append(", ");
    out.append(acc);
    out.append("> {\n    unsafe { ");
    out.append(cp);
    out.append("::Reg::new() }\n}\n\n");
    out.append("#[allow(non_camel_case_types)]\n#[doc(hidden)]\npub struct ");
    out.append(marker);
    out.append(";\n\nimpl ");
    out.append(cp);
    out.append("::SealedCSR for ");
    out.append(marker);
    out.append(" {\n    #[inline]\n    unsafe fn read_csr() -> usize {\n        let r: usize;\n        core::arch::asm!(\"");
    append_read_template(out, n);
    out.append("\", out(reg) r);\n        r\n    }\n\n    #[inline]\n    unsafe fn write_csr(value: usize) {\n        core::arch::asm!(\"");
    append_write_template(out, n);
    out.append("\", in(reg) value);\n    }\n}\n\nimpl ");
    out.append(cp);
    out.append("::CSR for ");
    out.append(marker);
    out.append(" {}\n\n");
    assert(final(out)@ =~= old(out)@ + register_text(cp@, name@, ty@, marker@, acc@, n as nat, opt_view(*doc)));
}

/// The code for one register, given its value type, its marker type name (see
/// `marker_type_name`) and its access mode.
pub fn render_register(
    cp: &str,
    name: &str,
    ty: &str,
    marker: &str,
    access: Access,
    offset: u32,
    doc: &Option<String>,
) -> (r: String)
    ensures
        r@ == register_text(cp@, name@, ty@, marker@, access_marker_of(cp@, access), offset as nat, opt_view(*doc)),
{
    let acc = access_marker(cp, access);
    let mut s = String::new();
    append_register(&mut s, cp, name, ty, marker, acc.as_str(), offset, doc);
    assert(s@ =~= register_text(cp@, name@, ty@, marker@, acc@, offset as nat, opt_view(*doc)));
    s
}

} // verus!
