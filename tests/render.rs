use rvcsr::emit::{
    access_marker, doc_attribute, marker_name_from_upper, marker_type_name, read_template,
    render_register, write_template,
};
use rvcsr::hex::csr_hex;
use rvcsr::ir::{
    Access, Array, Block, BlockItem, BlockItemBlock, BlockItemInner, FieldSet, Options, Register,
    RenderError, IR,
};
use rvcsr::order::{name_less, same_text, sorted_order};
use rvcsr::paths::{relative_path, split_path};
use rvcsr::render::{find_fieldset, render, render_item, render_text, value_type};

fn opts() -> Options {
    Options { common_path: "crate::common".to_string() }
}

fn ir() -> IR {
    IR {
        fieldsets: vec![FieldSet {
            path: "regs::fieldset::Mstatus".to_string(),
            description: None,
        }],
    }
}

fn reg(name: &str, offset: u32, access: Access, bits: u32) -> BlockItem {
    BlockItem {
        name: name.to_string(),
        description: None,
        array: None,
        byte_offset: offset,
        inner: BlockItemInner::Register(Register { access, bit_size: bits, fieldset: None }),
    }
}

fn block(items: Vec<BlockItem>) -> Block {
    Block { description: Some("Machine CSRs".to_string()), items }
}

#[test]
fn hex_is_lower_case_and_padded_to_three_digits() {
    assert_eq!(csr_hex(0x7c0), "0x7c0");
    assert_eq!(csr_hex(2000), "0x7d0");
    assert_eq!(csr_hex(5), "0x005");
    assert_eq!(csr_hex(0), "0x000");
    assert_eq!(csr_hex(0x30), "0x030");
    assert_eq!(csr_hex(0x1abc), "0x1abc");
    assert_eq!(csr_hex(u32::MAX), "0xffffffff");
}

#[test]
fn templates_reference_the_address() {
    assert_eq!(read_template(0x7c0), "csrrs {0}, 0x7c0, x0");
    assert_eq!(write_template(0x7c0), "csrrw x0, 0x7c0, {0}");
    assert!(read_template(2000).contains("0x7d0"));
    assert!(write_template(2000).contains("0x7d0"));
}

#[test]
fn marker_names_are_upper_cased_with_prefix() {
    assert_eq!(marker_type_name("mtime"), "CSR_MTIME");
    assert_eq!(marker_type_name("mip_shadow"), "CSR_MIP_SHADOW");
    assert_eq!(marker_type_name("mIp_Shadow"), "CSR_MIP_SHADOW");
    assert_eq!(marker_name_from_upper("MSTATUS"), "CSR_MSTATUS");
}

#[test]
fn access_modes_map_to_their_markers() {
    assert_eq!(access_marker("crate::common", Access::Read), "crate::common::R");
    assert_eq!(access_marker("crate::common", Access::Write), "crate::common::W");
    assert_eq!(access_marker("crate::common", Access::ReadWrite), "crate::common::RW");
}

#[test]
fn emitted_marker_follows_access_mode() {
    for (access, marker) in [(Access::Read, "R"), (Access::Write, "W"), (Access::ReadWrite, "RW")] {
        let b = block(vec![reg("mtime", 0x7c0, access, 64)]);
        let text = render_text(&opts(), &ir(), &b, "csr::Csr").unwrap();
        let expected = format!("crate::common::Reg<u64, CSR_MTIME, crate::common::{}>", marker);
        assert!(text.contains(&expected), "{}", text);
    }
}

#[test]
fn raw_types_follow_bit_width() {
    for (bits, ty) in [(8, "u8"), (16, "u16"), (32, "u32"), (64, "u64")] {
        let r = Register { access: Access::Read, bit_size: bits, fieldset: None };
        assert_eq!(value_type(&ir(), &r, "csr::Csr"), Ok(ty.to_string()));
    }
    for bits in [0u32, 1, 12, 24, 128] {
        let r = Register { access: Access::Read, bit_size: bits, fieldset: None };
        assert_eq!(value_type(&ir(), &r, "csr::Csr"), Err(RenderError::UnsupportedBitSize(bits)));
    }
}

#[test]
fn fieldset_type_is_referenced_relatively() {
    let r = Register {
        access: Access::ReadWrite,
        bit_size: 12,
        fieldset: Some("regs::fieldset::Mstatus".to_string()),
    };
    assert_eq!(value_type(&ir(), &r, "regs::Csr"), Ok("fieldset::Mstatus".to_string()));
    assert_eq!(value_type(&ir(), &r, "other::Csr"), Ok("super::regs::fieldset::Mstatus".to_string()));
    let missing = Register {
        access: Access::ReadWrite,
        bit_size: 32,
        fieldset: Some("regs::fieldset::Nope".to_string()),
    };
    assert_eq!(value_type(&ir(), &missing, "regs::Csr"), Err(RenderError::MissingFieldset));
    assert!(find_fieldset(&ir(), "regs::fieldset::Mstatus"));
    assert!(!find_fieldset(&ir(), "regs::fieldset"));
}

#[test]
fn relative_paths() {
    assert_eq!(relative_path("a::B", "a::C"), "B");
    assert_eq!(relative_path("a::b::X", "a::Y"), "b::X");
    assert_eq!(relative_path("a::X", "a::b::Y"), "super::X");
    assert_eq!(relative_path("x::y::Z", "a::b::Y"), "super::super::x::y::Z");
    assert_eq!(relative_path("Foo", "Bar"), "Foo");
}

#[test]
fn paths_split_on_double_colons() {
    assert_eq!(split_path("a::b::C"), vec!["a", "b", "C"]);
    assert_eq!(split_path("C"), vec!["C"]);
    assert_eq!(split_path(""), vec![""]);
    assert_eq!(split_path("a:::b"), vec!["a", ":b"]);
}

#[test]
fn names_compare_like_strings() {
    assert!(name_less("a", "b"));
    assert!(name_less("ab", "abc"));
    assert!(!name_less("abc", "ab"));
    assert!(!name_less("x", "x"));
    assert!(name_less("Z", "a"));
    assert!(same_text("mtime", "mtime"));
    assert!(!same_text("mtime", "mtimeh"));
}

#[test]
fn items_sort_by_offset_then_name() {
    let items = vec![
        reg("b", 0x300, Access::Read, 32),
        reg("z", 0x100, Access::Read, 32),
        reg("a", 0x100, Access::Read, 32),
        reg("c", 0x200, Access::Read, 32),
    ];
    assert_eq!(sorted_order(&items), vec![2, 1, 3, 0]);
    assert_eq!(sorted_order(&Vec::new()), Vec::<usize>::new());
    let same = vec![reg("x", 1, Access::Read, 32), reg("x", 1, Access::Write, 32)];
    assert_eq!(sorted_order(&same), vec![0, 1]);
}

#[test]
fn output_follows_sorted_order() {
    let b = block(vec![
        reg("mcause", 0x342, Access::ReadWrite, 64),
        reg("mstatus", 0x300, Access::ReadWrite, 64),
        reg("misa", 0x301, Access::Read, 64),
        reg("aaa", 0x342, Access::Read, 64),
    ]);
    let text = render_text(&opts(), &ir(), &b, "csr::Csr").unwrap();
    let pos = |n: &str| text.find(&format!("pub const fn {}()", n)).unwrap();
    assert!(pos("mstatus") < pos("misa"));
    assert!(pos("misa") < pos("aaa"));
    assert!(pos("aaa") < pos("mcause"));
}

#[test]
fn rendering_is_deterministic() {
    let b = block(vec![
        reg("mtime", 0x701, Access::Read, 64),
        reg("mcycle", 0xb00, Access::ReadWrite, 64),
    ]);
    let t1 = render_text(&opts(), &ir(), &b, "csr::Csr").unwrap();
    let t2 = render_text(&opts(), &ir(), &b, "csr::Csr").unwrap();
    assert_eq!(t1, t2);
    let k1 = render(&opts(), &ir(), &b, "csr::Csr").unwrap().to_string();
    let k2 = render(&opts(), &ir(), &b, "csr::Csr").unwrap().to_string();
    assert_eq!(k1, k2);
}

#[test]
fn register_text_is_complete() {
    let mut item = reg("mtime", 0x7c0, Access::Read, 64);
    item.description = Some("Machine \"timer\"".to_string());
    let text = render_item(&opts(), &ir(), &item, "csr::Csr").unwrap();
    let expected = [
        "#[doc = \"Machine \\\"timer\\\"\"]\n",
        "#[inline(always)]\n",
        "pub const fn mtime() -> crate::common::Reg<u64, CSR_MTIME, crate::common::R> {\n",
        "    unsafe { crate::common::Reg::new() }\n",
        "}\n\n",
        "#[allow(non_camel_case_types)]\n",
        "#[doc(hidden)]\n",
        "pub struct CSR_MTIME;\n\n",
        "impl crate::common::SealedCSR for CSR_MTIME {\n",
        "    #[inline]\n",
        "    unsafe fn read_csr() -> usize {\n",
        "        let r: usize;\n",
        "        core::arch::asm!(\"csrrs {0}, 0x7c0, x0\", out(reg) r);\n",
        "        r\n",
        "    }\n\n",
        "    #[inline]\n",
        "    unsafe fn write_csr(value: usize) {\n",
        "        core::arch::asm!(\"csrrw x0, 0x7c0, {0}\", in(reg) value);\n",
        "    }\n",
        "}\n\n",
        "impl crate::common::CSR for CSR_MTIME {}\n\n",
    ]
    .join("");
    assert_eq!(text, expected);
    let direct = render_register(
        "crate::common",
        "mtime",
        "u64",
        "CSR_MTIME",
        Access::Read,
        0x7c0,
        &Some("Machine \"timer\"".to_string()),
    );
    assert_eq!(direct, expected);
}

#[test]
fn doc_attributes_escape_text() {
    assert_eq!(doc_attribute(&None), "");
    assert_eq!(doc_attribute(&Some("plain".to_string())), "#[doc = \"plain\"]\n");
    assert_eq!(doc_attribute(&Some("a\\b\"c\rd".to_string())), "#[doc = \"a\\\\b\\\"c\\rd\"]\n");
}

#[test]
fn register_array_is_rejected() {
    let mut item = reg("pmpcfg", 0x3a0, Access::ReadWrite, 32);
    item.array = Some(Array { len: 4, stride: 1 });
    let b = block(vec![reg("mstatus", 0x300, Access::ReadWrite, 64), item]);
    assert_eq!(render_text(&opts(), &ir(), &b, "csr::Csr"), Err(RenderError::RegisterArray));
    assert!(matches!(render(&opts(), &ir(), &b, "csr::Csr"), Err(RenderError::RegisterArray)));
}

#[test]
fn nested_block_is_rejected() {
    let nested = BlockItem {
        name: "inner".to_string(),
        description: None,
        array: None,
        byte_offset: 0x10,
        inner: BlockItemInner::Block(BlockItemBlock { block: "csr::Inner".to_string() }),
    };
    let b = block(vec![reg("mstatus", 0x300, Access::ReadWrite, 64), nested]);
    assert_eq!(render_text(&opts(), &ir(), &b, "csr::Csr"), Err(RenderError::NestedBlock));
}

#[test]
fn dangling_fieldset_is_rejected() {
    let mut item = reg("mstatus", 0x300, Access::ReadWrite, 64);
    item.inner = BlockItemInner::Register(Register {
        access: Access::ReadWrite,
        bit_size: 64,
        fieldset: Some("regs::fieldset::Missing".to_string()),
    });
    let b = block(vec![item]);
    assert_eq!(render_text(&opts(), &ir(), &b, "csr::Csr"), Err(RenderError::MissingFieldset));
}

#[test]
fn first_failing_item_in_order_decides_the_error() {
    let nested = BlockItem {
        name: "inner".to_string(),
        description: None,
        array: None,
        byte_offset: 0x400,
        inner: BlockItemInner::Block(BlockItemBlock { block: "csr::Inner".to_string() }),
    };
    let b = block(vec![nested, reg("odd", 0x100, Access::Read, 24)]);
    assert_eq!(
        render_text(&opts(), &ir(), &b, "csr::Csr"),
        Err(RenderError::UnsupportedBitSize(24))
    );
}

#[test]
fn empty_block_renders_nothing() {
    let b = block(Vec::new());
    assert_eq!(render_text(&opts(), &ir(), &b, "csr::Csr"), Ok(String::new()));
    assert!(render(&opts(), &ir(), &b, "csr::Csr").unwrap().is_empty());
}

#[test]
fn tokens_hold_accessor_and_marker() {
    let b = block(vec![reg("mtime", 2000, Access::ReadWrite, 64)]);
    let tokens = render(&opts(), &ir(), &b, "csr::Csr").unwrap().to_string();
    assert!(tokens.contains("CSR_MTIME"));
    assert!(tokens.contains("\"csrrs {0}, 0x7d0, x0\""));
    assert!(tokens.contains("\"csrrw x0, 0x7d0, {0}\""));
    assert!(tokens.contains("fn mtime"));
}

#[test]
fn options_expose_common_path() {
    assert_eq!(opts().common_path(), "crate::common");
}

#[test]
fn unlexable_text_is_reported() {
    let b = block(vec![reg("bad\"name", 0x300, Access::Read, 32)]);
    assert!(render_text(&opts(), &ir(), &b, "csr::Csr").is_ok());
    assert!(matches!(render(&opts(), &ir(), &b, "csr::Csr"), Err(RenderError::Lex)));
}

#[test]
fn block_description_is_not_emitted() {
    let b = block(vec![reg("mscratch", 0x340, Access::ReadWrite, 64)]);
    let text = render_text(&opts(), &ir(), &b, "csr::Csr").unwrap();
    assert!(!text.contains("Machine CSRs"));
    assert!(!text.contains("mod "));
}
