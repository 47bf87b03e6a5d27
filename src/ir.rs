//! The register description model that the renderer reads.

use vstd::prelude::*;

verus! {

/// Which operations a register allows.
#[derive(Clone, Copy, Debug, PartialEq, Eq, Structural)]
pub enum Access {
    Read,
    Write,
    ReadWrite,
}

/// A register replicated `len` times, `stride` bytes apart.
#[derive(Clone, Copy, Debug, PartialEq, Eq, Structural)]
pub struct Array {
    pub len: u32,
    pub stride: u32,
}

/// The payload of a register item.
#[derive(Clone, Debug)]
pub struct Register {
    pub access: Access,
    pub bit_size: u32,
    /// Path of the fieldset that gives the register's value type, if any.
    pub fieldset: Option<String>,
}

/// The payload of an item that refers to a nested block.
#[derive(Clone, Debug)]
pub struct BlockItemBlock {
    /// Path of the nested block.
    pub block: String,
}

#[derive(Clone, Debug)]
pub enum BlockItemInner {
    Register(Register),
    Block(BlockItemBlock),
}

/// A named entry of a block; for CSRs the byte offset is the CSR number.
#[derive(Clone, Debug)]
pub struct BlockItem {
    pub name: String,
    pub description: Option<String>,
    pub array: Option<Array>,
    pub byte_offset: u32,
    pub inner: BlockItemInner,
}

/// A group of registers rendered as one output unit.
#[derive(Clone, Debug)]
pub struct Block {
    pub description: Option<String>,
    pub items: Vec<BlockItem>,
}

/// A structured bit layout, known by its path.
#[derive(Clone, Debug)]
pub struct FieldSet {
    pub path: String,
    pub description: Option<String>,
}

/// The register description universe: here, the fieldsets that registers may name.
#[derive(Clone, Debug)]
pub struct IR {
    pub fieldsets: Vec<FieldSet>,
}

/// Rendering options.
#[derive(Clone, Debug)]
pub struct Options {
    /// Path of the module that holds `Reg`, `R`, `W`, `RW`, `CSR` and `SealedCSR`.
    pub common_path: String,
}

impl Options {
    pub fn common_path(&self) -> (r: &str)
        ensures
            r@ == self.common_path@,
    {
        self.common_path.as_str()
    }
}

/// Why a block cannot be rendered.
#[derive(Clone, Copy, Debug, PartialEq, Eq, Structural)]
pub enum RenderError {
    /// A register without fieldset has a width other than 8, 16, 32 or 64.
    UnsupportedBitSize(u32),
    /// A register item carries an array descriptor.
    RegisterArray,
    /// A block item nests another block.
    NestedBlock,
    /// A register names a fieldset that the IR does not hold.
    MissingFieldset,
    /// The rendered text is not a valid token stream.
    Lex,
}

} // verus!
