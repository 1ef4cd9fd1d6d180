//! The declarations a front end hands over: what of a parsed item the translation reads.

use vstd::prelude::*;

verus! {

/// A region of source text, by the byte offsets of its two ends.
#[derive(Debug, Clone, Copy, PartialEq, Eq, Structural)]
pub struct Span {
    pub lo: u32,
    pub hi: u32,
}

/// Whether the target of a pointer may be written through it.
#[derive(Debug, Clone, Copy, PartialEq, Eq, Structural)]
pub enum Mutability {
    Mutable,
    Immutable,
}

/// A path such as `libc::c_int`, segment by segment.
#[derive(Debug, PartialEq)]
pub struct Path {
    pub span: Span,
    pub segments: Vec<String>,
}

/// A type as written in a declaration.
#[derive(Debug, PartialEq)]
pub struct Ty {
    pub node: TyKind,
    pub span: Span,
}

/// The shapes of type that the translation tells apart.
#[derive(Debug, PartialEq)]
pub enum TyKind {
    /// A fixed-length array of the given element type.
    Array(Box<Ty>),
    /// A raw pointer to the given type.
    Ptr(Box<Ty>, Mutability),
    /// A function pointer.
    BareFn(Box<BareFnTy>),
    /// An unqualified path.
    Path(Path),
    /// The type `!` of an expression that never yields a value.
    Never,
    /// Any other shape, held as the text it is written as.
    Other(String),
}

/// A function pointer type.
#[derive(Debug, PartialEq)]
pub struct BareFnTy {
    /// How many lifetime parameters the type binds.
    pub lifetimes: usize,
    pub decl: FnDecl,
}

/// Parameters and return type of a function or function pointer.
#[derive(Debug, PartialEq)]
pub struct FnDecl {
    pub inputs: Vec<Arg>,
    pub output: FunctionRetTy,
}

/// One parameter: the text of its pattern, and its type.
#[derive(Debug, PartialEq)]
pub struct Arg {
    pub name: String,
    pub ty: Ty,
}

/// What a function returns.
#[derive(Debug, PartialEq)]
pub enum FunctionRetTy {
    /// No return type is written.
    Default,
    Ty(Ty),
}

/// Calling conventions.
#[derive(Debug, Clone, Copy, PartialEq, Eq, Structural)]
pub enum Abi {
    Cdecl,
    Stdcall,
    Fastcall,
    Vectorcall,
    Thiscall,
    Aapcs,
    Win64,
    SysV64,
    PtxKernel,
    Msp430Interrupt,
    X86Interrupt,
    Rust,
    C,
    System,
    RustIntrinsic,
    RustCall,
    PlatformIntrinsic,
    Unadjusted,
}

/// One variant of an enum.
#[derive(Debug, PartialEq)]
pub struct Variant {
    /// The variant as it is written, without its attributes.
    pub name: String,
    pub span: Span,
    /// The variant's documentation as comment lines, each indented by a tab.
    pub docs: String,
    /// Whether the variant carries no data.
    pub unit: bool,
}

/// One named field of a struct.
#[derive(Debug, PartialEq)]
pub struct StructField {
    pub name: String,
    /// The field's documentation as comment lines, each indented by a tab.
    pub docs: String,
    pub ty: Ty,
}

/// The body of a struct.
#[derive(Debug, PartialEq)]
pub enum VariantData {
    /// Named fields in braces.
    Struct(Vec<StructField>),
    /// Unnamed fields in parentheses, by their types.
    Tuple(Vec<Ty>),
    /// No body.
    Unit,
}

/// What kind of declaration an item is, with what the translation reads of it.
#[derive(Debug, PartialEq)]
pub enum ItemKind {
    /// A type alias for `ty`.
    Ty { ty: Ty, generic: bool },
    Enum { variants: Vec<Variant>, generic: bool },
    Struct { data: VariantData, generic: bool },
    Fn { decl: FnDecl, abi: Abi, generic: bool },
    /// Any other item.
    Other,
}

/// A declaration with what its attributes say.
#[derive(Debug, PartialEq)]
pub struct Item {
    pub name: String,
    pub span: Span,
    /// The item's documentation as comment lines.
    pub docs: String,
    /// Whether the item asks for the C layout.
    pub repr_c: bool,
    /// Whether the item keeps its name as its symbol.
    pub no_mangle: bool,
    pub node: ItemKind,
}

impl Abi {
    /// Whether C code can call a function of this convention.
    pub open spec fn c_callable(self) -> bool {
        self is C || self is Cdecl || self is Stdcall || self is Fastcall || self is System
    }

    /// Whether C code can call a function of this convention.
    pub fn is_c_callable(&self) -> (r: bool)
        ensures
            r == self.c_callable(),
    {
        match self {
            Abi::C | Abi::Cdecl | Abi::Stdcall | Abi::Fastcall | Abi::System => true,
            _ => false,
        }
    }
}

} // verus!
