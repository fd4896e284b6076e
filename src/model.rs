//! The symbol model that the index produces.
use crate::syntax::Span;
use vstd::prelude::*;

verus! {

/// The visibility that a declaration's modifier gives it.
#[derive(Debug)]
pub enum Visibility {
    Private,
    PublicCrate,
    PublicSuper,
    /// `pub(in path)`, with the path as written.
    PublicIn(String),
    Public,
}

/// The kind of an algebraic data type.
#[derive(Clone, Copy, Debug, PartialEq, Eq, Structural)]
pub enum AdtKind {
    Struct,
    Enum,
    Union,
}

/// One indexed declaration.
pub struct ItemInfo {
    pub name: String,
    /// The declaration's text as written.
    pub raw_text: String,
    pub doc_comment: Option<String>,
    pub visibility: Visibility,
    pub span: Span,
    pub details: ItemDetails,
}

/// What is known of a declaration beyond its name, by kind.
pub enum ItemDetails {
    Function(FunctionDetails),
    AlgebraicDataType(StructDetails),
    Trait(TraitDetails),
    Module(ModuleDetails),
    Other(OtherDetails),
}

pub struct FunctionDetails {
    /// The declaration up to its body, without trailing whitespace.
    pub signature: String,
}

/// A struct, enum or union, with the methods that `impl` blocks give it.
pub struct StructDetails {
    pub kind: AdtKind,
    pub methods: Vec<ItemInfo>,
}

pub struct TraitDetails {
    pub methods: Vec<TraitMethodInfo>,
}

/// An inline module's own items and module references.
pub struct ModuleDetails {
    pub items: Vec<ItemInfo>,
    pub module_references: Vec<ModuleReference>,
}

/// Imports, constants, statics, type aliases and `impl` blocks that no data
/// type of the file takes up.
pub struct OtherDetails {
    /// `use`, `const`, `static`, `type_alias` or `impl`.
    pub item_type: String,
}

/// A function declared in a trait.
pub struct TraitMethodInfo {
    pub name: String,
    pub signature: String,
    pub doc_comment: Option<String>,
    pub span: Span,
}

/// A module declared without a body, to be found in another file.
pub struct ModuleReference {
    pub name: String,
    pub visibility: Visibility,
    /// `<prefix><name>.rs` and `<prefix><name>/mod.rs`.
    pub expected_paths: Vec<String>,
    pub span: Span,
}

/// The index of one file: its top-level items and module references.
pub struct FileInfo {
    pub items: Vec<ItemInfo>,
    pub module_references: Vec<ModuleReference>,
}

/// A diagnostic of the parser.
pub struct ParseError {
    pub message: String,
    pub severity: String,
    pub span: Option<Span>,
}

/// The result of indexing one file.
pub struct ParseResponse {
    /// The parser reported no diagnostic.
    pub success: bool,
    /// Milliseconds spent, as the caller measured them; the library leaves
    /// it at 0.
    pub parse_time: u64,
    pub diagnostics: Vec<ParseError>,
    pub file_info: FileInfo,
}

} // verus!
