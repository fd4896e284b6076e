//! A symbol index for one Rust source file: the declarations of a parsed file,
//! sorted into functions, data types, traits, modules and the rest, each with
//! its visibility, documentation and byte span.
pub mod assemble;
pub mod classify;
pub mod docs;
pub mod impls;
pub mod laws;
pub mod location;
pub mod model;
pub mod modules;
pub mod parse;
pub mod response;
pub mod syntax;
pub mod text;
pub mod visibility;

pub use model::{
    AdtKind, FileInfo, FunctionDetails, ItemDetails, ItemInfo, ModuleDetails, ModuleReference,
    OtherDetails, ParseError, ParseResponse, StructDetails, TraitDetails, TraitMethodInfo,
    Visibility,
};
pub use location::{line_col, location_of, SourceLocation};
pub use modules::{flatten_modules, ModuleInfo};
pub use response::parse_rust_code;
pub use syntax::Span;
