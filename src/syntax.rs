//! The library's picture of a parsed file: each declaration as plain byte
//! ranges into the source text, with the declarations nested in it.
use vstd::prelude::*;

verus! {

/// A byte range `[start, end)` of the source text.
#[derive(Clone, Copy, Debug, PartialEq, Eq, Structural)]
pub struct Span {
    pub start: usize,
    pub end: usize,
}

/// The syntactic kind of a declaration.
#[derive(Clone, Copy, Debug, PartialEq, Eq, Structural)]
pub enum DeclKind {
    Function,
    Struct,
    Enum,
    Union,
    Trait,
    Module,
    Use,
    Const,
    Static,
    TypeAlias,
    Impl,
    /// Macro calls, extern blocks and the other forms that are not indexed.
    Unsupported,
}

/// One declaration of the parsed file.
pub struct Decl {
    pub kind: DeclKind,
    /// The whole declaration, with the comments that the parser attached to it.
    pub span: Span,
    /// Where the declaration proper begins: its first attribute, modifier or
    /// keyword, after any attached comments.
    pub head: usize,
    /// The identifier; for an import, its use tree.
    pub name: Option<Span>,
    /// The visibility modifier, and the path of a `pub(in path)` modifier.
    pub visibility: Option<Span>,
    pub visibility_path: Option<Span>,
    /// Where a function's body block begins; never before the head.
    pub body_start: Option<usize>,
    /// The implementing type and the implemented trait of an `impl` block.
    pub self_ty: Option<Span>,
    pub trait_ref: Option<Span>,
    /// The attributes written on the declaration, in source order.
    pub attrs: Vec<Span>,
    /// Whether the declaration has a body of member declarations: a module
    /// written inline, or a trait or `impl` block with its braces.
    pub has_body: bool,
    /// The member declarations: a module's items, a trait's or an `impl`
    /// block's associated items. Each lies within this declaration's span.
    pub members: Vec<Decl>,
}

/// The bytes of `text` that `s` covers.
pub open spec fn span_bytes(text: Seq<u8>, s: Span) -> Seq<u8> {
    text.subrange(s.start as int, s.end as int)
}

/// The bytes that an optional range covers; nothing where it is absent.
pub open spec fn opt_bytes(text: Seq<u8>, s: Option<Span>) -> Seq<u8> {
    match s {
        Some(s) => span_bytes(text, s),
        None => Seq::empty(),
    }
}

/// `s` lies within a text of `len` bytes.
pub open spec fn span_wf(s: Span, len: nat) -> bool {
    s.start <= s.end && s.end <= len
}

pub open spec fn opt_span_wf(s: Option<Span>, len: nat) -> bool {
    match s {
        Some(s) => span_wf(s, len),
        None => true,
    }
}

/// Every range of `d` and of the declarations nested in it lies within a
/// text of `len` bytes, and the head and body of `d` lie within its span.
pub open spec fn decl_wf(d: Decl, len: nat) -> bool
    decreases d,
{
    &&& span_wf(d.span, len)
    &&& d.span.start <= d.head <= d.span.end
    &&& opt_span_wf(d.name, len)
    &&& opt_span_wf(d.visibility, len)
    &&& opt_span_wf(d.visibility_path, len)
    &&& opt_span_wf(d.self_ty, len)
    &&& opt_span_wf(d.trait_ref, len)
    &&& (d.body_start matches Some(b) ==> d.head <= b <= d.span.end)
    &&& forall|i: int| 0 <= i < d.attrs@.len() ==> span_wf(#[trigger] d.attrs@[i], len)
    &&& forall|i: int| 0 <= i < d.members@.len() ==> decl_wf(#[trigger] d.members@[i], len)
    &&& forall|i: int| 0 <= i < d.members@.len() ==> within_span(#[trigger] d.members@[i].span, d.span)
}

/// `inner` lies within `outer`.
pub open spec fn within_span(inner: Span, outer: Span) -> bool {
    outer.start <= inner.start && inner.end <= outer.end
}

/// Every declaration of `ds` is well formed for a text of `len` bytes.
pub open spec fn decls_wf(ds: Seq<Decl>, len: nat) -> bool {
    forall|i: int| 0 <= i < ds.len() ==> decl_wf(#[trigger] ds[i], len)
}

} // verus!
