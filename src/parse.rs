//! The parser's tree, read into the library's picture of the file. Every
//! call into `ra_ap_syntax` stands in this module.
use crate::model::ParseError;
use crate::syntax::{decl_wf, decls_wf, opt_span_wf, span_wf, within_span, Decl, DeclKind, Span};
use ra_ap_syntax::ast::{self, HasAttrs, HasModuleItem, HasName, HasVisibility};
use ra_ap_syntax::{algo, AstNode, Direction, Edition, SourceFile, TextRange};
use vstd::prelude::*;
use vstd::string::StringSliceAdditionalSpecFns;

verus! {

#[verifier::external_type_specification]
#[verifier::external_body]
pub struct ExItem(ast::Item);

#[verifier::external_type_specification]
#[verifier::external_body]
pub struct ExTextRange(TextRange);

/// The messages and byte ranges of the diagnostics that the parser, with
/// edition 2024, reports on `code`, in its order.
pub uninterp spec fn parser_diagnostics(code: Seq<char>) -> Seq<(Seq<char>, usize, usize)>;

/// Relies on `SourceFile::parse` with edition 2024, `Parse::tree`,
/// `HasModuleItem::items` and `Parse::errors` with `SyntaxError`'s
/// `Display` and `range`: the top-level items of the tree that the parser
/// builds for any text, and its diagnostics, which depend on the text
/// alone. The parser counts offsets in `u32` and panics on longer texts.
#[verifier::external_body]
fn parse_file(code: &str) -> (r: (Vec<ast::Item>, Vec<(String, usize, usize)>))
    requires
        code.spec_bytes().len() <= u32::MAX,
    ensures
        r.1@.len() == parser_diagnostics(code@).len(),
        forall|i: int| 0 <= i < r.1@.len() ==> {
            let (m, s, e) = #[trigger] r.1@[i];
            (m@, s, e) == parser_diagnostics(code@)[i]
        },
{
    let parsed = SourceFile::parse(code, Edition::Edition2024);
    let errors = parsed.errors();
    let errors = errors.iter().map(|e| (e.to_string(), e.range().start().into(), e.range().end().into()));
    (parsed.tree().items().collect(), errors.collect())
}

/// Relies on `TextRange`, whose start never exceeds its end.
#[verifier::external_body]
fn range_span(r: TextRange) -> (s: Span)
    ensures
        s.start <= s.end,
{
    Span { start: r.start().into(), end: r.end().into() }
}

/// Relies on the variants of `ast::Item`.
#[verifier::external_body]
fn item_kind(item: &ast::Item) -> DeclKind {
    match item {
        ast::Item::Fn(_) => DeclKind::Function,
        ast::Item::Struct(_) => DeclKind::Struct,
        ast::Item::Enum(_) => DeclKind::Enum,
        ast::Item::Union(_) => DeclKind::Union,
        ast::Item::Trait(_) => DeclKind::Trait,
        ast::Item::Module(_) => DeclKind::Module,
        ast::Item::Use(_) => DeclKind::Use,
        ast::Item::Const(_) => DeclKind::Const,
        ast::Item::Static(_) => DeclKind::Static,
        ast::Item::TypeAlias(_) => DeclKind::TypeAlias,
        ast::Item::Impl(_) => DeclKind::Impl,
        _ => DeclKind::Unsupported,
    }
}

/// Relies on `AstNode::syntax` and `SyntaxNode::text_range`: the range of
/// the item's node, comments that the parser attached to it included.
#[verifier::external_body]
fn item_range(item: &ast::Item) -> TextRange {
    item.syntax().text_range()
}

/// Relies on `SyntaxNode::first_token` and `algo::skip_trivia_token`: where
/// the item's first token that is neither whitespace nor a comment begins.
#[verifier::external_body]
fn item_head(item: &ast::Item) -> Option<usize> {
    let first = item.syntax().first_token()?;
    algo::skip_trivia_token(first, Direction::Next).map(|t| t.text_range().start().into())
}

/// Relies on `AnyHasName::cast` and `HasName::name`: the range of the
/// item's identifier.
#[verifier::external_body]
fn item_name(item: &ast::Item) -> Option<TextRange> {
    ast::AnyHasName::cast(item.syntax().clone()).and_then(|n| n.name()).map(|n| n.syntax().text_range())
}

/// Relies on `Use::use_tree`: the range of an import's use tree.
#[verifier::external_body]
fn use_tree(item: &ast::Item) -> Option<TextRange> {
    match item {
        ast::Item::Use(u) => u.use_tree().map(|t| t.syntax().text_range()),
        _ => None,
    }
}

/// Relies on `AnyHasVisibility::cast` and `HasVisibility::visibility`: the
/// range of the item's visibility modifier.
#[verifier::external_body]
fn item_visibility(item: &ast::Item) -> Option<TextRange> {
    ast::AnyHasVisibility::cast(item.syntax().clone())
        .and_then(|n| n.visibility())
        .map(|v| v.syntax().text_range())
}

/// Relies on `AnyHasVisibility::cast`, `HasVisibility::visibility` and
/// `Visibility::path`: the range of the path of a `pub(in path)` modifier.
#[verifier::external_body]
fn visibility_path(item: &ast::Item) -> Option<TextRange> {
    ast::AnyHasVisibility::cast(item.syntax().clone())
        .and_then(|n| n.visibility())
        .and_then(|v| v.path())
        .map(|p| p.syntax().text_range())
}

/// Relies on `Fn::body`: the range of a function's body block.
#[verifier::external_body]
fn fn_body(item: &ast::Item) -> Option<TextRange> {
    match item {
        ast::Item::Fn(f) => f.body().map(|b| b.syntax().text_range()),
        _ => None,
    }
}

/// Relies on `Impl::self_ty`: the range of an `impl` block's implementing
/// type.
#[verifier::external_body]
fn impl_self_ty(item: &ast::Item) -> Option<TextRange> {
    match item {
        ast::Item::Impl(i) => i.self_ty().map(|t| t.syntax().text_range()),
        _ => None,
    }
}

/// Relies on `Impl::trait_`: the range of the trait that an `impl` block
/// implements.
#[verifier::external_body]
fn impl_trait(item: &ast::Item) -> Option<TextRange> {
    match item {
        ast::Item::Impl(i) => i.trait_().map(|t| t.syntax().text_range()),
        _ => None,
    }
}

/// Relies on `HasAttrs::attrs`: the ranges of the item's attributes, in
/// order.
#[verifier::external_body]
fn item_attrs(item: &ast::Item) -> Vec<TextRange> {
    item.attrs().map(|a| a.syntax().text_range()).collect()
}

/// Relies on `Module::item_list` and `HasModuleItem::items`: the items of a
/// module written inline; `None` for one declared without a body.
#[verifier::external_body]
fn module_items(item: &ast::Item) -> Option<Vec<ast::Item>> {
    match item {
        ast::Item::Module(m) => m.item_list().map(|l| l.items().collect()),
        _ => None,
    }
}

/// Relies on `Trait::assoc_item_list`, `Impl::assoc_item_list`,
/// `AssocItemList::assoc_items` and `AstNode::cast`: the associated items of
/// a trait or an `impl` block, each read as an item.
#[verifier::external_body]
fn assoc_items(item: &ast::Item) -> Option<Vec<Option<ast::Item>>> {
    let list = match item {
        ast::Item::Trait(t) => t.assoc_item_list(),
        ast::Item::Impl(i) => i.assoc_item_list(),
        _ => None,
    };
    list.map(|l| l.assoc_items().map(|a| ast::Item::cast(a.syntax().clone())).collect())
}

/// The range `r`, where it lies within a text of `len` bytes.
fn within(r: Option<TextRange>, len: usize) -> (s: Option<Span>)
    ensures
        opt_span_wf(s, len as nat),
{
    match r {
        Some(r) => {
            let s = range_span(r);
            if s.end <= len {
                Some(s)
            } else {
                None
            }
        },
        None => None,
    }
}

/// The declarations of the items `items` that lie within `outer`. An item is
/// read only where it is shorter than `limit` bytes: a nested item is always
/// shorter than the one around it, and this bound is what ends the descent.
fn convert_items(items: &Vec<ast::Item>, len: usize, outer: Span, limit: usize) -> (r: Vec<Decl>)
    ensures
        decls_wf(r@, len as nat),
        forall|i: int| 0 <= i < r@.len() ==> within_span(#[trigger] r@[i].span, outer),
    decreases limit, 1usize,
{
    let mut out: Vec<Decl> = Vec::new();
    let mut i: usize = 0;
    while i < items.len()
        invariant
            decls_wf(out@, len as nat),
            forall|k: int| 0 <= k < out@.len() ==> within_span(#[trigger] out@[k].span, outer),
        decreases items@.len() - i,
    {
        match convert_item(&items[i], len, outer, limit) {
            Some(d) => {
                out.push(d);
            },
            None => {},
        }
        i = i + 1;
    }
    out
}

/// The declaration that `item` stands for; `None` where its range does not
/// lie within a text of `len` bytes and within `outer`, or is not shorter
/// than `limit`.
fn convert_item(item: &ast::Item, len: usize, outer: Span, limit: usize) -> (r: Option<Decl>)
    ensures
        r matches Some(d) ==> decl_wf(d, len as nat) && d.span.end - d.span.start < limit
            && within_span(d.span, outer),
    decreases limit, 0usize,
{
    let span = range_span(item_range(item));
    if span.end > len || span.end - span.start >= limit || span.start < outer.start || span.end > outer.end {
        return None;
    }
    let size = span.end - span.start;
    let kind = item_kind(item);
    let head = match item_head(item) {
        Some(h) => if span.start <= h && h <= span.end {
            h
        } else {
            span.start
        },
        None => span.start,
    };
    let name = if matches!(kind, DeclKind::Use) {
        within(use_tree(item), len)
    } else {
        within(item_name(item), len)
    };
    let body_start = match within(fn_body(item), len) {
        Some(b) => if head <= b.start && b.start <= span.end {
            Some(b.start)
        } else {
            None
        },
        None => None,
    };
    let ranges = item_attrs(item);
    let mut attrs: Vec<Span> = Vec::new();
    let mut k: usize = 0;
    while k < ranges.len()
        invariant
            forall|j: int| 0 <= j < attrs@.len() ==> span_wf(#[trigger] attrs@[j], len as nat),
        decreases ranges@.len() - k,
    {
        match within(Some(ranges[k]), len) {
            Some(a) => attrs.push(a),
            None => {},
        }
        k = k + 1;
    }
    let (has_body, members) = match kind {
        DeclKind::Module => match module_items(item) {
            Some(children) => (true, convert_items(&children, len, span, size)),
            None => (false, Vec::new()),
        },
        DeclKind::Trait | DeclKind::Impl => match assoc_items(item) {
            Some(children) => {
                let mut rest = children;
                let mut read: Vec<ast::Item> = Vec::new();
                while rest.len() > 0
                    decreases rest@.len(),
                {
                    match rest.remove(0) {
                        Some(c) => read.push(c),
                        None => {},
                    }
                }
                (true, convert_items(&read, len, span, size))
            },
            None => (false, Vec::new()),
        },
        _ => (false, Vec::new()),
    };
    Some(
        Decl {
            kind,
            span,
            head,
            name,
            visibility: within(item_visibility(item), len),
            visibility_path: within(visibility_path(item), len),
            body_start,
            self_ty: within(impl_self_ty(item), len),
            trait_ref: within(impl_trait(item), len),
            attrs,
            has_body,
            members,
        },
    )
}

/// `e` is the diagnostic that the parser reported as `d` (message, start,
/// end) on a text of `len` bytes: severity `error`, and the range where it
/// lies within the text.
pub open spec fn diagnostic_of(e: ParseError, d: (Seq<char>, usize, usize), len: nat) -> bool {
    &&& e.message@ == d.0
    &&& e.severity@ == "error"@
    &&& e.span == if d.1 <= d.2 && d.2 <= len {
        Some(Span { start: d.1, end: d.2 })
    } else {
        None
    }
}

/// The diagnostics of the parser on `code`, one per reported diagnostic, in
/// order.
pub open spec fn diagnostics_are(ds: Seq<ParseError>, code: Seq<char>, len: nat) -> bool {
    &&& ds.len() == parser_diagnostics(code).len()
    &&& forall|i: int| 0 <= i < ds.len() ==> diagnostic_of(#[trigger] ds[i], parser_diagnostics(code)[i], len)
}

fn diagnostics_of(errors: &Vec<(String, usize, usize)>, len: usize) -> (r: Vec<ParseError>)
    ensures
        r@.len() == errors@.len(),
        forall|i: int| 0 <= i < r@.len() ==> {
            let (m, s, e) = errors@[i];
            diagnostic_of(#[trigger] r@[i], (m@, s, e), len as nat)
        },
{
    let mut out: Vec<ParseError> = Vec::new();
    let mut i: usize = 0;
    while i < errors.len()
        invariant
            i <= errors@.len(),
            out@.len() == i,
            forall|k: int| 0 <= k < i ==> {
                let (m, s, e) = errors@[k];
                diagnostic_of(#[trigger] out@[k], (m@, s, e), len as nat)
            },
        decreases errors@.len() - i,
    {
        let (m, s, e) = &errors[i];
        let span = if *s <= *e && *e <= len {
            Some(Span { start: *s, end: *e })
        } else {
            None
        };
        out.push(ParseError { message: m.clone(), severity: "error".to_owned(), span });
        i = i + 1;
    }
    out
}

/// Parses `code` and reads the tree into declarations; returns them with
/// the parser's diagnostics. The parser counts offsets in `u32`, so the
/// text may be at most `u32::MAX` bytes long.
pub fn parse_source(code: &str) -> (r: (Vec<Decl>, Vec<ParseError>))
    requires
        code.spec_bytes().len() <= u32::MAX,
    ensures
        decls_wf(r.0@, code.spec_bytes().len()),
        diagnostics_are(r.1@, code@, code.spec_bytes().len()),
{
    let len = code.as_bytes().len();
    let (items, errors) = parse_file(code);
    let decls = convert_items(&items, len, Span { start: 0, end: len }, usize::MAX);
    (decls, diagnostics_of(&errors, len))
}

} // verus!
