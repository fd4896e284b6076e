//! Properties of the index as a whole, proved from the contracts of its
//! parts.
use crate::assemble::{adds_item, adds_reference, file_info_is, leaf_item_of, scope_is};
use crate::classify::{function_item_of, named_functions, trait_method_of};
use crate::impls::{adt_method_decls, file_adt_names, file_impls, is_adt_kind, method_decls, methods_are};
use crate::model::{FileInfo, ItemDetails, ItemInfo, ModuleReference, Visibility};
use crate::syntax::{decl_wf, decls_wf, span_bytes, span_wf, within_span, Decl, DeclKind, Span};
use vstd::prelude::*;

verus! {

/// The span of `it`, and those of its methods and, for an inline module, of
/// everything in it, lie within a text of `len` bytes; a trait's methods
/// lie within the trait.
pub open spec fn item_spans_within(it: ItemInfo, len: nat) -> bool
    decreases it,
{
    &&& span_wf(it.span, len)
    &&& match it.details {
        ItemDetails::AlgebraicDataType(sd) => forall|i: int|
            0 <= i < sd.methods@.len() ==> item_spans_within(#[trigger] sd.methods@[i], len),
        ItemDetails::Trait(td) => forall|i: int|
            0 <= i < td.methods@.len() ==> span_wf(#[trigger] td.methods@[i].span, len)
                && within_span(td.methods@[i].span, it.span),
        ItemDetails::Module(md) => {
            &&& forall|i: int|
                0 <= i < md.items@.len() ==> item_spans_within(#[trigger] md.items@[i], len)
            &&& forall|i: int|
                0 <= i < md.module_references@.len() ==> span_wf(
                    #[trigger] md.module_references@[i].span,
                    len,
                )
        },
        _ => true,
    }
}

pub open spec fn items_spans_within(items: Seq<ItemInfo>, len: nat) -> bool {
    forall|i: int| 0 <= i < items.len() ==> item_spans_within(#[trigger] items[i], len)
}

pub open spec fn refs_spans_within(refs: Seq<ModuleReference>, len: nat) -> bool {
    forall|i: int| 0 <= i < refs.len() ==> span_wf(#[trigger] refs[i].span, len)
}

proof fn lemma_named_functions_wf(ms: Seq<Decl>, len: nat, outer: Span)
    requires
        decls_wf(ms, len),
        forall|i: int| 0 <= i < ms.len() ==> within_span(#[trigger] ms[i].span, outer),
    ensures
        decls_wf(named_functions(ms), len),
        forall|i: int| 0 <= i < named_functions(ms).len() ==> within_span(#[trigger] named_functions(ms)[i].span, outer),
    decreases ms.len(),
{
    if ms.len() > 0 {
        lemma_named_functions_wf(ms.drop_last(), len, outer);
        assert(decl_wf(ms.last(), len));
        assert(within_span(ms.last().span, outer));
    }
}

proof fn lemma_method_decls_wf(text: Seq<u8>, ms: Seq<Decl>, include_private: bool)
    requires
        decls_wf(ms, text.len()),
    ensures
        decls_wf(method_decls(text, ms, include_private), text.len()),
    decreases ms.len(),
{
    if ms.len() > 0 {
        lemma_method_decls_wf(text, ms.drop_last(), include_private);
        assert(decl_wf(ms.last(), text.len()));
    }
}

proof fn lemma_adt_method_decls_wf(text: Seq<u8>, impls: Seq<Decl>, n: Seq<u8>, include_private: bool)
    requires
        decls_wf(impls, text.len()),
    ensures
        decls_wf(adt_method_decls(text, impls, n, include_private), text.len()),
    decreases impls.len(),
{
    if impls.len() > 0 {
        let d = impls.last();
        lemma_adt_method_decls_wf(text, impls.drop_last(), n, include_private);
        assert(decl_wf(d, text.len()));
        lemma_method_decls_wf(text, d.members@, include_private);
        let a = adt_method_decls(text, impls.drop_last(), n, include_private);
        let b = method_decls(text, d.members@, include_private);
        assert forall|i: int| 0 <= i < a.len() + b.len() implies decl_wf(#[trigger] (a + b)[i], text.len()) by {
            if i < a.len() {
                assert((a + b)[i] == a[i]);
            } else {
                assert((a + b)[i] == b[i - a.len()]);
            }
        }
    }
}

/// The spans of a scope's items and references lie within the text.
proof fn lemma_scope_spans_within(
    items: Seq<ItemInfo>,
    refs: Seq<ModuleReference>,
    ds: Seq<Decl>,
    text: Seq<u8>,
    impls: Seq<Decl>,
    names: Seq<Span>,
    include_private: bool,
    prefix: Seq<u8>,
)
    requires
        decls_wf(ds, text.len()),
        decls_wf(impls, text.len()),
        scope_is(items, refs, ds, text, impls, names, include_private, prefix),
    ensures
        items_spans_within(items, text.len()),
        refs_spans_within(refs, text.len()),
    decreases ds,
{
    let len = text.len();
    if ds.len() > 0 {
        let d = ds.last();
        let rest = ds.drop_last();
        assert(decl_wf(d, len));
        assert(decls_wf(rest, len)) by {
            assert forall|i: int| 0 <= i < rest.len() implies decl_wf(#[trigger] rest[i], len) by {
                assert(rest[i] == ds[i]);
            }
        }
        if adds_reference(text, d, include_private) {
            lemma_scope_spans_within(items, refs.drop_last(), rest, text, impls, names, include_private, prefix);
            assert forall|i: int| 0 <= i < refs.len() implies span_wf(#[trigger] refs[i].span, len) by {
                if i < refs.len() - 1 {
                    assert(refs[i] == refs.drop_last()[i]);
                }
            }
        } else if adds_item(text, d, include_private, names) {
            lemma_scope_spans_within(items.drop_last(), refs, rest, text, impls, names, include_private, prefix);
            let it = items.last();
            if d.kind == DeclKind::Module {
                match it.details {
                    ItemDetails::Module(md) => {
                        let n = d.name->0;
                        assert(decreases_to!(ds => ds.last().members@));
                        assert(decls_wf(d.members@, len));
                        lemma_scope_spans_within(
                            md.items@,
                            md.module_references@,
                            d.members@,
                            text,
                            impls,
                            names,
                            include_private,
                            prefix + span_bytes(text, n) + seq![47u8],
                        );
                    },
                    _ => {},
                }
            } else {
                assert(leaf_item_of(it, text, d, impls, include_private));
                if is_adt_kind(d.kind) {
                    let n = d.name->0;
                    lemma_adt_method_decls_wf(text, impls, span_bytes(text, n), include_private);
                    let sel = adt_method_decls(text, impls, span_bytes(text, n), include_private);
                    match it.details {
                        ItemDetails::AlgebraicDataType(sd) => {
                            assert forall|i: int| 0 <= i < sd.methods@.len() implies item_spans_within(
                                #[trigger] sd.methods@[i],
                                len,
                            ) by {
                                assert(decl_wf(sel[i], len));
                            }
                        },
                        _ => {},
                    }
                } else if d.kind == DeclKind::Trait {
                    assert(decls_wf(d.members@, len));
                    lemma_named_functions_wf(d.members@, len, d.span);
                    let fs = named_functions(d.members@);
                    match it.details {
                        ItemDetails::Trait(td) => {
                            assert forall|i: int| 0 <= i < td.methods@.len() implies span_wf(
                                #[trigger] td.methods@[i].span,
                                len,
                            ) && within_span(td.methods@[i].span, it.span) by {
                                assert(decl_wf(fs[i], len));
                                assert(within_span(fs[i].span, d.span));
                            }
                        },
                        _ => {},
                    }
                }
            }
            assert(item_spans_within(it, len));
            assert forall|i: int| 0 <= i < items.len() implies item_spans_within(#[trigger] items[i], len) by {
                if i < items.len() - 1 {
                    assert(items[i] == items.drop_last()[i]);
                }
            }
        } else {
            lemma_scope_spans_within(items, refs, rest, text, impls, names, include_private, prefix);
        }
    }
}

/// Span validity: in the index of a file, every item, method and module
/// reference, at any depth, has a span `start <= end <= length of the text`.
pub proof fn lemma_file_spans_within_text(f: FileInfo, text: Seq<u8>, ds: Seq<Decl>, include_private: bool)
    requires
        decls_wf(ds, text.len()),
        file_info_is(f, text, ds, include_private),
    ensures
        items_spans_within(f.items@, text.len()),
        refs_spans_within(f.module_references@, text.len()),
{
    crate::assemble::lemma_file_impls_wf(ds, text.len());
    lemma_scope_spans_within(
        f.items@,
        f.module_references@,
        ds,
        text,
        file_impls(ds),
        file_adt_names(ds),
        include_private,
        seq![],
    );
}

pub open spec fn same_text(a: Option<String>, b: Option<String>) -> bool {
    match (a, b) {
        (Some(x), Some(y)) => x@ == y@,
        (None, None) => true,
        _ => false,
    }
}

pub open spec fn same_visibility(a: Visibility, b: Visibility) -> bool {
    match (a, b) {
        (Visibility::Private, Visibility::Private) => true,
        (Visibility::PublicCrate, Visibility::PublicCrate) => true,
        (Visibility::PublicSuper, Visibility::PublicSuper) => true,
        (Visibility::PublicIn(x), Visibility::PublicIn(y)) => x@ == y@,
        (Visibility::Public, Visibility::Public) => true,
        _ => false,
    }
}

pub open spec fn same_reference(a: ModuleReference, b: ModuleReference) -> bool {
    &&& a.name@ == b.name@
    &&& same_visibility(a.visibility, b.visibility)
    &&& a.expected_paths@.len() == b.expected_paths@.len()
    &&& forall|i: int| 0 <= i < a.expected_paths@.len() ==> #[trigger] a.expected_paths@[i]@ == b.expected_paths@[i]@
    &&& a.span == b.span
}

pub open spec fn same_references(a: Seq<ModuleReference>, b: Seq<ModuleReference>) -> bool {
    a.len() == b.len() && forall|i: int| 0 <= i < a.len() ==> same_reference(#[trigger] a[i], b[i])
}

/// `a` and `b` hold the same text in every field, at any depth.
pub open spec fn same_item(a: ItemInfo, b: ItemInfo) -> bool
    decreases a,
{
    &&& a.name@ == b.name@
    &&& a.raw_text@ == b.raw_text@
    &&& same_text(a.doc_comment, b.doc_comment)
    &&& same_visibility(a.visibility, b.visibility)
    &&& a.span == b.span
    &&& match (a.details, b.details) {
        (ItemDetails::Function(x), ItemDetails::Function(y)) => x.signature@ == y.signature@,
        (ItemDetails::AlgebraicDataType(x), ItemDetails::AlgebraicDataType(y)) => {
            &&& x.kind == y.kind
            &&& x.methods@.len() == y.methods@.len()
            &&& forall|i: int| 0 <= i < x.methods@.len() ==> same_item(#[trigger] x.methods@[i], y.methods@[i])
        },
        (ItemDetails::Trait(x), ItemDetails::Trait(y)) => {
            &&& x.methods@.len() == y.methods@.len()
            &&& forall|i: int| 0 <= i < x.methods@.len() ==> {
                let (m, n) = (#[trigger] x.methods@[i], y.methods@[i]);
                m.name@ == n.name@ && m.signature@ == n.signature@ && same_text(m.doc_comment, n.doc_comment)
                    && m.span == n.span
            }
        },
        (ItemDetails::Module(x), ItemDetails::Module(y)) => {
            &&& x.items@.len() == y.items@.len()
            &&& forall|i: int| 0 <= i < x.items@.len() ==> same_item(#[trigger] x.items@[i], y.items@[i])
            &&& same_references(x.module_references@, y.module_references@)
        },
        (ItemDetails::Other(x), ItemDetails::Other(y)) => x.item_type@ == y.item_type@,
        _ => false,
    }
}

pub open spec fn same_items(a: Seq<ItemInfo>, b: Seq<ItemInfo>) -> bool {
    a.len() == b.len() && forall|i: int| 0 <= i < a.len() ==> same_item(#[trigger] a[i], b[i])
}

proof fn lemma_same_function_items(a: Seq<ItemInfo>, b: Seq<ItemInfo>, text: Seq<u8>, ds: Seq<Decl>)
    requires
        methods_are(a, text, ds),
        methods_are(b, text, ds),
    ensures
        a.len() == b.len(),
        forall|i: int| 0 <= i < a.len() ==> same_item(#[trigger] a[i], b[i]),
{
    assert forall|i: int| 0 <= i < a.len() implies same_item(#[trigger] a[i], b[i]) by {
        assert(function_item_of(a[i], text, ds[i]));
        assert(function_item_of(b[i], text, ds[i]));
    }
}

/// Two lists that meet the description of one scope hold the same text.
proof fn lemma_scope_determined(
    items: Seq<ItemInfo>,
    refs: Seq<ModuleReference>,
    items2: Seq<ItemInfo>,
    refs2: Seq<ModuleReference>,
    ds: Seq<Decl>,
    text: Seq<u8>,
    impls: Seq<Decl>,
    names: Seq<Span>,
    include_private: bool,
    prefix: Seq<u8>,
)
    requires
        scope_is(items, refs, ds, text, impls, names, include_private, prefix),
        scope_is(items2, refs2, ds, text, impls, names, include_private, prefix),
    ensures
        same_items(items, items2),
        same_references(refs, refs2),
    decreases ds,
{
    if ds.len() > 0 {
        let d = ds.last();
        let rest = ds.drop_last();
        if adds_reference(text, d, include_private) {
            lemma_scope_determined(items, refs.drop_last(), items2, refs2.drop_last(), rest, text, impls, names, include_private, prefix);
            let (r1, r2) = (refs.last(), refs2.last());
            assert(same_reference(r1, r2));
            assert forall|i: int| 0 <= i < refs.len() implies same_reference(#[trigger] refs[i], refs2[i]) by {
                if i < refs.len() - 1 {
                    assert(refs[i] == refs.drop_last()[i]);
                    assert(refs2[i] == refs2.drop_last()[i]);
                }
            }
        } else if adds_item(text, d, include_private, names) {
            lemma_scope_determined(items.drop_last(), refs, items2.drop_last(), refs2, rest, text, impls, names, include_private, prefix);
            let (a, b) = (items.last(), items2.last());
            if d.kind == DeclKind::Module {
                match (a.details, b.details) {
                    (ItemDetails::Module(x), ItemDetails::Module(y)) => {
                        let n = d.name->0;
                        assert(decreases_to!(ds => ds.last().members@));
                        lemma_scope_determined(
                            x.items@,
                            x.module_references@,
                            y.items@,
                            y.module_references@,
                            d.members@,
                            text,
                            impls,
                            names,
                            include_private,
                            prefix + span_bytes(text, n) + seq![47u8],
                        );
                    },
                    _ => {},
                }
            } else {
                assert(leaf_item_of(a, text, d, impls, include_private));
                assert(leaf_item_of(b, text, d, impls, include_private));
                if is_adt_kind(d.kind) {
                    let n = d.name->0;
                    let sel = adt_method_decls(text, impls, span_bytes(text, n), include_private);
                    match (a.details, b.details) {
                        (ItemDetails::AlgebraicDataType(x), ItemDetails::AlgebraicDataType(y)) => {
                            lemma_same_function_items(x.methods@, y.methods@, text, sel);
                        },
                        _ => {},
                    }
                } else if d.kind == DeclKind::Trait {
                    let fs = named_functions(d.members@);
                    match (a.details, b.details) {
                        (ItemDetails::Trait(x), ItemDetails::Trait(y)) => {
                            assert forall|i: int| 0 <= i < x.methods@.len() implies {
                                let (m, n) = (#[trigger] x.methods@[i], y.methods@[i]);
                                m.name@ == n.name@ && m.signature@ == n.signature@ && same_text(m.doc_comment, n.doc_comment)
                                    && m.span == n.span
                            } by {
                                assert(trait_method_of(x.methods@[i], text, fs[i]));
                                assert(trait_method_of(y.methods@[i], text, fs[i]));
                            }
                        },
                        _ => {},
                    }
                }
            }
            assert(same_item(a, b));
            assert forall|i: int| 0 <= i < items.len() implies same_item(#[trigger] items[i], items2[i]) by {
                if i < items.len() - 1 {
                    assert(items[i] == items.drop_last()[i]);
                    assert(items2[i] == items2.drop_last()[i]);
                }
            }
        } else {
            lemma_scope_determined(items, refs, items2, refs2, rest, text, impls, names, include_private, prefix);
        }
    }
}

/// Determinism: the index of a file is fixed by the file's text, its
/// declarations and the inclusion policy. Two indexes built from the same
/// ones hold the same text in every field, at any depth.
pub proof fn lemma_index_is_determined(f: FileInfo, g: FileInfo, text: Seq<u8>, ds: Seq<Decl>, include_private: bool)
    requires
        file_info_is(f, text, ds, include_private),
        file_info_is(g, text, ds, include_private),
    ensures
        same_items(f.items@, g.items@),
        same_references(f.module_references@, g.module_references@),
{
    lemma_scope_determined(
        f.items@,
        f.module_references@,
        g.items@,
        g.module_references@,
        ds,
        text,
        file_impls(ds),
        file_adt_names(ds),
        include_private,
        seq![],
    );
}

} // verus!
