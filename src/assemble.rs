//! Assembly of the nested module tree: each scope's items and module
//! references, in declaration order.
use crate::classify::{
    common_fields_of, function_item, function_item_of, item_with, name_bytes,
    other_item, other_item_of, trait_methods, trait_methods_are,
};
use crate::impls::{
    adt_method_decls, adt_methods, attached, collect_adt_names, collect_impls, decl_included,
    derefs, file_adt_names, file_impls, is_adt_kind, is_attached, methods_are,
};
use crate::model::{
    AdtKind, FileInfo, ItemDetails, ItemInfo, ModuleDetails, ModuleReference, StructDetails,
    TraitDetails,
};
use crate::syntax::{decl_wf, decls_wf, span_bytes, span_wf, Decl, DeclKind, Span};
use crate::text::{slice_range, string_from_bytes, utf8_lossy};
use crate::visibility::{classify_visibility, is_included, visibility_of};
use vstd::prelude::*;

verus! {

/// `.rs`
pub open spec fn rs_suffix() -> Seq<u8> {
    seq![46u8, 114u8, 115u8]
}

/// `/mod.rs`
pub open spec fn mod_rs_suffix() -> Seq<u8> {
    seq![47u8, 109u8, 111u8, 100u8, 46u8, 114u8, 115u8]
}

/// `r` is the reference of the body-less module `d`, declared in a scope
/// whose files lie under `prefix`.
pub open spec fn reference_of(r: ModuleReference, text: Seq<u8>, d: Decl, prefix: Seq<u8>) -> bool {
    &&& d.name matches Some(n) && {
        let name = span_bytes(text, n);
        &&& r.name@ == utf8_lossy(name)
        &&& r.expected_paths@.len() == 2
        &&& r.expected_paths@[0]@ == utf8_lossy(prefix + name + rs_suffix())
        &&& r.expected_paths@[1]@ == utf8_lossy(prefix + name + mod_rs_suffix())
    }
    &&& visibility_of(r.visibility, text, d.visibility, d.visibility_path)
    &&& r.span == d.span
}

/// `d` adds a module reference to its scope: a module without a body that
/// has a name and is indexed.
pub open spec fn adds_reference(text: Seq<u8>, d: Decl, include_private: bool) -> bool {
    &&& d.kind == DeclKind::Module
    &&& !d.has_body
    &&& d.name is Some
    &&& decl_included(text, d, include_private)
}

/// `d` adds an item to its scope: it is indexed, has the name it is listed
/// under, and is a function, data type, trait, inline module, import,
/// constant, static, type alias, or an `impl` block that extends no data
/// type of the file.
pub open spec fn adds_item(text: Seq<u8>, d: Decl, include_private: bool, names: Seq<Span>) -> bool {
    &&& decl_included(text, d, include_private)
    &&& name_bytes(text, d) is Some
    &&& match d.kind {
        DeclKind::Module => d.has_body,
        DeclKind::Impl => !attached(text, d, names),
        DeclKind::Unsupported => false,
        _ => true,
    }
}

pub open spec fn adt_kind_of(k: DeclKind) -> AdtKind {
    match k {
        DeclKind::Enum => AdtKind::Enum,
        DeclKind::Union => AdtKind::Union,
        _ => AdtKind::Struct,
    }
}

/// `it` is the item of `d`, which is not a module; `impls` are the file's
/// `impl` blocks.
pub open spec fn leaf_item_of(it: ItemInfo, text: Seq<u8>, d: Decl, impls: Seq<Decl>, include_private: bool) -> bool {
    if d.kind == DeclKind::Function {
        function_item_of(it, text, d)
    } else if is_adt_kind(d.kind) {
        &&& common_fields_of(it, text, d)
        &&& match (it.details, d.name) {
            (ItemDetails::AlgebraicDataType(sd), Some(n)) => sd.kind == adt_kind_of(d.kind)
                && methods_are(
                sd.methods@,
                text,
                adt_method_decls(text, impls, span_bytes(text, n), include_private),
            ),
            _ => false,
        }
    } else if d.kind == DeclKind::Trait {
        &&& common_fields_of(it, text, d)
        &&& it.details matches ItemDetails::Trait(td) && trait_methods_are(td.methods@, text, d.members@)
    } else {
        other_item_of(it, text, d)
    }
}

/// `items` and `refs` are the items and module references of a scope whose
/// declarations are `ds` and whose files lie under `prefix`, each list in
/// declaration order. An inline module's item holds the same for its body,
/// whose files lie under `prefix`, its name and `/`.
pub open spec fn scope_is(
    items: Seq<ItemInfo>,
    refs: Seq<ModuleReference>,
    ds: Seq<Decl>,
    text: Seq<u8>,
    impls: Seq<Decl>,
    names: Seq<Span>,
    include_private: bool,
    prefix: Seq<u8>,
) -> bool
    decreases ds,
{
    if ds.len() == 0 {
        items.len() == 0 && refs.len() == 0
    } else {
        let d = ds.last();
        let rest = ds.drop_last();
        if adds_reference(text, d, include_private) {
            &&& refs.len() > 0
            &&& reference_of(refs.last(), text, d, prefix)
            &&& scope_is(items, refs.drop_last(), rest, text, impls, names, include_private, prefix)
        } else if adds_item(text, d, include_private, names) {
            &&& items.len() > 0
            &&& scope_is(items.drop_last(), refs, rest, text, impls, names, include_private, prefix)
            &&& if d.kind == DeclKind::Module {
                let it = items.last();
                &&& common_fields_of(it, text, d)
                &&& match it.details {
                    ItemDetails::Module(md) => d.name matches Some(n) && scope_is(
                        md.items@,
                        md.module_references@,
                        d.members@,
                        text,
                        impls,
                        names,
                        include_private,
                        prefix + span_bytes(text, n) + seq![47u8],
                    ),
                    _ => false,
                }
            } else {
                leaf_item_of(items.last(), text, d, impls, include_private)
            }
        } else {
            scope_is(items, refs, rest, text, impls, names, include_private, prefix)
        }
    }
}

/// `f` is the index of a file whose top-level declarations are `ds`.
pub open spec fn file_info_is(f: FileInfo, text: Seq<u8>, ds: Seq<Decl>, include_private: bool) -> bool {
    scope_is(
        f.items@,
        f.module_references@,
        ds,
        text,
        file_impls(ds),
        file_adt_names(ds),
        include_private,
        seq![],
    )
}

fn push_bytes(out: &mut Vec<u8>, b: &[u8])
    ensures
        final(out)@ == old(out)@ + b@,
{
    let mut k: usize = 0;
    while k < b.len()
        invariant
            k <= b@.len(),
            out@ == old(out)@ + b@.subrange(0, k as int),
        decreases b@.len() - k,
    {
        out.push(b[k]);
        assert(b@.subrange(0, k + 1) =~= b@.subrange(0, k as int).push(b@[k as int]));
        k = k + 1;
    }
    assert(b@.subrange(0, b@.len() as int) =~= b@);
}

/// The reference of the body-less module `d`, named at `n`, in a scope whose
/// files lie under `prefix`.
fn module_reference(text: &[u8], d: &Decl, n: Span, prefix: &Vec<u8>) -> (r: ModuleReference)
    requires
        decl_wf(*d, text@.len()),
        d.name == Some(n),
    ensures
        reference_of(r, text@, *d, prefix@),
{
    let name = slice_range(text, n.start, n.end);
    let mut file: Vec<u8> = prefix.clone();
    push_bytes(&mut file, name);
    let mut dir: Vec<u8> = file.clone();
    file.push(46u8);
    file.push(114u8);
    file.push(115u8);
    assert(file@ =~= prefix@ + name@ + rs_suffix());
    dir.push(47u8);
    dir.push(109u8);
    dir.push(111u8);
    dir.push(100u8);
    dir.push(46u8);
    dir.push(114u8);
    dir.push(115u8);
    assert(dir@ =~= prefix@ + name@ + mod_rs_suffix());
    let mut expected_paths: Vec<String> = Vec::new();
    expected_paths.push(string_from_bytes(file.as_slice()));
    expected_paths.push(string_from_bytes(dir.as_slice()));
    ModuleReference {
        name: string_from_bytes(name),
        visibility: classify_visibility(text, d.visibility, d.visibility_path),
        expected_paths,
        span: d.span,
    }
}

/// The item of `d`, which is neither a module nor an `impl` block that
/// extends a data type of the file.
fn leaf_item(text: &[u8], d: &Decl, impls: &Vec<&Decl>, include_private: bool) -> (r: Option<ItemInfo>)
    requires
        decl_wf(*d, text@.len()),
        forall|k: int| 0 <= k < impls@.len() ==> decl_wf(*#[trigger] impls@[k], text@.len()),
        d.kind != DeclKind::Module,
        d.kind != DeclKind::Unsupported,
    ensures
        r is Some <==> name_bytes(text@, *d) is Some,
        r matches Some(it) ==> leaf_item_of(it, text@, *d, derefs(impls@), include_private),
{
    match d.kind {
        DeclKind::Function => function_item(text, d),
        DeclKind::Struct | DeclKind::Enum | DeclKind::Union => {
            match d.name {
                Some(n) => {
                    let kind = match d.kind {
                        DeclKind::Enum => AdtKind::Enum,
                        DeclKind::Union => AdtKind::Union,
                        _ => AdtKind::Struct,
                    };
                    let methods = adt_methods(text, impls, n, include_private);
                    item_with(
                        text,
                        d,
                        ItemDetails::AlgebraicDataType(StructDetails { kind, methods }),
                    )
                },
                None => None,
            }
        },
        DeclKind::Trait => {
            assert forall|k: int| 0 <= k < d.members@.len() implies decl_wf(
                #[trigger] d.members@[k],
                text@.len(),
            ) by {}
            let methods = trait_methods(text, &d.members);
            item_with(text, d, ItemDetails::Trait(TraitDetails { methods }))
        },
        _ => other_item(text, d),
    }
}

/// The items and module references of a scope whose declarations are `ds`
/// and whose files lie under `prefix`; `impls` and `names` are the file's
/// `impl` blocks and the name ranges of its data types.
pub fn assemble_scope(
    text: &[u8],
    ds: &Vec<Decl>,
    impls: &Vec<&Decl>,
    names: &Vec<Span>,
    include_private: bool,
    prefix: &Vec<u8>,
) -> (r: (Vec<ItemInfo>, Vec<ModuleReference>))
    requires
        decls_wf(ds@, text@.len()),
        forall|k: int| 0 <= k < impls@.len() ==> decl_wf(*#[trigger] impls@[k], text@.len()),
        forall|k: int| 0 <= k < names@.len() ==> span_wf(#[trigger] names@[k], text@.len()),
    ensures
        scope_is(r.0@, r.1@, ds@, text@, derefs(impls@), names@, include_private, prefix@),
    decreases ds@,
{
    let ghost imps = derefs(impls@);
    let mut items: Vec<ItemInfo> = Vec::new();
    let mut refs: Vec<ModuleReference> = Vec::new();
    let mut i: usize = 0;
    while i < ds.len()
        invariant
            i <= ds@.len(),
            decls_wf(ds@, text@.len()),
            forall|k: int| 0 <= k < impls@.len() ==> decl_wf(*#[trigger] impls@[k], text@.len()),
            forall|k: int| 0 <= k < names@.len() ==> span_wf(#[trigger] names@[k], text@.len()),
            imps == derefs(impls@),
            scope_is(items@, refs@, ds@.subrange(0, i as int), text@, imps, names@, include_private, prefix@),
        decreases ds@.len() - i,
    {
        let d = &ds[i];
        let ghost pre = ds@.subrange(0, i as int + 1);
        assert(pre.drop_last() =~= ds@.subrange(0, i as int));
        assert(pre.last() == ds@[i as int]);
        assert(decl_wf(*d, text@.len()));
        let ghost old_items = items@;
        let ghost old_refs = refs@;
        let vis = classify_visibility(text, d.visibility, d.visibility_path);
        let included = is_included(&vis, include_private);
        if !included {
        } else if matches!(d.kind, DeclKind::Module) {
            match d.name {
                None => {},
                Some(n) => {
                    if !d.has_body {
                        let r = module_reference(text, d, n, prefix);
                        refs.push(r);
                        assert(refs@.drop_last() =~= old_refs);
                    } else {
                        let mut inner: Vec<u8> = prefix.clone();
                        push_bytes(&mut inner, slice_range(text, n.start, n.end));
                        inner.push(47u8);
                        assert(inner@ =~= prefix@ + span_bytes(text@, n) + seq![47u8]);
                        assert(decreases_to!(ds@ => ds@[i as int].members@));
                        let (sub_items, sub_refs) = assemble_scope(
                            text,
                            &d.members,
                            impls,
                            names,
                            include_private,
                            &inner,
                        );
                        let details = ItemDetails::Module(
                            ModuleDetails { items: sub_items, module_references: sub_refs },
                        );
                        match item_with(text, d, details) {
                            Some(it) => {
                                items.push(it);
                                assert(items@.drop_last() =~= old_items);
                            },
                            None => {},
                        }
                    }
                },
            }
        } else if matches!(d.kind, DeclKind::Unsupported) {
        } else if matches!(d.kind, DeclKind::Impl) && is_attached(text, d, names) {
        } else {
            match leaf_item(text, d, impls, include_private) {
                Some(it) => {
                    items.push(it);
                    assert(items@.drop_last() =~= old_items);
                },
                None => {},
            }
        }
        i = i + 1;
    }
    assert(ds@.subrange(0, ds@.len() as int) =~= ds@);
    (items, refs)
}

/// The index of a file whose top-level declarations are `ds`: its items and
/// module references, each data type with the methods that the file's
/// `impl` blocks give it.
pub fn assemble_file(text: &[u8], ds: &Vec<Decl>, include_private: bool) -> (r: FileInfo)
    requires
        decls_wf(ds@, text@.len()),
    ensures
        file_info_is(r, text@, ds@, include_private),
{
    let mut impls: Vec<&Decl> = Vec::new();
    collect_impls(ds, &mut impls);
    assert(derefs(impls@) =~= file_impls(ds@)) by {
        assert(derefs(Seq::<&Decl>::empty()) =~= Seq::<Decl>::empty());
    }
    let mut names: Vec<Span> = Vec::new();
    collect_adt_names(ds, &mut names);
    assert(names@ =~= file_adt_names(ds@));
    proof {
        lemma_file_impls_wf(ds@, text@.len());
        lemma_file_adt_names_wf(ds@, text@.len());
    }
    assert forall|k: int| 0 <= k < impls@.len() implies decl_wf(*#[trigger] impls@[k], text@.len()) by {
        assert(derefs(impls@)[k] == *impls@[k]);
    }
    let empty: Vec<u8> = Vec::new();
    assert(empty@ =~= Seq::<u8>::empty());
    let (items, module_references) = assemble_scope(text, ds, &impls, &names, include_private, &empty);
    FileInfo { items, module_references }
}

/// The `impl` blocks of well-formed declarations are well formed.
pub proof fn lemma_file_impls_wf(ds: Seq<Decl>, len: nat)
    requires
        decls_wf(ds, len),
    ensures
        decls_wf(file_impls(ds), len),
    decreases ds,
{
    if ds.len() > 0 {
        let d = ds.last();
        lemma_file_impls_wf(ds.drop_last(), len);
        assert(decl_wf(d, len));
        if d.kind == DeclKind::Module {
            assert(decreases_to!(ds => ds.last().members@));
            lemma_file_impls_wf(d.members@, len);
        }
        let own = if d.kind == DeclKind::Impl {
            seq![d]
        } else {
            seq![]
        };
        let nested = if d.kind == DeclKind::Module {
            file_impls(d.members@)
        } else {
            seq![]
        };
        let all = file_impls(ds.drop_last()) + own + nested;
        assert forall|i: int| 0 <= i < all.len() implies decl_wf(#[trigger] all[i], len) by {
            let a = file_impls(ds.drop_last()).len();
            if i < a {
                assert(all[i] == file_impls(ds.drop_last())[i]);
            } else if i < a + own.len() {
                assert(all[i] == own[i - a]);
            } else {
                assert(all[i] == nested[i - a - own.len()]);
            }
        }
    }
}

/// The name ranges of the data types of well-formed declarations lie within
/// the text.
pub proof fn lemma_file_adt_names_wf(ds: Seq<Decl>, len: nat)
    requires
        decls_wf(ds, len),
    ensures
        forall|k: int| 0 <= k < file_adt_names(ds).len() ==> span_wf(#[trigger] file_adt_names(ds)[k], len),
    decreases ds,
{
    if ds.len() > 0 {
        let d = ds.last();
        lemma_file_adt_names_wf(ds.drop_last(), len);
        assert(decl_wf(d, len));
        if d.kind == DeclKind::Module {
            assert(decreases_to!(ds => ds.last().members@));
            lemma_file_adt_names_wf(d.members@, len);
        }
        let own = match d.name {
            Some(n) => if is_adt_kind(d.kind) {
                seq![n]
            } else {
                seq![]
            },
            None => seq![],
        };
        let nested = if d.kind == DeclKind::Module {
            file_adt_names(d.members@)
        } else {
            seq![]
        };
        let all = file_adt_names(ds.drop_last()) + own + nested;
        assert forall|i: int| 0 <= i < all.len() implies span_wf(#[trigger] all[i], len) by {
            let a = file_adt_names(ds.drop_last()).len();
            if i < a {
                assert(all[i] == file_adt_names(ds.drop_last())[i]);
            } else if i < a + own.len() {
                assert(all[i] == own[i - a]);
            } else {
                assert(all[i] == nested[i - a - own.len()]);
            }
        }
    }
}

} // verus!
