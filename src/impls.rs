//! Association of `impl` blocks with the data types they extend. The match
//! is textual: a block is taken to extend every struct, enum or union whose
//! name occurs in the text of its implementing type. Generic and qualified
//! types (`Wrapper<T>`, `crate::a::Wrapper`) are caught that way, and so is a
//! type whose name merely contains another type's name.
use crate::classify::{function_item, function_item_of};
use crate::model::ItemInfo;
use crate::syntax::{decl_wf, span_bytes, span_wf, Decl, DeclKind, Span};
use crate::text::{contains, contains_exec, slice_range};
use crate::visibility::{is_included, modifier_bytes, pub_crate_marker, pub_in_marker, pub_marker, pub_super_marker};
use vstd::prelude::*;

verus! {

/// The `impl` blocks among `ds` and, at any depth, inside the modules among
/// them, in source order.
pub open spec fn file_impls(ds: Seq<Decl>) -> Seq<Decl>
    decreases ds,
{
    if ds.len() == 0 {
        seq![]
    } else {
        let d = ds.last();
        let own = if d.kind == DeclKind::Impl {
            seq![d]
        } else {
            seq![]
        };
        let nested = if d.kind == DeclKind::Module {
            file_impls(d.members@)
        } else {
            seq![]
        };
        file_impls(ds.drop_last()) + own + nested
    }
}

pub open spec fn is_adt_kind(k: DeclKind) -> bool {
    k == DeclKind::Struct || k == DeclKind::Enum || k == DeclKind::Union
}

/// The name ranges of the structs, enums and unions among `ds` and inside
/// the modules among them, in source order.
pub open spec fn file_adt_names(ds: Seq<Decl>) -> Seq<Span>
    decreases ds,
{
    if ds.len() == 0 {
        seq![]
    } else {
        let d = ds.last();
        let own = match d.name {
            Some(n) => if is_adt_kind(d.kind) {
                seq![n]
            } else {
                seq![]
            },
            None => seq![],
        };
        let nested = if d.kind == DeclKind::Module {
            file_adt_names(d.members@)
        } else {
            seq![]
        };
        file_adt_names(ds.drop_last()) + own + nested
    }
}

/// The declaration's modifier, if any, makes it private.
pub open spec fn decl_is_private(text: Seq<u8>, d: Decl) -> bool {
    match modifier_bytes(text, d.visibility) {
        None => true,
        Some(t) => !contains(t, pub_crate_marker()) && !contains(t, pub_super_marker()) && !contains(
            t,
            pub_in_marker(),
        ) && !contains(t, pub_marker()),
    }
}

/// The declaration is indexed under the given policy.
pub open spec fn decl_included(text: Seq<u8>, d: Decl, include_private: bool) -> bool {
    include_private || !decl_is_private(text, d)
}

/// The named, indexed functions among the members of an `impl` block.
pub open spec fn method_decls(text: Seq<u8>, ms: Seq<Decl>, include_private: bool) -> Seq<Decl>
    decreases ms.len(),
{
    if ms.len() == 0 {
        seq![]
    } else {
        let rest = method_decls(text, ms.drop_last(), include_private);
        let d = ms.last();
        if d.kind == DeclKind::Function && d.name is Some && decl_included(text, d, include_private) {
            rest.push(d)
        } else {
            rest
        }
    }
}

/// The `impl` block `d` extends a type whose name is `n`.
pub open spec fn extends(text: Seq<u8>, d: Decl, n: Seq<u8>) -> bool {
    d.self_ty matches Some(t) && contains(span_bytes(text, t), n)
}

/// The method declarations that the blocks `impls`, in order, give a type
/// named `n`.
pub open spec fn adt_method_decls(text: Seq<u8>, impls: Seq<Decl>, n: Seq<u8>, include_private: bool) -> Seq<Decl>
    decreases impls.len(),
{
    if impls.len() == 0 {
        seq![]
    } else {
        let rest = adt_method_decls(text, impls.drop_last(), n, include_private);
        let d = impls.last();
        if extends(text, d, n) {
            rest + method_decls(text, d.members@, include_private)
        } else {
            rest
        }
    }
}

/// `out` holds the function items of the declarations `ds`, in order.
pub open spec fn methods_are(out: Seq<ItemInfo>, text: Seq<u8>, ds: Seq<Decl>) -> bool {
    &&& out.len() == ds.len()
    &&& forall|i: int| 0 <= i < ds.len() ==> function_item_of(#[trigger] out[i], text, ds[i])
}

/// The `impl` block `d` extends one of the types named at `names`.
pub open spec fn attached(text: Seq<u8>, d: Decl, names: Seq<Span>) -> bool {
    exists|k: int| 0 <= k < names.len() && extends(text, d, span_bytes(text, #[trigger] names[k]))
}

/// The declarations that a list of references points to.
pub open spec fn derefs(s: Seq<&Decl>) -> Seq<Decl> {
    s.map_values(|r: &Decl| *r)
}

/// Appends to `out` the `impl` blocks of `ds`, at any depth of inline
/// modules, in source order.
pub fn collect_impls<'a>(ds: &'a Vec<Decl>, out: &mut Vec<&'a Decl>)
    ensures
        derefs(final(out)@) == derefs(old(out)@) + file_impls(ds@),
    decreases ds@,
{
    let mut i: usize = 0;
    while i < ds.len()
        invariant
            i <= ds@.len(),
            derefs(out@) == derefs(old(out)@) + file_impls(ds@.subrange(0, i as int)),
        decreases ds@.len() - i,
    {
        let d = &ds[i];
        let ghost pre = ds@.subrange(0, i as int + 1);
        assert(pre.drop_last() =~= ds@.subrange(0, i as int));
        assert(pre.last() == ds@[i as int]);
        let ghost before = derefs(out@);
        if matches!(d.kind, DeclKind::Impl) {
            out.push(d);
            assert(derefs(out@) =~= before + seq![*d]);
        }
        let ghost mid = derefs(out@);
        if matches!(d.kind, DeclKind::Module) {
            assert(decreases_to!(ds@ => ds@[i as int].members@));
            collect_impls(&d.members, out);
        }
        assert(derefs(out@) =~= derefs(old(out)@) + file_impls(pre));
        i = i + 1;
    }
    assert(ds@.subrange(0, ds@.len() as int) =~= ds@);
}

/// Appends to `out` the name ranges of the structs, enums and unions of
/// `ds`, at any depth of inline modules, in source order.
pub fn collect_adt_names(ds: &Vec<Decl>, out: &mut Vec<Span>)
    ensures
        final(out)@ == old(out)@ + file_adt_names(ds@),
    decreases ds@,
{
    let mut i: usize = 0;
    while i < ds.len()
        invariant
            i <= ds@.len(),
            out@ == old(out)@ + file_adt_names(ds@.subrange(0, i as int)),
        decreases ds@.len() - i,
    {
        let d = &ds[i];
        let ghost pre = ds@.subrange(0, i as int + 1);
        assert(pre.drop_last() =~= ds@.subrange(0, i as int));
        assert(pre.last() == ds@[i as int]);
        let ghost before = out@;
        match d.name {
            Some(n) => {
                if matches!(d.kind, DeclKind::Struct | DeclKind::Enum | DeclKind::Union) {
                    out.push(n);
                }
            },
            None => {},
        }
        if matches!(d.kind, DeclKind::Module) {
            assert(decreases_to!(ds@ => ds@[i as int].members@));
            collect_adt_names(&d.members, out);
        }
        assert(out@ =~= old(out)@ + file_adt_names(pre));
        i = i + 1;
    }
    assert(ds@.subrange(0, ds@.len() as int) =~= ds@);
}

/// Whether the `impl` block `d` extends the type whose name is at `n`.
fn extends_exec(text: &[u8], d: &Decl, n: Span) -> (r: bool)
    requires
        decl_wf(*d, text@.len()),
        span_wf(n, text@.len()),
    ensures
        r == extends(text@, *d, span_bytes(text@, n)),
{
    match d.self_ty {
        Some(t) => contains_exec(text, t.start, t.end, slice_range(text, n.start, n.end)),
        None => false,
    }
}

/// Whether the `impl` block `d` extends one of the types named at `names`.
pub fn is_attached(text: &[u8], d: &Decl, names: &Vec<Span>) -> (r: bool)
    requires
        decl_wf(*d, text@.len()),
        forall|k: int| 0 <= k < names@.len() ==> span_wf(#[trigger] names@[k], text@.len()),
    ensures
        r == attached(text@, *d, names@),
{
    let mut k: usize = 0;
    while k < names.len()
        invariant
            k <= names@.len(),
            decl_wf(*d, text@.len()),
            forall|j: int| 0 <= j < names@.len() ==> span_wf(#[trigger] names@[j], text@.len()),
            forall|j: int| 0 <= j < k ==> !extends(text@, *d, span_bytes(text@, #[trigger] names@[j])),
        decreases names@.len() - k,
    {
        if extends_exec(text, d, names[k]) {
            return true;
        }
        k = k + 1;
    }
    false
}

/// Appends to `out` the items of the named, indexed functions among the
/// members `ms` of an `impl` block.
fn push_methods(text: &[u8], ms: &Vec<Decl>, include_private: bool, out: &mut Vec<ItemInfo>, Ghost(prev): Ghost<Seq<Decl>>)
    requires
        forall|i: int| 0 <= i < ms@.len() ==> decl_wf(#[trigger] ms@[i], text@.len()),
        methods_are(old(out)@, text@, prev),
    ensures
        methods_are(final(out)@, text@, prev + method_decls(text@, ms@, include_private)),
{
    let mut i: usize = 0;
    while i < ms.len()
        invariant
            i <= ms@.len(),
            forall|k: int| 0 <= k < ms@.len() ==> decl_wf(#[trigger] ms@[k], text@.len()),
            methods_are(out@, text@, prev + method_decls(text@, ms@.subrange(0, i as int), include_private)),
        decreases ms@.len() - i,
    {
        let d = &ms[i];
        let ghost pre = ms@.subrange(0, i as int + 1);
        assert(pre.drop_last() =~= ms@.subrange(0, i as int));
        assert(pre.last() == ms@[i as int]);
        assert(decl_wf(*d, text@.len()));
        let ghost sel = prev + method_decls(text@, ms@.subrange(0, i as int), include_private);
        if matches!(d.kind, DeclKind::Function) {
            match function_item(text, d) {
                Some(it) => {
                    if is_included(&it.visibility, include_private) {
                        let ghost old_out = out@;
                        out.push(it);
                        assert(prev + method_decls(text@, pre, include_private) =~= sel.push(*d));
                        assert(forall|k: int| 0 <= k < old_out.len() ==> out@[k] == old_out[k]);
                    }
                },
                None => {},
            }
        }
        i = i + 1;
    }
    assert(ms@.subrange(0, ms@.len() as int) =~= ms@);
}

/// The methods that the `impl` blocks `impls` give the type whose name is
/// at `n`: the named functions of each block that extends it, under the
/// inclusion policy, blocks in order and functions in order.
pub fn adt_methods(text: &[u8], impls: &Vec<&Decl>, n: Span, include_private: bool) -> (r: Vec<ItemInfo>)
    requires
        forall|k: int| 0 <= k < impls@.len() ==> decl_wf(*#[trigger] impls@[k], text@.len()),
        span_wf(n, text@.len()),
    ensures
        methods_are(r@, text@, adt_method_decls(text@, derefs(impls@), span_bytes(text@, n), include_private)),
{
    let mut out: Vec<ItemInfo> = Vec::new();
    let mut i: usize = 0;
    let ghost nb = span_bytes(text@, n);
    while i < impls.len()
        invariant
            i <= impls@.len(),
            forall|k: int| 0 <= k < impls@.len() ==> decl_wf(*#[trigger] impls@[k], text@.len()),
            span_wf(n, text@.len()),
            nb == span_bytes(text@, n),
            methods_are(out@, text@, adt_method_decls(text@, derefs(impls@.subrange(0, i as int)), nb, include_private)),
        decreases impls@.len() - i,
    {
        let d = impls[i];
        let ghost pre = derefs(impls@.subrange(0, i as int + 1));
        assert(pre.drop_last() =~= derefs(impls@.subrange(0, i as int)));
        assert(pre.last() == *impls@[i as int]);
        assert(decl_wf(*d, text@.len()));
        if extends_exec(text, d, n) {
            assert forall|k: int| 0 <= k < d.members@.len() implies decl_wf(#[trigger] d.members@[k], text@.len()) by {}
            push_methods(text, &d.members, include_private, &mut out, Ghost(adt_method_decls(text@, derefs(impls@.subrange(0, i as int)), nb, include_private)));
        }
        i = i + 1;
    }
    assert(impls@.subrange(0, impls@.len() as int) =~= impls@);
    out
}

} // verus!
