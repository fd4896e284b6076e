//! Classification of one declaration into an indexed item.
use crate::docs::{doc_comment, doc_comment_is};
use crate::model::{FunctionDetails, ItemDetails, ItemInfo, OtherDetails, TraitMethodInfo};
use crate::syntax::{decl_wf, span_bytes, span_wf, Decl, DeclKind, Span};
use crate::text::{string_from_bytes, trim_end, utf8_lossy};
use crate::visibility::{classify_visibility, visibility_of};
use vstd::prelude::*;

verus! {

/// The signature of a function: its text from its head (the comments that
/// the parser attached to it left out) up to where its body begins,
/// without trailing whitespace; up to its end where it has no body.
pub open spec fn signature_bytes(text: Seq<u8>, d: Decl) -> Seq<u8> {
    match d.body_start {
        Some(b) => trim_end(text.subrange(d.head as int, b as int)),
        None => text.subrange(d.head as int, d.span.end as int),
    }
}

/// ` for `
pub open spec fn for_word() -> Seq<u8> {
    seq![32u8, 102u8, 111u8, 114u8, 32u8]
}

/// The name under which a declaration is listed: an `impl` block's
/// `<Trait> for <Type>`, or `<Type>` where it implements no trait; an
/// import's use tree; else its identifier. `None` where that part is missing.
pub open spec fn name_bytes(text: Seq<u8>, d: Decl) -> Option<Seq<u8>> {
    if d.kind == DeclKind::Impl {
        match d.self_ty {
            Some(t) => match d.trait_ref {
                Some(tr) => Some(span_bytes(text, tr) + for_word() + span_bytes(text, t)),
                None => Some(span_bytes(text, t)),
            },
            None => None,
        }
    } else {
        match d.name {
            Some(n) => Some(span_bytes(text, n)),
            None => None,
        }
    }
}

/// The fields that every item takes from its declaration.
pub open spec fn common_fields_of(it: ItemInfo, text: Seq<u8>, d: Decl) -> bool {
    &&& name_bytes(text, d) matches Some(n) && it.name@ == utf8_lossy(n)
    &&& it.raw_text@ == utf8_lossy(span_bytes(text, d.span))
    &&& doc_comment_is(it.doc_comment, text, d.head as int, d.attrs@)
    &&& visibility_of(it.visibility, text, d.visibility, d.visibility_path)
    &&& it.span == d.span
}

/// `it` is the function item of the declaration `d`.
pub open spec fn function_item_of(it: ItemInfo, text: Seq<u8>, d: Decl) -> bool {
    &&& common_fields_of(it, text, d)
    &&& it.details matches ItemDetails::Function(f) && f.signature@ == utf8_lossy(
        signature_bytes(text, d),
    )
}

/// The word that an `Other` item carries for its kind.
pub open spec fn other_kind_word(k: DeclKind) -> Seq<char> {
    match k {
        DeclKind::Use => "use"@,
        DeclKind::Const => "const"@,
        DeclKind::Static => "static"@,
        DeclKind::TypeAlias => "type_alias"@,
        _ => "impl"@,
    }
}

/// Imports, constants, statics, type aliases and `impl` blocks.
pub open spec fn is_other_kind(k: DeclKind) -> bool {
    k == DeclKind::Use || k == DeclKind::Const || k == DeclKind::Static || k == DeclKind::TypeAlias
        || k == DeclKind::Impl
}

/// `it` is the `Other` item of the declaration `d`.
pub open spec fn other_item_of(it: ItemInfo, text: Seq<u8>, d: Decl) -> bool {
    &&& common_fields_of(it, text, d)
    &&& it.details matches ItemDetails::Other(o) && o.item_type@ == other_kind_word(d.kind)
}

/// The functions among a trait's members that have a name, in order.
pub open spec fn named_functions(ms: Seq<Decl>) -> Seq<Decl>
    decreases ms.len(),
{
    if ms.len() == 0 {
        seq![]
    } else {
        let rest = named_functions(ms.drop_last());
        let d = ms.last();
        if d.kind == DeclKind::Function && d.name is Some {
            rest.push(d)
        } else {
            rest
        }
    }
}

/// `m` is the trait method entry of the function declaration `d`.
pub open spec fn trait_method_of(m: TraitMethodInfo, text: Seq<u8>, d: Decl) -> bool {
    &&& d.name matches Some(n) && m.name@ == utf8_lossy(span_bytes(text, n))
    &&& m.signature@ == utf8_lossy(signature_bytes(text, d))
    &&& doc_comment_is(m.doc_comment, text, d.head as int, d.attrs@)
    &&& m.span == d.span
}

/// `out` lists the named functions of the trait members `ms`, in order.
pub open spec fn trait_methods_are(out: Seq<TraitMethodInfo>, text: Seq<u8>, ms: Seq<Decl>) -> bool {
    let fs = named_functions(ms);
    &&& out.len() == fs.len()
    &&& forall|i: int| 0 <= i < fs.len() ==> trait_method_of(#[trigger] out[i], text, fs[i])
}

/// The range of `text[lo..hi]` left once trailing whitespace is removed.
fn trim_end_range(text: &[u8], lo: usize, hi: usize) -> (r: usize)
    requires
        lo <= hi <= text@.len(),
    ensures
        lo <= r <= hi,
        text@.subrange(lo as int, r as int) == trim_end(text@.subrange(lo as int, hi as int)),
{
    let mut z = hi;
    loop
        invariant
            lo <= z <= hi <= text@.len(),
            trim_end(text@.subrange(lo as int, z as int)) == trim_end(
                text@.subrange(lo as int, hi as int),
            ),
        ensures
            lo <= z <= hi,
            text@.subrange(lo as int, z as int) == trim_end(text@.subrange(lo as int, hi as int)),
        decreases z - lo,
    {
        if z == lo {
            break;
        }
        let k = crate::text::trailing_ws_len(text, lo, z);
        if k == 0 {
            break;
        }
        assert(text@.subrange(lo as int, z as int).subrange(0, (z - lo) - k) =~= text@.subrange(
            lo as int,
            z - k,
        ));
        z = z - k;
    }
    z
}

/// The signature of the function declaration `d`.
pub fn signature_of(text: &[u8], d: &Decl) -> (r: String)
    requires
        decl_wf(*d, text@.len()),
    ensures
        r@ == utf8_lossy(signature_bytes(text@, *d)),
{
    match d.body_start {
        Some(b) => {
            let z = trim_end_range(text, d.head, b);
            string_from_bytes(crate::text::slice_range(text, d.head, z))
        },
        None => string_from_bytes(crate::text::slice_range(text, d.head, d.span.end)),
    }
}

fn push_range(out: &mut Vec<u8>, text: &[u8], s: Span)
    requires
        span_wf(s, text@.len()),
    ensures
        final(out)@ == old(out)@ + span_bytes(text@, s),
{
    let mut k = s.start;
    while k < s.end
        invariant
            s.start <= k <= s.end <= text@.len(),
            out@ == old(out)@ + text@.subrange(s.start as int, k as int),
        decreases s.end - k,
    {
        out.push(text[k]);
        assert(text@.subrange(s.start as int, k + 1) =~= text@.subrange(s.start as int, k as int).push(
            text@[k as int],
        ));
        k = k + 1;
    }
}

/// The name under which `d` is listed, as bytes.
fn name_bytes_of(text: &[u8], d: &Decl) -> (r: Option<Vec<u8>>)
    requires
        decl_wf(*d, text@.len()),
    ensures
        match (r, name_bytes(text@, *d)) {
            (Some(x), Some(n)) => x@ == n,
            (None, None) => true,
            _ => false,
        },
{
    let mut out: Vec<u8> = Vec::new();
    if matches!(d.kind, DeclKind::Impl) {
        match d.self_ty {
            Some(t) => {
                match d.trait_ref {
                    Some(tr) => {
                        push_range(&mut out, text, tr);
                        out.push(32u8);
                        out.push(102u8);
                        out.push(111u8);
                        out.push(114u8);
                        out.push(32u8);
                        push_range(&mut out, text, t);
                        assert(out@ =~= span_bytes(text@, tr) + for_word() + span_bytes(text@, t));
                    },
                    None => {
                        push_range(&mut out, text, t);
                        assert(out@ =~= span_bytes(text@, t));
                    },
                }
                Some(out)
            },
            None => None,
        }
    } else {
        match d.name {
            Some(n) => {
                push_range(&mut out, text, n);
                assert(out@ =~= span_bytes(text@, n));
                Some(out)
            },
            None => None,
        }
    }
}

/// The item of `d` with the given details, or `None` where `d` lacks the
/// name it is listed under.
pub(crate) fn item_with(text: &[u8], d: &Decl, details: ItemDetails) -> (r: Option<ItemInfo>)
    requires
        decl_wf(*d, text@.len()),
    ensures
        r is Some <==> name_bytes(text@, *d) is Some,
        r matches Some(it) ==> common_fields_of(it, text@, *d) && it.details == details,
{
    match name_bytes_of(text, d) {
        None => None,
        Some(n) => {
            let name = string_from_bytes(n.as_slice());
            let raw_text = string_from_bytes(crate::text::slice_range(text, d.span.start, d.span.end));
            let doc = doc_comment(text, d.head, &d.attrs);
            let vis = classify_visibility(text, d.visibility, d.visibility_path);
            Some(ItemInfo { name, raw_text, doc_comment: doc, visibility: vis, span: d.span, details })
        },
    }
}

/// The function item of the declaration `d`; `None` where it has no name.
pub fn function_item(text: &[u8], d: &Decl) -> (r: Option<ItemInfo>)
    requires
        decl_wf(*d, text@.len()),
        d.kind == DeclKind::Function,
    ensures
        r is Some <==> d.name is Some,
        r matches Some(it) ==> function_item_of(it, text@, *d),
{
    let signature = signature_of(text, d);
    item_with(text, d, ItemDetails::Function(FunctionDetails { signature }))
}

/// The `Other` item of an import, constant, static, type alias or `impl`
/// block; `None` where the part that names it is missing.
pub fn other_item(text: &[u8], d: &Decl) -> (r: Option<ItemInfo>)
    requires
        decl_wf(*d, text@.len()),
        is_other_kind(d.kind),
    ensures
        r is Some <==> name_bytes(text@, *d) is Some,
        r matches Some(it) ==> other_item_of(it, text@, *d),
{
    let word = match d.kind {
        DeclKind::Use => "use",
        DeclKind::Const => "const",
        DeclKind::Static => "static",
        DeclKind::TypeAlias => "type_alias",
        _ => "impl",
    };
    let item_type = word.to_owned();
    item_with(text, d, ItemDetails::Other(OtherDetails { item_type }))
}

/// The entries of the named functions among the trait members `ms`.
pub fn trait_methods(text: &[u8], ms: &Vec<Decl>) -> (r: Vec<TraitMethodInfo>)
    requires
        forall|i: int| 0 <= i < ms@.len() ==> decl_wf(#[trigger] ms@[i], text@.len()),
    ensures
        trait_methods_are(r@, text@, ms@),
{
    let mut out: Vec<TraitMethodInfo> = Vec::new();
    let mut i: usize = 0;
    while i < ms.len()
        invariant
            i <= ms@.len(),
            forall|k: int| 0 <= k < ms@.len() ==> decl_wf(#[trigger] ms@[k], text@.len()),
            trait_methods_are(out@, text@, ms@.subrange(0, i as int)),
        decreases ms@.len() - i,
    {
        let d = &ms[i];
        let ghost pre = ms@.subrange(0, i as int + 1);
        assert(pre.drop_last() =~= ms@.subrange(0, i as int));
        assert(pre.last() == ms@[i as int]);
        assert(decl_wf(*d, text@.len()));
        if matches!(d.kind, DeclKind::Function) {
            match d.name {
                Some(n) => {
                    let m = TraitMethodInfo {
                        name: string_from_bytes(crate::text::slice_range(text, n.start, n.end)),
                        signature: signature_of(text, d),
                        doc_comment: doc_comment(text, d.head, &d.attrs),
                        span: d.span,
                    };
                    let ghost old_out = out@;
                    out.push(m);
                    assert(forall|k: int| 0 <= k < old_out.len() ==> out@[k] == old_out[k]);
                },
                None => {},
            }
        }
        i = i + 1;
    }
    assert(ms@.subrange(0, ms@.len() as int) =~= ms@);
    out
}

} // verus!
