//! Visibility of a declaration, from the text of its modifier.
use crate::model::Visibility;
use crate::syntax::{opt_bytes, opt_span_wf, span_bytes, Span};
use crate::text::{contains, contains_exec, slice_range, string_from_bytes, utf8_lossy};
use vstd::prelude::*;

verus! {

pub open spec fn pub_crate_marker() -> Seq<u8> {
    seq![112u8, 117u8, 98u8, 40u8, 99u8, 114u8, 97u8, 116u8, 101u8, 41u8]
}

pub open spec fn pub_super_marker() -> Seq<u8> {
    seq![112u8, 117u8, 98u8, 40u8, 115u8, 117u8, 112u8, 101u8, 114u8, 41u8]
}

pub open spec fn pub_in_marker() -> Seq<u8> {
    seq![112u8, 117u8, 98u8, 40u8, 105u8, 110u8]
}

pub open spec fn pub_marker() -> Seq<u8> {
    seq![112u8, 117u8, 98u8]
}

/// `v` is the visibility of a modifier rendered as `m` (`None` where there
/// is no modifier), whose `in` path, if any, is `path`. The tests go in this
/// order: `pub(crate)`, `pub(super)`, `pub(in`, `pub`.
pub open spec fn visibility_is(v: Visibility, m: Option<Seq<u8>>, path: Seq<u8>) -> bool {
    match m {
        None => v is Private,
        Some(t) => if contains(t, pub_crate_marker()) {
            v is PublicCrate
        } else if contains(t, pub_super_marker()) {
            v is PublicSuper
        } else if contains(t, pub_in_marker()) {
            match v {
                Visibility::PublicIn(p) => p@ == utf8_lossy(path),
                _ => false,
            }
        } else if contains(t, pub_marker()) {
            v is Public
        } else {
            v is Private
        },
    }
}

/// The modifier text of an optional modifier range.
pub open spec fn modifier_bytes(text: Seq<u8>, vis: Option<Span>) -> Option<Seq<u8>> {
    match vis {
        Some(s) => Some(span_bytes(text, s)),
        None => None,
    }
}

/// `v` is the visibility that the modifier at `vis`, with its path at
/// `path`, gives.
pub open spec fn visibility_of(v: Visibility, text: Seq<u8>, vis: Option<Span>, path: Option<Span>) -> bool {
    visibility_is(v, modifier_bytes(text, vis), opt_bytes(text, path))
}

/// A declaration of visibility `v` is indexed.
pub open spec fn included(v: Visibility, include_private: bool) -> bool {
    include_private || !(v is Private)
}

fn marker(k: u8) -> (r: Vec<u8>)
    requires
        k < 4,
    ensures
        k == 0 ==> r@ == pub_crate_marker(),
        k == 1 ==> r@ == pub_super_marker(),
        k == 2 ==> r@ == pub_in_marker(),
        k == 3 ==> r@ == pub_marker(),
{
    let r = if k == 0 {
        vec![112u8, 117u8, 98u8, 40u8, 99u8, 114u8, 97u8, 116u8, 101u8, 41u8]
    } else if k == 1 {
        vec![112u8, 117u8, 98u8, 40u8, 115u8, 117u8, 112u8, 101u8, 114u8, 41u8]
    } else if k == 2 {
        vec![112u8, 117u8, 98u8, 40u8, 105u8, 110u8]
    } else {
        vec![112u8, 117u8, 98u8]
    };
    assert(k == 0 ==> r@ =~= pub_crate_marker());
    assert(k == 1 ==> r@ =~= pub_super_marker());
    assert(k == 2 ==> r@ =~= pub_in_marker());
    assert(k == 3 ==> r@ =~= pub_marker());
    r
}

/// The visibility that the modifier at `vis` gives, `path` being the range
/// of its `in` path.
pub fn classify_visibility(text: &[u8], vis: Option<Span>, path: Option<Span>) -> (v: Visibility)
    requires
        opt_span_wf(vis, text@.len()),
        opt_span_wf(path, text@.len()),
    ensures
        visibility_of(v, text@, vis, path),
{
    match vis {
        None => Visibility::Private,
        Some(s) => {
            if contains_exec(text, s.start, s.end, marker(0).as_slice()) {
                Visibility::PublicCrate
            } else if contains_exec(text, s.start, s.end, marker(1).as_slice()) {
                Visibility::PublicSuper
            } else if contains_exec(text, s.start, s.end, marker(2).as_slice()) {
                let p = match path {
                    Some(p) => string_from_bytes(slice_range(text, p.start, p.end)),
                    None => {
                        assert(text@.subrange(0, 0) =~= Seq::<u8>::empty());
                        string_from_bytes(slice_range(text, 0, 0))
                    },
                };
                Visibility::PublicIn(p)
            } else if contains_exec(text, s.start, s.end, marker(3).as_slice()) {
                Visibility::Public
            } else {
                Visibility::Private
            }
        },
    }
}

/// Whether a declaration of visibility `v` is indexed: every one where
/// private declarations are asked for, else those with a `pub` modifier.
pub fn is_included(v: &Visibility, include_private: bool) -> (r: bool)
    ensures
        r == included(*v, include_private),
{
    include_private || !matches!(v, Visibility::Private)
}

} // verus!
