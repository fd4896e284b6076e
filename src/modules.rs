//! A flat list of a file's modules, derived from the nested index: the root
//! module first, then every inline module at any depth, in source order.
use crate::laws::{same_item, same_items, same_reference, same_text, same_visibility};
use crate::model::{
    FileInfo, FunctionDetails, ItemDetails, ItemInfo, ModuleDetails, ModuleReference, OtherDetails,
    StructDetails, TraitDetails, TraitMethodInfo, Visibility,
};
use crate::syntax::Span;
use vstd::prelude::*;
use vstd::string::StringExecFns;

verus! {

/// One module of the flat list, with the items written directly in it.
pub struct ModuleInfo {
    pub name: String,
    /// `main`, then the names of the enclosing modules, joined with `::`.
    pub path: String,
    pub items: Vec<ItemInfo>,
    pub span: Span,
}

fn copy_text(s: &Option<String>) -> (r: Option<String>)
    ensures
        same_text(r, *s),
{
    match s {
        Some(t) => Some(t.clone()),
        None => None,
    }
}

fn copy_visibility(v: &Visibility) -> (r: Visibility)
    ensures
        same_visibility(r, *v),
{
    match v {
        Visibility::Private => Visibility::Private,
        Visibility::PublicCrate => Visibility::PublicCrate,
        Visibility::PublicSuper => Visibility::PublicSuper,
        Visibility::PublicIn(p) => Visibility::PublicIn(p.clone()),
        Visibility::Public => Visibility::Public,
    }
}

fn copy_reference(m: &ModuleReference) -> (r: ModuleReference)
    ensures
        same_reference(r, *m),
{
    let mut paths: Vec<String> = Vec::new();
    let mut i: usize = 0;
    while i < m.expected_paths.len()
        invariant
            i <= m.expected_paths@.len(),
            paths@.len() == i,
            forall|k: int| 0 <= k < i ==> #[trigger] paths@[k]@ == m.expected_paths@[k]@,
        decreases m.expected_paths@.len() - i,
    {
        paths.push(m.expected_paths[i].clone());
        i = i + 1;
    }
    ModuleReference {
        name: m.name.clone(),
        visibility: copy_visibility(&m.visibility),
        expected_paths: paths,
        span: m.span,
    }
}

/// A copy of `it` that holds the same text in every field, at any depth.
pub fn copy_item(it: &ItemInfo) -> (r: ItemInfo)
    ensures
        same_item(*it, r),
    decreases it,
{
    let details = match &it.details {
        ItemDetails::Function(f) => ItemDetails::Function(
            FunctionDetails { signature: f.signature.clone() },
        ),
        ItemDetails::AlgebraicDataType(s) => {
            let mut methods: Vec<ItemInfo> = Vec::new();
            let mut i: usize = 0;
            while i < s.methods.len()
                invariant
                    it.details == ItemDetails::AlgebraicDataType(*s),
                    i <= s.methods@.len(),
                    methods@.len() == i,
                    forall|k: int| 0 <= k < i ==> same_item(#[trigger] s.methods@[k], methods@[k]),
                decreases s.methods@.len() - i,
            {
                proof {
                    assert(decreases_to!(*it => it.details));
                    assert(decreases_to!(it.details => it.details->AlgebraicDataType_0));
                    assert(decreases_to!(*s => s.methods));
                    assert(decreases_to!(s.methods => s.methods@));
                    assert(decreases_to!(s.methods@ => s.methods@[i as int]));
                }
                methods.push(copy_item(&s.methods[i]));
                i = i + 1;
            }
            ItemDetails::AlgebraicDataType(StructDetails { kind: s.kind, methods })
        },
        ItemDetails::Trait(t) => {
            let mut methods: Vec<TraitMethodInfo> = Vec::new();
            let mut i: usize = 0;
            while i < t.methods.len()
                invariant
                    i <= t.methods@.len(),
                    methods@.len() == i,
                    forall|k: int| 0 <= k < i ==> {
                        let (m, n) = (#[trigger] t.methods@[k], methods@[k]);
                        m.name@ == n.name@ && m.signature@ == n.signature@ && same_text(
                            m.doc_comment,
                            n.doc_comment,
                        ) && m.span == n.span
                    },
                decreases t.methods@.len() - i,
            {
                let m = &t.methods[i];
                methods.push(
                    TraitMethodInfo {
                        name: m.name.clone(),
                        signature: m.signature.clone(),
                        doc_comment: copy_text(&m.doc_comment),
                        span: m.span,
                    },
                );
                i = i + 1;
            }
            ItemDetails::Trait(TraitDetails { methods })
        },
        ItemDetails::Module(md) => {
            let mut items: Vec<ItemInfo> = Vec::new();
            let mut i: usize = 0;
            while i < md.items.len()
                invariant
                    it.details == ItemDetails::Module(*md),
                    i <= md.items@.len(),
                    items@.len() == i,
                    forall|k: int| 0 <= k < i ==> same_item(#[trigger] md.items@[k], items@[k]),
                decreases md.items@.len() - i,
            {
                proof {
                    assert(decreases_to!(*it => it.details));
                    assert(decreases_to!(it.details => it.details->Module_0));
                    assert(decreases_to!(*md => md.items));
                    assert(decreases_to!(md.items => md.items@));
                    assert(decreases_to!(md.items@ => md.items@[i as int]));
                }
                items.push(copy_item(&md.items[i]));
                i = i + 1;
            }
            let mut refs: Vec<ModuleReference> = Vec::new();
            let mut j: usize = 0;
            while j < md.module_references.len()
                invariant
                    j <= md.module_references@.len(),
                    refs@.len() == j,
                    forall|k: int| 0 <= k < j ==> same_reference(#[trigger] refs@[k], md.module_references@[k]),
                decreases md.module_references@.len() - j,
            {
                refs.push(copy_reference(&md.module_references[j]));
                j = j + 1;
            }
            ItemDetails::Module(ModuleDetails { items, module_references: refs })
        },
        ItemDetails::Other(o) => ItemDetails::Other(OtherDetails { item_type: o.item_type.clone() }),
    };
    ItemInfo {
        name: it.name.clone(),
        raw_text: it.raw_text.clone(),
        doc_comment: copy_text(&it.doc_comment),
        visibility: copy_visibility(&it.visibility),
        span: it.span,
        details,
    }
}

/// The inline modules among `items` and, at any depth, inside them, in
/// source order, each with its path: `path`, `::` and its name.
pub open spec fn module_entries(items: Seq<ItemInfo>, path: Seq<char>) -> Seq<(ItemInfo, Seq<char>)>
    decreases items,
{
    if items.len() == 0 {
        seq![]
    } else {
        let rest = module_entries(items.drop_last(), path);
        let it = items.last();
        match it.details {
            ItemDetails::Module(md) => {
                let p = path + "::"@ + it.name@;
                rest + seq![(it, p)] + module_entries(md.items@, p)
            },
            _ => rest,
        }
    }
}

/// `m` is the flat entry of the module item and path `e`.
pub open spec fn entry_is(m: ModuleInfo, e: (ItemInfo, Seq<char>)) -> bool {
    &&& m.name@ == e.0.name@
    &&& m.path@ == e.1
    &&& m.span == e.0.span
    &&& match e.0.details {
        ItemDetails::Module(md) => same_items(md.items@, m.items@),
        _ => false,
    }
}

fn copy_items(items: &Vec<ItemInfo>) -> (r: Vec<ItemInfo>)
    ensures
        same_items(items@, r@),
{
    let mut out: Vec<ItemInfo> = Vec::new();
    let mut i: usize = 0;
    while i < items.len()
        invariant
            i <= items@.len(),
            out@.len() == i,
            forall|k: int| 0 <= k < i ==> same_item(#[trigger] items@[k], out@[k]),
        decreases items@.len() - i,
    {
        out.push(copy_item(&items[i]));
        i = i + 1;
    }
    out
}

/// Appends to `out` the flat entries of the inline modules among `items`,
/// at any depth, in source order.
fn push_modules(items: &Vec<ItemInfo>, path: &String, out: &mut Vec<ModuleInfo>)
    ensures
        final(out)@.len() == old(out)@.len() + module_entries(items@, path@).len(),
        forall|k: int| 0 <= k < old(out)@.len() ==> #[trigger] final(out)@[k] == old(out)@[k],
        forall|k: int|
            0 <= k < module_entries(items@, path@).len() ==> entry_is(
                #[trigger] final(out)@[old(out)@.len() + k],
                module_entries(items@, path@)[k],
            ),
    decreases items@,
{
    let ghost base = out@.len();
    let mut i: usize = 0;
    while i < items.len()
        invariant
            i <= items@.len(),
            base == old(out)@.len(),
            out@.len() == base + module_entries(items@.subrange(0, i as int), path@).len(),
            forall|k: int| 0 <= k < base ==> #[trigger] out@[k] == old(out)@[k],
            forall|k: int|
                0 <= k < module_entries(items@.subrange(0, i as int), path@).len() ==> entry_is(
                    #[trigger] out@[base + k],
                    module_entries(items@.subrange(0, i as int), path@)[k],
                ),
        decreases items@.len() - i,
    {
        let it = &items[i];
        let ghost pre = items@.subrange(0, i as int + 1);
        assert(pre.drop_last() =~= items@.subrange(0, i as int));
        assert(pre.last() == items@[i as int]);
        let ghost before = out@;
        let ghost done = module_entries(items@.subrange(0, i as int), path@);
        match &it.details {
            ItemDetails::Module(md) => {
                let mut p = path.clone();
                p.append("::");
                p.append(it.name.as_str());
                let entry = ModuleInfo {
                    name: it.name.clone(),
                    path: p.clone(),
                    items: copy_items(&md.items),
                    span: it.span,
                };
                out.push(entry);
                let ghost mid = out@;
                proof {
                    assert(decreases_to!(items@ => items@[i as int]));
                    assert(decreases_to!(items@[i as int] => items@[i as int].details));
                    assert(decreases_to!(items@[i as int].details => items@[i as int].details->Module_0));
                    assert(decreases_to!(*md => md.items));
                    assert(decreases_to!(md.items => md.items@));
                }
                push_modules(&md.items, &p, out);
                let ghost nested = module_entries(md.items@, p@);
                assert(module_entries(pre, path@) =~= done + seq![(*it, p@)] + nested);
                assert forall|k: int| 0 <= k < base implies #[trigger] out@[k] == old(out)@[k] by {
                    assert(out@[k] == mid[k]);
                }
                assert forall|k: int|
                    0 <= k < module_entries(pre, path@).len() implies entry_is(
                    #[trigger] out@[base + k],
                    module_entries(pre, path@)[k],
                ) by {
                    let all = module_entries(pre, path@);
                    if k < done.len() {
                        assert(out@[base + k] == mid[base + k]);
                        assert(mid[base + k] == before[base + k]);
                        assert(all[k] == done[k]);
                        assert(entry_is(before[base + k], done[k]));
                    } else if k == done.len() {
                        assert(out@[base + k] == mid[base + k]);
                        assert(all[k] == (*it, p@));
                        assert(it.details == ItemDetails::Module(*md));
                    } else {
                        let j = k - done.len() - 1;
                        assert(mid.len() == base + done.len() + 1);
                        assert(all[k] == nested[j]);
                        assert(entry_is(out@[mid.len() + j], nested[j]));
                        assert(base + k == mid.len() + j);
                    }
                }
            },
            _ => {
                assert(module_entries(pre, path@) == done);
            },
        }
        i = i + 1;
    }
    assert(items@.subrange(0, items@.len() as int) =~= items@);
}

/// The flat list of the modules of a file of `text_len` bytes: first the
/// root, named and placed at `main`, spanning the whole text and holding
/// the file's items; then each inline module at any depth, in source
/// order, with its path and its own items.
pub fn flatten_modules(file: &FileInfo, text_len: usize) -> (r: Vec<ModuleInfo>)
    ensures
        r@.len() == 1 + module_entries(file.items@, "main"@).len(),
        r@[0].name@ == "main"@,
        r@[0].path@ == "main"@,
        r@[0].span == (Span { start: 0, end: text_len }),
        same_items(file.items@, r@[0].items@),
        forall|k: int|
            0 <= k < module_entries(file.items@, "main"@).len() ==> entry_is(
                #[trigger] r@[k + 1],
                module_entries(file.items@, "main"@)[k],
            ),
{
    let mut out: Vec<ModuleInfo> = Vec::new();
    let root = "main".to_owned();
    out.push(
        ModuleInfo {
            name: "main".to_owned(),
            path: root.clone(),
            items: copy_items(&file.items),
            span: Span { start: 0, end: text_len },
        },
    );
    let ghost first = out@[0];
    push_modules(&file.items, &root, &mut out);
    assert(out@[0] == first);
    assert forall|k: int|
        0 <= k < module_entries(file.items@, "main"@).len() implies entry_is(
        #[trigger] out@[k + 1],
        module_entries(file.items@, "main"@)[k],
    ) by {
        assert(out@[1 + k] == out@[k + 1]);
    }
    out
}

} // verus!
