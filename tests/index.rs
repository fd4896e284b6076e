use rust_item_index::{
    flatten_modules, line_col, location_of, parse_rust_code, Span, AdtKind, FileInfo, ItemDetails, ItemInfo, ModuleReference, ParseResponse,
    Visibility,
};

fn vis_text(v: &Visibility) -> String {
    match v {
        Visibility::Private => "private".to_string(),
        Visibility::PublicCrate => "pub(crate)".to_string(),
        Visibility::PublicSuper => "pub(super)".to_string(),
        Visibility::PublicIn(p) => format!("pub(in {})", p),
        Visibility::Public => "pub".to_string(),
    }
}

fn render_ref(r: &ModuleReference) -> String {
    format!(
        "ref {} {} {:?} {}..{}",
        r.name,
        vis_text(&r.visibility),
        r.expected_paths,
        r.span.start,
        r.span.end
    )
}

fn render_item(it: &ItemInfo) -> String {
    let details = match &it.details {
        ItemDetails::Function(f) => format!("fn[{}]", f.signature),
        ItemDetails::AlgebraicDataType(s) => format!(
            "adt[{:?}; {}]",
            s.kind,
            s.methods.iter().map(render_item).collect::<Vec<_>>().join(", ")
        ),
        ItemDetails::Trait(t) => format!(
            "trait[{}]",
            t.methods
                .iter()
                .map(|m| format!("{}|{}|{:?}|{}..{}", m.name, m.signature, m.doc_comment, m.span.start, m.span.end))
                .collect::<Vec<_>>()
                .join(", ")
        ),
        ItemDetails::Module(m) => format!(
            "mod[{}; {}]",
            m.items.iter().map(render_item).collect::<Vec<_>>().join(", "),
            m.module_references.iter().map(render_ref).collect::<Vec<_>>().join(", ")
        ),
        ItemDetails::Other(o) => format!("other[{}]", o.item_type),
    };
    format!(
        "{} {:?} {:?} {} {}..{} {}",
        it.name,
        it.raw_text,
        it.doc_comment,
        vis_text(&it.visibility),
        it.span.start,
        it.span.end,
        details
    )
}

fn render(r: &ParseResponse) -> String {
    let diags: Vec<String> = r
        .diagnostics
        .iter()
        .map(|d| format!("{} {} {:?}", d.message, d.severity, d.span.map(|s| (s.start, s.end))))
        .collect();
    format!(
        "{} {:?} [{}] [{}]",
        r.success,
        diags,
        r.file_info.items.iter().map(render_item).collect::<Vec<_>>().join("; "),
        r.file_info.module_references.iter().map(render_ref).collect::<Vec<_>>().join("; ")
    )
}

fn find<'a>(items: &'a [ItemInfo], name: &str) -> Option<&'a ItemInfo> {
    items.iter().find(|i| i.name == name)
}

fn spans_within(items: &[ItemInfo], len: usize) -> bool {
    items.iter().all(|it| {
        it.span.start <= it.span.end
            && it.span.end <= len
            && match &it.details {
                ItemDetails::AlgebraicDataType(s) => spans_within(&s.methods, len),
                ItemDetails::Module(m) => {
                    spans_within(&m.items, len)
                        && m.module_references.iter().all(|r| r.span.start <= r.span.end && r.span.end <= len)
                }
                ItemDetails::Trait(t) => t.methods.iter().all(|m| m.span.start <= m.span.end && m.span.end <= len),
                _ => true,
            }
    })
}

fn file(code: &str, include_private: bool) -> FileInfo {
    parse_rust_code(code, include_private).file_info
}

#[test]
fn repeated_calls_give_identical_output() {
    let code = "/// A\npub struct A { x: u8 }\nimpl A { pub fn new() -> A { A { x: 0 } } }\npub mod m { pub fn f() {} mod g; }\nfn broken( {";
    for flag in [false, true] {
        let a = parse_rust_code(code, flag);
        let b = parse_rust_code(code, flag);
        assert_eq!(render(&a), render(&b));
    }
}

#[test]
fn spans_lie_within_the_text() {
    let code = "/// doc\npub struct S;\nimpl S { pub fn m(&self) {} fn n() {} }\npub trait T { fn t(&self); }\npub mod inner { pub mod deeper { pub const C: u8 = 1; } mod r; }\nuse std::fmt;\nfn ok() {}\nfn bad( {";
    for flag in [false, true] {
        let f = file(code, flag);
        assert!(!f.items.is_empty());
        assert!(spans_within(&f.items, code.len()));
        assert!(f.module_references.iter().all(|r| r.span.end <= code.len()));
    }
}

#[test]
fn public_function_is_listed_as_public() {
    let f = file("pub fn f(){}", false);
    assert_eq!(f.items.len(), 1);
    assert_eq!(f.items[0].name, "f");
    assert!(matches!(f.items[0].visibility, Visibility::Public));
    assert!(matches!(f.items[0].details, ItemDetails::Function(_)));
}

#[test]
fn private_function_is_listed_only_on_request() {
    let hidden = file("fn g(){}", false);
    assert!(find(&hidden.items, "g").is_none());
    let shown = file("fn g(){}", true);
    let g = find(&shown.items, "g").expect("g is listed");
    assert!(matches!(g.visibility, Visibility::Private));
}

#[test]
fn doc_lines_and_methods_attach_to_struct() {
    let code = "/// Doc line 1\n/// Doc line 2\npub struct S;\nimpl S { pub fn m() {} }\n";
    let f = file(code, false);
    assert_eq!(f.items.len(), 1);
    let s = &f.items[0];
    assert_eq!(s.name, "S");
    assert_eq!(s.doc_comment.as_deref(), Some("Doc line 1\nDoc line 2"));
    match &s.details {
        ItemDetails::AlgebraicDataType(d) => {
            assert!(matches!(d.kind, AdtKind::Struct));
            assert_eq!(d.methods.len(), 1);
            assert_eq!(d.methods[0].name, "m");
        }
        _ => panic!("S is not a data type"),
    }
}

#[test]
fn module_without_body_is_a_reference() {
    let f = file("mod foo;", true);
    assert_eq!(f.module_references.len(), 1);
    let r = &f.module_references[0];
    assert_eq!(r.name, "foo");
    assert_eq!(r.expected_paths, vec!["foo.rs".to_string(), "foo/mod.rs".to_string()]);
    assert!(find(&f.items, "foo").is_none());
}

#[test]
fn inline_module_holds_its_items() {
    let f = file("mod foo { pub fn bar(){} }", true);
    assert!(f.module_references.is_empty());
    assert_eq!(f.items.len(), 1);
    assert_eq!(f.items[0].name, "foo");
    match &f.items[0].details {
        ItemDetails::Module(m) => {
            assert_eq!(m.items.len(), 1);
            assert_eq!(m.items[0].name, "bar");
            assert!(matches!(m.items[0].details, ItemDetails::Function(_)));
            assert!(m.module_references.is_empty());
        }
        _ => panic!("foo is not a module"),
    }
}

#[test]
fn signature_stops_before_body() {
    let f = file("pub fn add(a, b) -> T { a + b }", false);
    let add = find(&f.items, "add").expect("add is listed");
    match &add.details {
        ItemDetails::Function(d) => assert_eq!(d.signature, "pub fn add(a, b) -> T"),
        _ => panic!("add is not a function"),
    }
}

#[test]
fn malformed_input_still_indexes_the_rest() {
    let code = "pub fn ok() {}\npub struct Fine;\npub fn broken( {\n";
    let r = parse_rust_code(code, false);
    assert!(!r.success);
    assert!(!r.diagnostics.is_empty());
    assert!(r.diagnostics.iter().all(|d| d.severity == "error"));
    assert!(find(&r.file_info.items, "ok").is_some());
    assert!(find(&r.file_info.items, "Fine").is_some());
}

#[test]
fn clean_input_succeeds() {
    let r = parse_rust_code("pub fn ok() {}\n", false);
    assert!(r.success);
    assert!(r.diagnostics.is_empty());
    assert_eq!(r.parse_time, 0);
}

#[test]
fn visibility_forms_are_told_apart() {
    let code = "pub(crate) fn a() {}\npub(super) fn b() {}\npub(in crate::x) fn c() {}\npub fn d() {}\nfn e() {}\n";
    let f = file(code, true);
    assert_eq!(f.items.len(), 5);
    assert!(matches!(f.items[0].visibility, Visibility::PublicCrate));
    assert!(matches!(f.items[1].visibility, Visibility::PublicSuper));
    match &f.items[2].visibility {
        Visibility::PublicIn(p) => assert_eq!(p, "crate::x"),
        _ => panic!("c is not pub(in ..)"),
    }
    assert!(matches!(f.items[3].visibility, Visibility::Public));
    assert!(matches!(f.items[4].visibility, Visibility::Private));
    let public_only = file(code, false);
    assert_eq!(public_only.items.len(), 4);
}

#[test]
fn doc_attribute_content_is_appended() {
    let f = file("/// first\n#[doc = \"second\"]\npub fn f() {}\n", false);
    assert_eq!(f.items[0].doc_comment.as_deref(), Some("first\nsecond"));
}

#[test]
fn doc_block_skips_blank_lines_and_stops_at_code() {
    let code = "/// not mine\nconst X: u8 = 1;\n/// one\n\n///   two  \n\npub fn f() {}\n";
    let f = file(code, true);
    let func = find(&f.items, "f").unwrap();
    assert_eq!(func.doc_comment.as_deref(), Some("one\ntwo"));
    let x = find(&f.items, "X").unwrap();
    assert_eq!(x.doc_comment.as_deref(), Some("not mine"));
}

#[test]
fn undocumented_item_has_no_doc() {
    let f = file("// plain comment\npub fn f() {}\n", false);
    assert_eq!(f.items[0].doc_comment, None);
}

#[test]
fn unattached_impl_is_listed_as_other() {
    let f = file("impl Display for Foo { fn fmt(&self) {} }\nimpl Bar {}\n", true);
    assert_eq!(f.items.len(), 2);
    assert_eq!(f.items[0].name, "Display for Foo");
    assert_eq!(f.items[1].name, "Bar");
    for it in &f.items {
        match &it.details {
            ItemDetails::Other(o) => assert_eq!(o.item_type, "impl"),
            _ => panic!("impl is not listed as other"),
        }
    }
    assert!(file("impl Bar {}\n", false).items.is_empty());
}

#[test]
fn attached_impl_is_not_listed() {
    let f = file("struct Foo;\nimpl Clone for Foo { fn clone(&self) -> Foo { Foo } }\n", true);
    assert_eq!(f.items.len(), 1);
    match &f.items[0].details {
        ItemDetails::AlgebraicDataType(d) => {
            assert_eq!(d.methods.len(), 1);
            assert_eq!(d.methods[0].name, "clone");
        }
        _ => panic!("Foo is not a data type"),
    }
}

#[test]
fn private_methods_follow_the_policy() {
    let code = "pub struct S;\nimpl S { pub fn a() {} fn b() {} pub(crate) fn c() {} }\n";
    let count = |flag| match &file(code, flag).items[0].details {
        ItemDetails::AlgebraicDataType(d) => d.methods.iter().map(|m| m.name.clone()).collect::<Vec<_>>(),
        _ => panic!("S is not a data type"),
    };
    assert_eq!(count(false), vec!["a", "c"]);
    assert_eq!(count(true), vec!["a", "b", "c"]);
}

#[test]
fn methods_come_from_every_block_in_file_order() {
    let code = "pub struct W<T>(T);\nimpl<T> W<T> { pub fn first() {} }\nmod m { impl<T> super::W<T> { pub fn second() {} } }\nimpl W<u8> { pub fn third(&self) -> u8 { 0 } }\n";
    let f = file(code, false);
    match &f.items[0].details {
        ItemDetails::AlgebraicDataType(d) => {
            let names: Vec<&str> = d.methods.iter().map(|m| m.name.as_str()).collect();
            assert_eq!(names, vec!["first", "second", "third"]);
            match &d.methods[2].details {
                ItemDetails::Function(fd) => assert_eq!(fd.signature, "pub fn third(&self) -> u8"),
                _ => panic!("third is not a function"),
            }
        }
        _ => panic!("W is not a data type"),
    }
}

#[test]
fn substring_match_reaches_longer_names() {
    let code = "pub struct Node;\npub struct NodeList;\nimpl NodeList { pub fn len(&self) -> usize { 0 } }\n";
    let f = file(code, false);
    for it in &f.items {
        match &it.details {
            ItemDetails::AlgebraicDataType(d) => assert_eq!(d.methods.len(), 1),
            _ => panic!("not a data type"),
        }
    }
}

#[test]
fn enum_and_union_kinds() {
    let f = file("pub enum E { A, B }\npub union U { a: u8 }\n", false);
    match (&f.items[0].details, &f.items[1].details) {
        (ItemDetails::AlgebraicDataType(e), ItemDetails::AlgebraicDataType(u)) => {
            assert!(matches!(e.kind, AdtKind::Enum));
            assert!(matches!(u.kind, AdtKind::Union));
        }
        _ => panic!("not data types"),
    }
}

#[test]
fn trait_lists_its_own_methods() {
    let code = "pub trait T {\n    /// Required.\n    fn a(&self);\n    fn b(&self) -> u8 { 1 }\n    const K: u8;\n}\n";
    let f = file(code, false);
    match &f.items[0].details {
        ItemDetails::Trait(t) => {
            assert_eq!(t.methods.len(), 2);
            assert_eq!(t.methods[0].name, "a");
            assert_eq!(t.methods[0].signature, "fn a(&self);");
            assert_eq!(t.methods[0].doc_comment.as_deref(), Some("Required."));
            assert_eq!(t.methods[1].name, "b");
            assert_eq!(t.methods[1].signature, "fn b(&self) -> u8");
            assert_eq!(t.methods[1].doc_comment, None);
        }
        _ => panic!("T is not a trait"),
    }
}

#[test]
fn other_items_carry_their_kind() {
    let code = "pub use std::collections::HashMap;\npub const C: u8 = 1;\npub static S: u8 = 2;\npub type Alias = u8;\n";
    let f = file(code, false);
    let got: Vec<(String, String)> = f
        .items
        .iter()
        .map(|it| match &it.details {
            ItemDetails::Other(o) => (it.name.clone(), o.item_type.clone()),
            _ => panic!("not other"),
        })
        .collect();
    let want = vec![
        ("std::collections::HashMap", "use"),
        ("C", "const"),
        ("S", "static"),
        ("Alias", "type_alias"),
    ];
    assert_eq!(got, want.into_iter().map(|(a, b)| (a.to_string(), b.to_string())).collect::<Vec<_>>());
}

#[test]
fn nested_reference_paths_carry_the_module_path() {
    let f = file("pub mod a { pub mod b { pub mod c; } }\n", false);
    let a = match &f.items[0].details {
        ItemDetails::Module(m) => m,
        _ => panic!("a is not a module"),
    };
    let b = match &a.items[0].details {
        ItemDetails::Module(m) => m,
        _ => panic!("b is not a module"),
    };
    assert_eq!(b.module_references.len(), 1);
    assert_eq!(b.module_references[0].expected_paths, vec!["a/b/c.rs".to_string(), "a/b/c/mod.rs".to_string()]);
    assert!(matches!(b.module_references[0].visibility, Visibility::Public));
}

#[test]
fn excluded_module_leaves_no_trace() {
    let f = file("mod hidden { pub fn f() {} }\nmod gone;\n", false);
    assert!(f.items.is_empty());
    assert!(f.module_references.is_empty());
}

#[test]
fn raw_text_and_span_cover_the_node() {
    let code = "  pub fn f() { 1 }  ";
    let f = file(code, false);
    let it = &f.items[0];
    assert_eq!(it.raw_text, "pub fn f() { 1 }");
    assert_eq!((it.span.start, it.span.end), (2, 18));
}

#[test]
fn function_without_body_keeps_its_whole_text() {
    let f = file("extern \"C\" { }\npub trait T { fn t(); }\n", false);
    match &f.items[0].details {
        ItemDetails::Trait(t) => assert_eq!(t.methods[0].signature, "fn t();"),
        _ => panic!("T is not a trait"),
    }
}

#[test]
fn non_ascii_names_are_kept() {
    let f = file("/// é doc\npub fn café() {}\n", false);
    assert_eq!(f.items[0].name, "café");
    assert_eq!(f.items[0].doc_comment.as_deref(), Some("é doc"));
}

#[test]
fn line_and_column_count_characters() {
    let text = "ab\ncé d".as_bytes();
    assert_eq!(line_col(text, 0), (1, 1));
    assert_eq!(line_col(text, 2), (1, 3));
    assert_eq!(line_col(text, 3), (2, 1));
    assert_eq!(line_col(text, 7), (2, 4));
    assert_eq!(line_col(text, text.len()), (2, 5));
}

#[test]
fn location_gives_both_ends() {
    let text = "fn a() {}\n  pub fn b() {}\n";
    let f = file(text, false);
    let loc = location_of(text.as_bytes(), f.items[0].span);
    assert_eq!((loc.start_line, loc.start_column, loc.end_line, loc.end_column), (2, 3, 2, 16));
    assert_eq!((loc.start_byte, loc.end_byte), (12, 25));
    let whole = location_of(text.as_bytes(), Span { start: 0, end: text.len() });
    assert_eq!((whole.end_line, whole.end_column), (3, 1));
}

#[test]
fn flat_module_list_follows_the_tree() {
    let code = "pub mod a { pub fn f() {} pub mod b { pub struct S; } }\npub fn top() {}\n";
    let f = file(code, false);
    let modules = flatten_modules(&f, code.len());
    let got: Vec<(String, String, Vec<String>)> = modules
        .iter()
        .map(|m| (m.name.clone(), m.path.clone(), m.items.iter().map(|i| i.name.clone()).collect()))
        .collect();
    let want = vec![
        ("main", "main", vec!["a", "top"]),
        ("a", "main::a", vec!["f", "b"]),
        ("b", "main::a::b", vec!["S"]),
    ];
    let want: Vec<(String, String, Vec<String>)> = want
        .into_iter()
        .map(|(n, p, i)| (n.to_string(), p.to_string(), i.into_iter().map(String::from).collect()))
        .collect();
    assert_eq!(got, want);
    assert_eq!((modules[0].span.start, modules[0].span.end), (0, code.len()));
    assert_eq!(modules[1].span.start, f.items[0].span.start);
    assert_eq!(render_item(&modules[1].items[1]), render_item(match &f.items[0].details {
        ItemDetails::Module(m) => &m.items[1],
        _ => panic!("a is not a module"),
    }));
}

#[test]
fn empty_input_gives_empty_index() {
    let r = parse_rust_code("", true);
    assert!(r.success);
    assert!(r.file_info.items.is_empty());
    assert!(r.file_info.module_references.is_empty());
}

#[test]
fn doc_block_does_not_jump_over_plain_comments() {
    let f = file("/// doc\n// plain\npub fn f() {}\n", false);
    assert_eq!(f.items[0].doc_comment, None);
}

#[test]
fn diagnostics_carry_a_span_within_the_text() {
    let code = "pub fn broken( {\n";
    let r = parse_rust_code(code, false);
    assert!(!r.diagnostics.is_empty());
    for d in &r.diagnostics {
        assert!(!d.message.is_empty());
        let s = d.span.expect("the parser gives a range");
        assert!(s.start <= s.end && s.end <= code.len());
    }
}
