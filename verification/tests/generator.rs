use lavish::ast::{Comment, Identifier, Module, NamespaceDecl, NamespaceItem, Span, StructDecl, NotificationDecl, FunctionDecl};
use lavish::codegen::codegen;
use lavish::generator::{Generator, Opts, RustTarget, RustTargetWrapper};
use lavish::output::Scope;

fn span() -> Span {
    Span { offset: 3, len: 4 }
}

fn ident(text: &str) -> Identifier {
    Identifier { span: span(), text: text.to_string() }
}

#[test]
fn wrapper_name_follows_the_target() {
    let opts = Opts { verbose: false };
    let none = Generator::new(&opts, RustTarget { wrapper: RustTargetWrapper::NoWrapper });
    let module = Generator::new(&opts, RustTarget { wrapper: RustTargetWrapper::Mod });
    let lib = Generator::new(&opts, RustTarget { wrapper: RustTargetWrapper::Lib });
    assert_eq!(none.wrapper_name(), None);
    assert_eq!(module.wrapper_name(), Some("mod.rs"));
    assert_eq!(lib.wrapper_name(), Some("lib.rs"));
    assert!(!none.opts.verbose);
    assert_eq!(lib.target.wrapper, RustTargetWrapper::Lib);
}

#[test]
fn wrapper_lists_every_member() {
    let opts = Opts { verbose: true };
    let g = Generator::new(&opts, RustTarget { wrapper: RustTargetWrapper::Mod });
    let members = vec!["alpha".to_string(), "beta".to_string()];
    let expected = "// This file is generated by lavish: DO NOT EDIT\n// https://github.com/fasterthanlime/lavish\n\n#![cfg_attr(rustfmt, rustfmt_skip)]\n#![allow(clippy::all, unknown_lints, unused, non_snake_case)]\n\npub mod alpha;\npub mod beta;\n";
    assert_eq!(g.emit_workspace(&members), Some(("mod.rs", expected.to_string())));
    let mut w = Scope::writer();
    {
        let mut s = Scope::new(&mut w);
        g.write_wrapper(&mut s, &members);
    }
    assert_eq!(w.into_inner(), expected);
    let none = Generator::new(&opts, RustTarget { wrapper: RustTargetWrapper::NoWrapper });
    assert_eq!(none.emit_workspace(&members), None);
    let lib = Generator::new(&opts, RustTarget { wrapper: RustTargetWrapper::Lib });
    let got = lib.emit_workspace(&vec![]).unwrap();
    assert_eq!(got.0, "lib.rs");
    assert!(got.1.ends_with("non_snake_case)]\n\n"));
}

#[test]
fn prelude_is_six_lines() {
    let opts = Opts { verbose: false };
    let g = Generator::new(&opts, RustTarget { wrapper: RustTargetWrapper::Lib });
    let mut w = Scope::writer();
    {
        let mut s = Scope::new(&mut w);
        g.write_prelude(&mut s);
    }
    let out = w.into_inner();
    assert_eq!(out.matches('\n').count(), 6);
    assert!(out.starts_with("// This file is generated by lavish: DO NOT EDIT\n"));
}

#[test]
fn member_artifact_is_the_surface_of_its_modules() {
    let opts = Opts { verbose: false };
    let g = Generator::new(&opts, RustTarget { wrapper: RustTargetWrapper::NoWrapper });
    let modules = vec![Module::new(span(), vec![NamespaceDecl::new(ident("a"), span(), None, vec![])])];
    assert_eq!(g.emit(&modules), codegen(&modules));
    assert!(g.emit(&modules).contains("    pub mod a {\n    }\n"));
}

#[test]
fn namespace_items_go_to_the_list_of_their_kind() {
    let f = |name: &str| FunctionDecl {
        loc: span(),
        comment: None,
        modifiers: vec![],
        name: ident(name),
        params: vec![],
        results: vec![],
    };
    let n = |name: &str| NotificationDecl { loc: span(), comment: None, name: ident(name), params: vec![] };
    let s = |name: &str| StructDecl { loc: span(), comment: None, name: ident(name), fields: vec![] };
    let items = vec![
        NamespaceItem::Struct(s("s1")),
        NamespaceItem::Function(f("f1")),
        NamespaceItem::Namespace(NamespaceDecl::new(ident("n1"), span(), None, vec![])),
        NamespaceItem::Notification(n("x1")),
        NamespaceItem::Function(f("f2")),
        NamespaceItem::Struct(s("s2")),
    ];
    let comment = Some(Comment { lines: vec!["doc".to_string()] });
    let ns = NamespaceDecl::new(ident("top"), span(), comment, items);
    assert_eq!(ns.name.text, "top");
    assert_eq!(ns.loc, span());
    assert_eq!(ns.comment.as_ref().unwrap().lines, vec!["doc"]);
    let names = |v: Vec<&Identifier>| v.iter().map(|i| i.text.clone()).collect::<Vec<_>>();
    assert_eq!(names(ns.functions.iter().map(|d| &d.name).collect()), vec!["f1", "f2"]);
    assert_eq!(names(ns.structs.iter().map(|d| &d.name).collect()), vec!["s1", "s2"]);
    assert_eq!(names(ns.notifications.iter().map(|d| &d.name).collect()), vec!["x1"]);
    assert_eq!(names(ns.namespaces.iter().map(|d| &d.name).collect()), vec!["n1"]);
    let mut ns = ns;
    ns.add_item(NamespaceItem::Notification(n("x2")));
    assert_eq!(ns.notifications.len(), 2);
    assert_eq!(ns.functions.len(), 2);
    assert_eq!(Comment::default().lines.len(), 0);
    let m = Module::new(span(), vec![ns]);
    assert_eq!(m.namespaces.len(), 1);
    assert_eq!(m.loc.offset, 3);
}
