use lavish::ast::{
    Field, FunctionDecl, FunctionModifier, Identifier, Module, NamespaceDecl, NamespaceItem, Span,
};
use lavish::codegen::codegen;
use lavish::forest::{Context, Namespace};
use lavish::naming::FunKind;

fn span() -> Span {
    Span { offset: 0, len: 0 }
}

fn ident(text: &str) -> Identifier {
    Identifier { span: span(), text: text.to_string() }
}

fn function(name: &str) -> FunctionDecl {
    FunctionDecl {
        loc: span(),
        comment: None,
        modifiers: vec![],
        name: ident(name),
        params: vec![],
        results: vec![],
    }
}

fn function_with_param(name: &str, param: &str) -> FunctionDecl {
    let mut f = function(name);
    f.params.push(Field {
        loc: span(),
        comment: None,
        name: ident(param),
        typ: "u8".to_string(),
    });
    f
}

fn notification(name: &str) -> FunctionDecl {
    let mut f = function(name);
    f.modifiers.push(FunctionModifier::Notification);
    f
}

fn ns(name: &str, functions: Vec<FunctionDecl>, namespaces: Vec<NamespaceDecl>) -> NamespaceDecl {
    let mut items: Vec<NamespaceItem> = functions.into_iter().map(NamespaceItem::Function).collect();
    items.extend(namespaces.into_iter().map(NamespaceItem::Namespace));
    NamespaceDecl::new(ident(name), span(), None, items)
}

fn module(namespaces: Vec<NamespaceDecl>) -> Module {
    Module::new(span(), namespaces)
}

fn child_names(n: &Namespace) -> Vec<String> {
    n.children().iter().map(|c| c.name().to_string()).collect()
}

fn fun_names(n: &Namespace) -> Vec<String> {
    n.own_funs().iter().map(|f| f.decl().name.text.clone()).collect()
}

fn paths(ctx: &Context) -> Vec<String> {
    ctx.all_funs().iter().map(|f| f.qualified_name()).collect()
}

#[test]
fn same_named_namespaces_merge_into_one() {
    let modules = vec![
        module(vec![ns("svc", vec![function("ping")], vec![])]),
        module(vec![ns("svc", vec![function("pong")], vec![])]),
    ];
    let ctx = Context::from_modules(&modules);
    assert_eq!(ctx.roots().len(), 1);
    let svc = &ctx.roots()[0];
    assert_eq!(svc.name(), "svc");
    assert_eq!(fun_names(svc), vec!["ping", "pong"]);
    assert_eq!(paths(&ctx), vec!["svc::ping", "svc::pong"]);
}

#[test]
fn functions_are_stamped_with_their_dotted_path() {
    let modules = vec![module(vec![ns(
        "a",
        vec![function("f")],
        vec![ns("b", vec![function("g")], vec![ns("c", vec![function("h")], vec![])])],
    )])];
    let ctx = Context::from_modules(&modules);
    assert_eq!(paths(&ctx), vec!["a::b::c::h", "a::b::g", "a::f"]);
    let a = &ctx.roots()[0];
    assert_eq!(a.own_funs()[0].rpc_name(), "a.F");
    assert_eq!(a.children()[0].own_funs()[0].rpc_name(), "a.b.G");
    assert_eq!(a.children()[0].children()[0].own_funs()[0].rpc_name(), "a.b.c.H");
    assert_eq!(a.decl().name.text, "a");
}

#[test]
fn a_later_function_of_the_same_path_wins_and_keeps_the_place() {
    let modules = vec![
        module(vec![ns("svc", vec![function("ping"), function("pong")], vec![])]),
        module(vec![ns("svc", vec![function_with_param("ping", "late")], vec![])]),
    ];
    let ctx = Context::from_modules(&modules);
    let svc = &ctx.roots()[0];
    assert_eq!(fun_names(svc), vec!["ping", "pong"]);
    assert_eq!(svc.own_funs()[0].decl().params.len(), 1);
    assert_eq!(svc.own_funs()[0].decl().params[0].name.text, "late");
    assert_eq!(svc.own_funs()[1].decl().params.len(), 0);
}

#[test]
fn children_merge_recursively_and_keep_first_order() {
    let modules = vec![
        module(vec![
            ns("a", vec![], vec![ns("x", vec![function("f")], vec![]), ns("y", vec![], vec![])]),
            ns("b", vec![function("g")], vec![]),
        ]),
        module(vec![
            ns("c", vec![], vec![]),
            ns("a", vec![function("top")], vec![
                ns("z", vec![], vec![]),
                ns("x", vec![function("h")], vec![]),
            ]),
        ]),
    ];
    let ctx = Context::from_modules(&modules);
    let roots: Vec<String> = ctx.roots().iter().map(|r| r.name().to_string()).collect();
    assert_eq!(roots, vec!["a", "b", "c"]);
    let a = &ctx.roots()[0];
    assert_eq!(child_names(a), vec!["x", "y", "z"]);
    assert_eq!(fun_names(&a.children()[0]), vec!["f", "h"]);
    assert_eq!(fun_names(a), vec!["top"]);
    assert_eq!(paths(&ctx), vec!["a::x::f", "a::x::h", "a::top", "b::g"]);
}

#[test]
fn a_later_sibling_of_the_same_name_replaces_the_earlier_one() {
    let modules = vec![module(vec![ns(
        "a",
        vec![function("f"), function_with_param("f", "p")],
        vec![ns("x", vec![function("one")], vec![]), ns("x", vec![function("two")], vec![])],
    )])];
    let ctx = Context::from_modules(&modules);
    let a = &ctx.roots()[0];
    assert_eq!(fun_names(a), vec!["f"]);
    assert_eq!(a.own_funs()[0].decl().params.len(), 1);
    assert_eq!(child_names(a), vec!["x"]);
    assert_eq!(fun_names(&a.children()[0]), vec!["two"]);
}

#[test]
fn merge_of_two_trees() {
    let left = ns("svc", vec![function("a")], vec![ns("in", vec![function("x")], vec![])]);
    let right = ns(
        "svc",
        vec![function("b"), function_with_param("a", "p")],
        vec![ns("in", vec![function("y")], vec![]), ns("new", vec![], vec![])],
    );
    let mut l = Namespace::new(&left);
    Context::visit_ns("", &mut l);
    let mut r = Namespace::new(&right);
    Context::visit_ns("", &mut r);
    l.merge(r);
    assert_eq!(fun_names(&l), vec!["a", "b"]);
    assert_eq!(l.own_funs()[0].decl().params.len(), 1);
    assert_eq!(child_names(&l), vec!["in", "new"]);
    assert_eq!(fun_names(&l.children()[0]), vec!["x", "y"]);
    let all: Vec<String> = l.funs().iter().map(|f| f.qualified_name()).collect();
    assert_eq!(all, vec!["svc::in::x", "svc::in::y", "svc::a", "svc::b"]);
}

#[test]
fn visit_ns_uses_the_prefix() {
    let decl = ns("leaf", vec![function("f")], vec![]);
    let mut n = Namespace::new(&decl);
    Context::visit_ns("root.mid.", &mut n);
    assert_eq!(n.own_funs()[0].qualified_name(), "root::mid::leaf::f");
    assert_eq!(n.own_funs()[0].rpc_name(), "root.mid.leaf.F");
}

#[test]
fn visit_toplevel_ns_merges_or_appends() {
    let a1 = ns("a", vec![function("f")], vec![]);
    let b = ns("b", vec![], vec![]);
    let a2 = ns("a", vec![function("g")], vec![]);
    let mut ctx = Context::new();
    assert_eq!(ctx.roots().len(), 0);
    ctx.visit_toplevel_ns(&a1);
    ctx.visit_toplevel_ns(&b);
    ctx.visit_toplevel_ns(&a2);
    assert_eq!(ctx.roots().len(), 2);
    assert_eq!(fun_names(&ctx.roots()[0]), vec!["f", "g"]);
    assert_eq!(ctx.roots()[1].name(), "b");
}

#[test]
fn funs_by_kind_keep_the_order_of_all_funs() {
    let modules = vec![module(vec![ns(
        "a",
        vec![function("r1"), notification("n1"), function("r2")],
        vec![ns("b", vec![notification("n0"), function("r0")], vec![])],
    )])];
    let ctx = Context::from_modules(&modules);
    assert_eq!(paths(&ctx), vec!["a::b::n0", "a::b::r0", "a::r1", "a::n1", "a::r2"]);
    let requests: Vec<String> =
        ctx.funs(FunKind::Request).iter().map(|f| f.qualified_name()).collect();
    let notifications: Vec<String> =
        ctx.funs(FunKind::Notification).iter().map(|f| f.qualified_name()).collect();
    assert_eq!(requests, vec!["a::b::r0", "a::r1", "a::r2"]);
    assert_eq!(notifications, vec!["a::b::n0", "a::n1"]);
    assert_eq!(requests.len() + notifications.len(), ctx.all_funs().len());
}

fn three_modules() -> (Module, Module, Module) {
    let a = module(vec![
        ns("svc", vec![function("ping")], vec![ns("in", vec![function("x")], vec![])]),
        ns("only_a", vec![function("f")], vec![]),
    ]);
    let b = module(vec![
        ns("svc", vec![function_with_param("ping", "b"), function("pong")], vec![
            ns("in", vec![function("y")], vec![]),
        ]),
        ns("only_b", vec![], vec![]),
    ]);
    let c = module(vec![
        ns("only_b", vec![function("g")], vec![]),
        ns("svc", vec![function_with_param("pong", "c")], vec![
            ns("deep", vec![], vec![]),
            ns("in", vec![function_with_param("x", "c")], vec![]),
        ]),
    ]);
    (a, b, c)
}

#[test]
fn merging_module_lists_is_associative() {
    let (a, b, c) = three_modules();
    let all = vec![a, b, c];
    let whole = codegen(&all);

    let (a, b, c) = three_modules();
    let ab = vec![a, b];
    let only_c = vec![c];
    let mut left = Context::from_modules(&ab);
    for d in &only_c[0].namespaces {
        left.visit_toplevel_ns(d);
    }

    let (a, b, c) = three_modules();
    let only_a = vec![a];
    let bc = vec![b, c];
    let mut right = Context::from_modules(&only_a);
    for m in &bc {
        for d in &m.namespaces {
            right.visit_toplevel_ns(d);
        }
    }

    assert_eq!(paths(&left), paths(&right));
    let (a, b, c) = three_modules();
    let again = vec![a, b, c];
    let ctx = Context::from_modules(&again);
    assert_eq!(paths(&ctx), paths(&left));
    assert_eq!(
        paths(&ctx),
        vec!["svc::in::x", "svc::in::y", "svc::ping", "svc::pong", "only_a::f", "only_b::g"]
    );
    let svc = &ctx.roots()[0];
    assert_eq!(child_names(svc), vec!["in", "deep"]);
    assert_eq!(svc.own_funs()[0].decl().params[0].name.text, "b");
    assert_eq!(svc.own_funs()[1].decl().params[0].name.text, "c");
    assert_eq!(svc.children()[0].own_funs()[0].decl().params[0].name.text, "c");
    assert_eq!(whole, codegen(&again));
}

#[test]
fn disjoint_modules_merge_to_their_union_in_either_order() {
    let first = || module(vec![ns("svc", vec![function("ping")], vec![ns("in", vec![function("x")], vec![])])]);
    let second = || module(vec![ns("svc", vec![function("pong")], vec![ns("in", vec![function("y")], vec![])]), ns("other", vec![function("z")], vec![])]);
    let ab = vec![first(), second()];
    let ba = vec![second(), first()];
    let mut one = paths(&Context::from_modules(&ab));
    let mut two = paths(&Context::from_modules(&ba));
    assert_eq!(one, vec!["svc::in::x", "svc::in::y", "svc::ping", "svc::pong", "other::z"]);
    assert_eq!(two, vec!["svc::in::y", "svc::in::x", "svc::pong", "svc::ping", "other::z"]);
    one.sort();
    two.sort();
    assert_eq!(one, two);
}
