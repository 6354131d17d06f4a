use lavish::ast::{FunctionDecl, FunctionModifier, Identifier, Span};
use lavish::diagnostics::locate;
use lavish::lang::quoted;
use lavish::naming::{Fun, FunKind};
use lavish::text::{join_with, replace, split};

fn span() -> Span {
    Span { offset: 0, len: 0 }
}

fn function(name: &str, modifiers: Vec<FunctionModifier>) -> FunctionDecl {
    FunctionDecl {
        loc: span(),
        comment: None,
        modifiers,
        name: Identifier { span: span(), text: name.to_string() },
        params: vec![],
        results: vec![],
    }
}

#[test]
fn names_of_a_function_in_one_namespace() {
    let decl = function("add", vec![]);
    let fun = Fun::new(&decl, "math.add".to_string());
    assert_eq!(fun.rpc_name(), "math.Add");
    assert_eq!(fun.variant_name(), "math_add");
    assert_eq!(fun.qualified_name(), "math::add");
    assert_eq!(fun.mod_name(), "add");
    assert!(!fun.is_notification());
    assert_eq!(fun.kind(), FunKind::Request);
}

#[test]
fn names_of_a_nested_path() {
    let decl = function("echo", vec![]);
    let fun = Fun::new(&decl, "svc.util.echo".to_string());
    assert_eq!(fun.rpc_name(), "svc.util.Echo");
    assert_eq!(fun.variant_name(), "svc_util_echo");
    assert_eq!(fun.qualified_name(), "svc::util::echo");
    assert_eq!(fun.mod_name(), "echo");
}

#[test]
fn wire_name_cases_every_segment() {
    let decl = function("get_user_info", vec![]);
    let fun = Fun::new(&decl, "user_service.HTTPApi.get_user_info".to_string());
    assert_eq!(fun.rpc_name(), "userService.httpApi.GetUserInfo");
    assert_eq!(fun.variant_name(), "userservice_httpapi_getuserinfo");
    assert_eq!(fun.qualified_name(), "user_service::HTTPApi::get_user_info");
    assert_eq!(fun.mod_name(), "get_user_info");
}

#[test]
fn module_name_is_the_snake_case_of_the_declared_name() {
    let decl = function("GetUserInfo", vec![]);
    let fun = Fun::new(&decl, "svc.GetUserInfo".to_string());
    assert_eq!(fun.mod_name(), "get_user_info");
    assert_eq!(fun.rpc_name(), "svc.GetUserInfo");
    assert_eq!(fun.variant_name(), "svc_getuserinfo");
}

#[test]
fn a_name_without_a_period_is_one_segment() {
    let decl = function("ping", vec![]);
    let fun = Fun::new(&decl, "ping".to_string());
    assert_eq!(fun.rpc_name(), "Ping");
    assert_eq!(fun.variant_name(), "ping");
    assert_eq!(fun.qualified_name(), "ping");
}

#[test]
fn notification_modifier_makes_a_notification() {
    let plain = function("a", vec![FunctionModifier::Server, FunctionModifier::Client]);
    let marked = function("b", vec![FunctionModifier::Client, FunctionModifier::Notification]);
    assert!(!Fun::new(&plain, "n.a".to_string()).is_notification());
    assert!(Fun::new(&marked, "n.b".to_string()).is_notification());
    assert_eq!(Fun::new(&marked, "n.b".to_string()).kind(), FunKind::Notification);
    assert_eq!(Fun::new(&marked, "n.b".to_string()).decl().name.text, "b");
}

#[test]
fn naming_is_the_same_on_every_call() {
    let decl = function("echo", vec![]);
    let one = Fun::new(&decl, "svc.util.echo".to_string());
    let two = Fun::new(&decl, "svc.util.echo".to_string());
    assert_eq!(one.rpc_name(), one.rpc_name());
    assert_eq!(one.rpc_name(), two.rpc_name());
    assert_eq!(one.variant_name(), two.variant_name());
    assert_eq!(one.qualified_name(), two.qualified_name());
    assert_eq!(one.mod_name(), two.mod_name());
}

#[test]
fn split_keeps_empty_pieces() {
    assert_eq!(split("a.b.c", '.'), vec!["a", "b", "c"]);
    assert_eq!(split("", '.'), vec![""]);
    assert_eq!(split("a.", '.'), vec!["a", ""]);
    assert_eq!(split(".a..b", '.'), vec!["", "a", "", "b"]);
    assert_eq!(split("abc", '.'), vec!["abc"]);
}

#[test]
fn join_puts_the_separator_between_neighbours() {
    let parts = vec!["a".to_string(), "b".to_string(), "c".to_string()];
    assert_eq!(join_with(&parts, "::"), "a::b::c");
    assert_eq!(join_with(&vec!["a".to_string()], "::"), "a");
    assert_eq!(join_with(&vec![], "::"), "");
    assert_eq!(join_with(&vec![String::new(), String::new()], ", "), ", ");
}

#[test]
fn replace_turns_every_occurrence() {
    assert_eq!(replace("a.b.c", '.', '_'), "a_b_c");
    assert_eq!(replace("...", '.', '_'), "___");
    assert_eq!(replace("abc", '.', '_'), "abc");
    assert_eq!(replace("", '.', '_'), "");
}

#[test]
fn quoted_escapes_like_debug() {
    assert_eq!(quoted("math.Add"), "\"math.Add\"");
    assert_eq!(quoted("a\"b\\c\n"), "\"a\\\"b\\\\c\\n\"");
    assert_eq!(quoted(""), "\"\"");
}

#[test]
fn locate_finds_line_and_column() {
    // "ab\ncde\n\nf"
    let lens = vec![2, 3, 0, 1];
    assert_eq!(locate(&lens, 0), (0, 0));
    assert_eq!(locate(&lens, 1), (0, 1));
    assert_eq!(locate(&lens, 2), (0, 2));
    assert_eq!(locate(&lens, 3), (1, 0));
    assert_eq!(locate(&lens, 6), (1, 3));
    assert_eq!(locate(&lens, 7), (2, 0));
    assert_eq!(locate(&lens, 8), (3, 0));
    assert_eq!(locate(&lens, 9), (3, 1));
    assert_eq!(locate(&lens, 10), (0, 0));
    assert_eq!(locate(&vec![], 0), (0, 0));
}
