use lavish::ast::{
    Comment, Field, FunctionDecl, FunctionModifier, Identifier, Module, NamespaceDecl,
    NamespaceItem, Span,
};
use lavish::codegen::{codegen, comment, def_struct, visit_ns, write_enum, write_fun_module};
use lavish::forest::Context;
use lavish::naming::FunKind;
use lavish::output::{Scope, Writer};

fn span() -> Span {
    Span { offset: 0, len: 0 }
}

fn ident(text: &str) -> Identifier {
    Identifier { span: span(), text: text.to_string() }
}

fn field(name: &str, typ: &str) -> Field {
    Field { loc: span(), comment: None, name: ident(name), typ: typ.to_string() }
}

fn function(name: &str, params: Vec<Field>, results: Vec<Field>) -> FunctionDecl {
    FunctionDecl {
        loc: span(),
        comment: None,
        modifiers: vec![],
        name: ident(name),
        params,
        results,
    }
}

fn namespace(name: &str, items: Vec<NamespaceItem>) -> NamespaceDecl {
    NamespaceDecl::new(ident(name), span(), None, items)
}

fn math_modules() -> Vec<Module> {
    let add = function(
        "add",
        vec![field("a", "i32"), field("b", "i32")],
        vec![field("sum", "i32")],
    );
    let mut log = function("log", vec![field("msg", "String")], vec![]);
    log.modifiers.push(FunctionModifier::Notification);
    log.comment = Some(Comment { lines: vec!["Logs a message.".to_string()] });
    let util = namespace("util", vec![NamespaceItem::Function(log)]);
    let math = namespace(
        "math",
        vec![NamespaceItem::Function(add), NamespaceItem::Namespace(util)],
    );
    vec![Module::new(span(), vec![math])]
}

fn assert_same_lines(got: &str, want: &str) {
    let got_lines: Vec<&str> = got.split('\n').collect();
    let want_lines: Vec<&str> = want.split('\n').collect();
    for (i, w) in want_lines.iter().enumerate() {
        assert!(i < got_lines.len(), "line {} is missing: {:?}", i + 1, w);
        assert_eq!(&got_lines[i], w, "line {}", i + 1);
    }
    assert_eq!(got_lines.len(), want_lines.len());
}

const MATH_SURFACE: &str = r##"// This file is generated by lavish: DO NOT EDIT
// https://github.com/fasterthanlime/lavish

// Kindly ask rustfmt not to reformat this file.
#![cfg_attr(rustfmt, rustfmt_skip)]

// Disable some lints, since this file is generated.
#![allow(clippy::all)]
#![allow(unknown_lints)]
#![allow(unused)]

pub use __::*;

mod __ {
    // Notes: as of 2019-05-21, futures-preview is required
    use futures::prelude::*;
    use std::pin::Pin;
    use std::sync::Arc;

    use lavish_rpc as rpc;
    use lavish_rpc::serde_derive::*;
    use lavish_rpc::erased_serde;

    #[derive(Serialize, Debug)]
    #[serde(untagged)]
    #[allow(non_camel_case_types, unused)]
    pub enum Params {
        math_add(math::add::Params),
    }

    #[derive(Serialize, Debug)]
    #[serde(untagged)]
    #[allow(non_camel_case_types, unused)]
    pub enum Results {
        math_add(math::add::Results),
    }

    #[derive(Serialize, Debug)]
    #[serde(untagged)]
    #[allow(non_camel_case_types, unused)]
    pub enum NotificationParams {
        math_util_log(math::util::log::Params),
    }

    pub type Message = rpc::Message<Params, NotificationParams, Results>;
    pub type Handle = rpc::Handle<Params, NotificationParams, Results>;
    pub type System = rpc::System<Params, NotificationParams, Results>;
    pub type Protocol = rpc::Protocol<Params, NotificationParams, Results>;
    pub type HandlerRet = Pin<Box<dyn Future<Output = Result<Results, rpc::Error>> + Send + 'static>>;

    pub fn protocol() -> Protocol {
        Protocol::new()
    }

    impl rpc::Atom for Params {
        fn method(&self) -> &'static str {
            match self {
                Params::math_add(_) => "math.Add",
            }
        }

        fn deserialize(
            method: &str,
            de: &mut erased_serde::Deserializer,
        ) -> erased_serde::Result<Self> {
            use erased_serde::deserialize as deser;
            use serde::de::Error;

            match method {
                "math.Add" =>
                    Ok(Params::math_add(deser::<math::add::Params>(de)?)),
                _ => Err(erased_serde::Error::custom(format!(
                    "unknown method: {}",
                    method,
                ))),
            }
        }
    }

    impl rpc::Atom for Results {
        fn method(&self) -> &'static str {
            match self {
                Results::math_add(_) => "math.Add",
            }
        }

        fn deserialize(
            method: &str,
            de: &mut erased_serde::Deserializer,
        ) -> erased_serde::Result<Self> {
            use erased_serde::deserialize as deser;
            use serde::de::Error;

            match method {
                "math.Add" =>
                    Ok(Results::math_add(deser::<math::add::Results>(de)?)),
                _ => Err(erased_serde::Error::custom(format!(
                    "unknown method: {}",
                    method,
                ))),
            }
        }
    }

    impl rpc::Atom for NotificationParams {
        fn method(&self) -> &'static str {
            match self {
                NotificationParams::math_util_log(_) => "math.util.Log",
            }
        }

        fn deserialize(
            method: &str,
            de: &mut erased_serde::Deserializer,
        ) -> erased_serde::Result<Self> {
            use erased_serde::deserialize as deser;
            use serde::de::Error;

            match method {
                "math.util.Log" =>
                    Ok(NotificationParams::math_util_log(deser::<math::util::log::Params>(de)?)),
                _ => Err(erased_serde::Error::custom(format!(
                    "unknown method: {}",
                    method,
                ))),
            }
        }
    }

    pub struct Call<T, PP> {
        pub state: Arc<T>,
        pub handle: Handle,
        pub params: PP,
    }

    pub type SlotFuture = 
        Future<Output = Result<Results, rpc::Error>> + Send + 'static;

    pub type SlotReturn = Pin<Box<SlotFuture>>;

    pub type SlotFn<'a, T> = 
        Fn(Arc<T>, Handle, Params) -> SlotReturn + 'a + Send + Sync;

    pub type Slot<'a, T> = Option<Box<SlotFn<'a, T>>>;

    pub struct Handler<'a, T> {
        state: Arc<T>,
        math_add: Slot<'a, T>,
    }

    pub mod math {
        pub mod util {
            // Logs a message.
            pub mod log {
                use futures::prelude::*;
                use lavish_rpc::serde_derive::*;
                use super::super::super::super::__;

                #[derive(Serialize, Deserialize, Debug)]
                pub struct Params {
                    pub msg: String,
                }

                impl Params {
                    pub fn downgrade(p: __::NotificationParams) -> Option<Self> {
                        match p {
                            __::NotificationParams::math_util_log(p) => Some(p),
                            _ => None,
                        }
                    }
                }
            }

        }

        pub mod add {
            use futures::prelude::*;
            use lavish_rpc::serde_derive::*;
            use super::super::super::__;

            #[derive(Serialize, Deserialize, Debug)]
            pub struct Params {
                pub a: i32,
                pub b: i32,
            }

            impl Params {
                pub fn downgrade(p: __::Params) -> Option<Self> {
                    match p {
                        __::Params::math_add(p) => Some(p),
                        _ => None,
                    }
                }
            }

            #[derive(Serialize, Deserialize, Debug)]
            pub struct Results {
                pub sum: i32,
            }

            impl Results {
                pub fn downgrade(p: __::Results) -> Option<Self> {
                    match p {
                        __::Results::math_add(p) => Some(p),
                        _ => None,
                    }
                }
            }

            pub async fn call(h: &__::Handle, p: Params) -> Result<Results, lavish_rpc::Error> {
                h.call(
                    __::Params::math_add(p),
                    Results::downgrade,
                ).await
            }

            pub fn register<'a, T, F, FT>(h: &mut __::Handler<'a, T>, f: F)
            where
                F: Fn(__::Call<T, Params>) -> FT + Sync + Send + 'a,
                FT: Future<Output = Result<Results, lavish_rpc::Error>> + Send + 'static,
            {
                unimplemented!()
            }
        }

    }

}
"##;

#[test]
fn surface_of_a_request_and_a_notification() {
    let modules = math_modules();
    let out = codegen(&modules);
    assert_same_lines(&out, MATH_SURFACE);
    assert_eq!(out, MATH_SURFACE);
}

#[test]
fn surface_is_the_same_on_every_run() {
    let modules = math_modules();
    assert_eq!(codegen(&modules), codegen(&modules));
}

#[test]
fn surface_of_no_module() {
    let out = codegen(&vec![]);
    assert!(out.starts_with("// This file is generated by lavish: DO NOT EDIT\n"));
    assert!(out.contains("    pub enum Params {\n    }\n"));
    assert!(out.contains("    pub enum Results {\n    }\n"));
    assert!(out.contains("    pub enum NotificationParams {\n    }\n"));
    assert!(out.contains("    pub struct Handler<'a, T> {\n        state: Arc<T>,\n    }\n"));
    assert!(out.ends_with("    pub struct Handler<'a, T> {\n        state: Arc<T>,\n    }\n}\n"));
    assert!(!out.contains("pub mod "));
}

#[test]
fn every_fun_has_one_module_and_one_variant_per_class() {
    let modules = math_modules();
    let out = codegen(&modules);
    assert_eq!(out.matches("        math_add(math::add::Params),\n").count(), 1);
    assert_eq!(out.matches("        math_add(math::add::Results),\n").count(), 1);
    assert_eq!(out.matches("        math_util_log(math::util::log::Params),\n").count(), 1);
    assert_eq!(out.matches("math_util_log(math::util::log::Results)").count(), 0);
    assert_eq!(out.matches("pub mod add {").count(), 1);
    assert_eq!(out.matches("pub mod log {").count(), 1);
    assert_eq!(out.matches("pub mod math {").count(), 1);
    assert_eq!(out.matches("pub mod util {").count(), 1);
    assert_eq!(out.matches("pub struct Results {").count(), 1);
    assert_eq!(out.matches("pub async fn call(").count(), 1);
    assert_eq!(out.matches("pub fn register<").count(), 1);
    assert_eq!(out.matches("            math_add: Slot<'a, T>,\n").count(), 0);
    assert_eq!(out.matches("        math_add: Slot<'a, T>,\n").count(), 1);
    assert_eq!(out.matches("math_util_log: Slot").count(), 0);
}

#[test]
fn math_add_module_has_params_and_results_records() {
    let modules = math_modules();
    let out = codegen(&modules);
    assert!(out.contains(
        "            pub struct Params {\n                pub a: i32,\n                pub b: i32,\n            }\n"
    ));
    assert!(out.contains(
        "            pub struct Results {\n                pub sum: i32,\n            }\n"
    ));
    assert!(out.contains("Params::math_add(_) => \"math.Add\","));
    assert!(out.contains("use super::super::super::__;\n"));
    assert!(out.contains("use super::super::super::super::__;\n"));
}

#[test]
fn write_enum_writes_variants_one_level_deeper() {
    let modules = math_modules();
    let ctx = Context::from_modules(&modules);
    let requests = ctx.funs(FunKind::Request);
    let mut w = Scope::writer();
    {
        let mut s = Scope::new(&mut w);
        write_enum(&mut s, "Params", &requests);
    }
    assert_eq!(w.into_inner(), "    math_add(math::add::Params),\n");
}

#[test]
fn comment_writes_line_comments() {
    let mut w = Scope::writer();
    {
        let mut s = Scope::new(&mut w);
        comment(&mut s, &None);
        comment(
            &mut s,
            &Some(Comment { lines: vec!["one".to_string(), "two".to_string()] }),
        );
    }
    assert_eq!(w.into_inner(), "// one\n// two\n");
}

#[test]
fn def_struct_writes_one_field_per_line() {
    let mut w = Writer::new(String::new());
    {
        let mut s = Scope::new(&mut w);
        def_struct(&mut s, "Params", &vec![field("a", "i32"), field("b", "Vec<u8>")]);
        def_struct(&mut s, "Empty", &vec![]);
    }
    assert_eq!(
        w.into_inner(),
        "#[derive(Serialize, Deserialize, Debug)]\npub struct Params {\n    pub a: i32,\n    pub b: Vec<u8>,\n}\n#[derive(Serialize, Deserialize, Debug)]\npub struct Empty {\n}\n"
    );
}

#[test]
fn notification_module_has_no_results() {
    let modules = math_modules();
    let ctx = Context::from_modules(&modules);
    let notifications = ctx.funs(FunKind::Notification);
    assert_eq!(notifications.len(), 1);
    let mut w = Scope::writer();
    {
        let mut s = Scope::new(&mut w);
        write_fun_module(&mut s, notifications[0], "super::");
    }
    let out = w.into_inner();
    assert!(out.starts_with("// Logs a message.\npub mod log {\n    use futures::prelude::*;\n"));
    assert!(out.contains("    use super::__;\n"));
    assert!(out.contains("        pub fn downgrade(p: __::NotificationParams) -> Option<Self> {\n"));
    assert!(out.contains("                __::NotificationParams::math_util_log(p) => Some(p),\n"));
    assert!(!out.contains("Results"));
    assert!(!out.contains("pub async fn call"));
    assert!(!out.contains("register"));
    assert!(out.ends_with("    }\n}\n\n"));
}

#[test]
fn visit_ns_nests_children_before_functions() {
    let modules = math_modules();
    let ctx = Context::from_modules(&modules);
    let mut w = Scope::writer();
    {
        let mut s = Scope::new(&mut w);
        visit_ns(&mut s, &ctx.roots()[0], "super::");
    }
    let out = w.into_inner();
    assert!(out.starts_with("pub mod math {\n    pub mod util {\n        // Logs a message.\n        pub mod log {\n"));
    let util = out.find("pub mod util {").unwrap();
    let add = out.find("pub mod add {").unwrap();
    assert!(util < add);
    assert!(out.contains("            use super::super::__;\n"));
    assert!(out.contains("        use super::__;\n"));
    assert!(out.ends_with("    }\n\n}\n\n"));
}
