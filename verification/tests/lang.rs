use lavish::lang::{_enum, _fn, _impl, _impl_trait, WriteTo};
use lavish::output::{Code, Scope};

#[test]
fn allow_lists_its_lints_sorted_and_once() {
    assert_eq!(lavish::lang::allow().fmt(), "#[allow()]\n");
    assert_eq!(lavish::lang::allow().unused().fmt(), "#[allow(unused)]\n");
    assert_eq!(lavish::lang::allow().non_camel_case().unused().fmt(), "#[allow(non_camel_case_types, unused)]\n");
    assert_eq!(
        lavish::lang::allow().unused().non_camel_case().unused().fmt(),
        "#[allow(non_camel_case_types, unused)]\n"
    );
}

#[test]
fn derive_lists_its_traits_sorted_and_once() {
    assert_eq!(lavish::lang::derive().fmt(), "#[derive()]\n");
    assert_eq!(lavish::lang::derive().debug().fmt(), "#[derive(Debug)]\n");
    assert_eq!(lavish::lang::derive().debug().clone().copy().fmt(), "#[derive(Clone, Copy, Debug)]\n");
    assert_eq!(lavish::lang::derive().copy().debug().copy().fmt(), "#[derive(Copy, Debug)]\n");
}

#[test]
fn function_without_generics_has_no_angle_brackets() {
    let f = _fn("protocol").kw_pub().returning("Protocol").body(vec![Code::Line("Protocol::new()".to_string())]);
    assert_eq!(f.fmt(), "pub fn protocol() -> Protocol {\n    Protocol::new()\n}\n");
    assert!(!f.fmt().contains('<'));
}

#[test]
fn function_without_parameters_still_has_round_brackets() {
    assert_eq!(_fn("f").fmt(), "fn f();\n");
    assert_eq!(_fn("f").type_param("T").fmt(), "fn f<T>();\n");
    assert_eq!(_fn("f").self_param("&self").fmt(), "fn f(&self);\n");
    assert_eq!(_fn("f").self_param("&self").param("a: u8").param("b: T").fmt(), "fn f(&self, a: u8, b: T);\n");
}

#[test]
fn function_with_bounds_has_a_bound_clause() {
    let f = _fn("call")
        .kw_pub()
        .type_param_bound("F", "Fn() -> R")
        .type_param("R")
        .type_param_bound("E", "Error")
        .self_bound("Sized")
        .param("f: F")
        .returning("Result<R, E>")
        .body(vec![Code::Line("f()".to_string())]);
    assert_eq!(
        f.fmt(),
        "pub fn call<F, R, E>(f: F) -> Result<R, E>\nwhere\n    Self: Sized,\n    F: Fn() -> R,\n    E: Error,\n{\n    f()\n}\n"
    );
    let g = _fn("g").type_param_bound("T", "Clone");
    assert_eq!(g.fmt(), "fn g<T>()\nwhere\n    T: Clone,\n;\n");
}

#[test]
fn function_is_indented_by_the_scope_it_is_written_to() {
    let f = _fn("f").body(vec![Code::Line("x".to_string())]);
    let mut w = Scope::writer();
    {
        let mut s = Scope::new(&mut w);
        let mut inner = s.scope();
        f.write_to(&mut inner);
        lavish::lang::allow().unused().write_to(&mut inner);
        lavish::lang::derive().debug().write_to(&mut inner);
    }
    assert_eq!(
        w.into_inner(),
        "    fn f() {\n        x\n    }\n    #[allow(unused)]\n    #[derive(Debug)]\n"
    );
}

#[test]
fn implementation_blocks() {
    assert_eq!(_impl("Params").fmt(), "impl Params {\n}\n");
    assert_eq!(
        _impl_trait("rpc::Atom", "Params").body(vec![Code::Line("x".to_string())]).fmt(),
        "impl rpc::Atom for Params {\n    x\n}\n"
    );
    assert_eq!(
        _impl_trait("Clone", "Slot").type_param("A").type_param_bound("T", "Clone").fmt(),
        "impl<A, T> Clone for Slot<A, T>\nwhere\n    T: Clone,\n{\n}\n"
    );
    let mut w = Scope::writer();
    {
        let mut s = Scope::new(&mut w);
        let mut inner = s.scope();
        _impl("X").write_to(&mut inner);
    }
    assert_eq!(w.into_inner(), "    impl X {\n    }\n");
}

#[test]
fn enum_definitions() {
    let mut e = _enum("Params");
    assert_eq!(e.fmt(), "enum Params {}\n");
    e.kw_pub();
    assert_eq!(e.fmt(), "pub enum Params {}\n");
    e.variant("A(a::Params)");
    e.variant("B");
    assert_eq!(e.fmt(), "pub enum Params {\n    A(a::Params),\n    B,\n}\n");
    let mut w = Scope::writer();
    {
        let mut s = Scope::new(&mut w);
        let mut inner = s.scope();
        e.write_to(&mut inner);
    }
    assert_eq!(w.into_inner(), "    pub enum Params {\n        A(a::Params),\n        B,\n    }\n");
}
