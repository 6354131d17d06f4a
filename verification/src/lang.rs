//! Code elements: builders for attributes, functions, trait
//! implementations and enums, written out through a scope.

use crate::output::{
    block_closed, block_opened, emit, emit_block, emit_char, emit_list, Brackets, Code, Emitted,
    Scope,
};
use crate::text::{join, join_with, texts};
use vstd::prelude::*;
use vstd::string::*;

verus! {

/// `s` as a string literal: between double quotes, with the escapes of
/// `Debug` for `str`.
pub uninterp spec fn debug_quoted(s: Seq<char>) -> Seq<char>;

/// `format!` with `{:?}` on a `str`: the result depends on the characters
/// of `d` alone; it is known here only by its name.
#[verifier::external_body]
fn debug_format(d: &str) -> (r: String)
    ensures
        r@ == debug_quoted(d@),
{
    format!("{:?}", d)
}

/// `d` as a string literal.
pub fn quoted(d: &str) -> (r: String)
    ensures
        r@ == debug_quoted(d@),
{
    debug_format(d)
}

/// Something that has a text and can write it to a scope.
pub trait WriteTo {
    /// The text, as it stands at depth zero.
    spec fn text(&self) -> Seq<char>;

    /// Writes the text to `s`, which indents every line of it.
    fn write_to(&self, s: &mut Scope)
        ensures
            final(s)@ == emit(old(s)@, self.text()),
            *final(final(s).writer) == *final(old(s).writer),
    ;
}

/// Writes `lines`, one per line.
fn write_lines(s: &mut Scope, lines: &Vec<String>)
    ensures
        final(s)@ == old(s)@.lines(texts(lines@), lines@.len()),
        *final(final(s).writer) == *final(old(s).writer),
{
    let mut i: usize = 0;
    while i < lines.len()
        invariant
            i <= lines.len(),
            s@ == old(s)@.lines(texts(lines@), i as nat),
            *final(s.writer) == *final(old(s).writer),
        decreases lines.len() - i,
    {
        s.line(lines[i].as_str());
        i += 1;
    }
}

/// A lint-suppression attribute: a set of lints.
pub struct Allow {
    pub non_camel_case: bool,
    pub unused: bool,
}

/// The lints of the attribute, sorted, each once.
pub open spec fn allow_items(a: Allow) -> Seq<Seq<char>> {
    (if a.non_camel_case {
        seq!["non_camel_case_types"@]
    } else {
        Seq::empty()
    }) + (if a.unused {
        seq!["unused"@]
    } else {
        Seq::empty()
    })
}

/// The attribute on a line of its own.
pub open spec fn allow_text(a: Allow) -> Seq<char> {
    "#[allow("@ + join(allow_items(a), ", "@) + ")]\n"@
}

impl Allow {
    /// Adds the lint on type names that are not in camel case.
    pub fn non_camel_case(self) -> (r: Allow)
        ensures
            r == (Allow { non_camel_case: true, ..self }),
    {
        Allow { non_camel_case: true, unused: self.unused }
    }

    /// Adds the lint on unused items.
    pub fn unused(self) -> (r: Allow)
        ensures
            r == (Allow { unused: true, ..self }),
    {
        Allow { non_camel_case: self.non_camel_case, unused: true }
    }

    /// The attribute as text.
    pub fn fmt(&self) -> (r: String)
        ensures
            r@ == allow_text(*self),
    {
        let mut items: Vec<String> = Vec::new();
        if self.non_camel_case {
            items.push(String::from_str("non_camel_case_types"));
        }
        if self.unused {
            items.push(String::from_str("unused"));
        }
        assert(texts(items@) =~= allow_items(*self));
        let mut r = String::from_str("#[allow(");
        r.append(join_with(&items, ", ").as_str());
        r.append(")]\n");
        r
    }
}

impl WriteTo for Allow {
    open spec fn text(&self) -> Seq<char> {
        allow_text(*self)
    }

    fn write_to(&self, s: &mut Scope) {
        s.write(self.fmt().as_str());
    }
}

/// A lint-suppression attribute without lints.
pub fn allow() -> (a: Allow)
    ensures
        a == (Allow { non_camel_case: false, unused: false }),
{
    Allow { non_camel_case: false, unused: false }
}

/// A derive attribute: a set of traits.
pub struct Derive {
    pub debug: bool,
    pub clone: bool,
    pub copy: bool,
}

/// The traits of the attribute, sorted, each once.
pub open spec fn derive_items(d: Derive) -> Seq<Seq<char>> {
    (if d.clone {
        seq!["Clone"@]
    } else {
        Seq::empty()
    }) + (if d.copy {
        seq!["Copy"@]
    } else {
        Seq::empty()
    }) + (if d.debug {
        seq!["Debug"@]
    } else {
        Seq::empty()
    })
}

/// The attribute on a line of its own.
pub open spec fn derive_text(d: Derive) -> Seq<char> {
    "#[derive("@ + join(derive_items(d), ", "@) + ")]\n"@
}

impl Derive {
    /// Adds `Debug`.
    pub fn debug(self) -> (r: Derive)
        ensures
            r == (Derive { debug: true, ..self }),
    {
        Derive { debug: true, clone: self.clone, copy: self.copy }
    }

    /// Adds `Clone`.
    pub fn clone(self) -> (r: Derive)
        ensures
            r == (Derive { clone: true, ..self }),
    {
        Derive { debug: self.debug, clone: true, copy: self.copy }
    }

    /// Adds `Copy`.
    pub fn copy(self) -> (r: Derive)
        ensures
            r == (Derive { copy: true, ..self }),
    {
        Derive { debug: self.debug, clone: self.clone, copy: true }
    }

    /// The attribute as text.
    pub fn fmt(&self) -> (r: String)
        ensures
            r@ == derive_text(*self),
    {
        let mut items: Vec<String> = Vec::new();
        if self.clone {
            items.push(String::from_str("Clone"));
        }
        if self.copy {
            items.push(String::from_str("Copy"));
        }
        if self.debug {
            items.push(String::from_str("Debug"));
        }
        assert(texts(items@) =~= derive_items(*self));
        let mut r = String::from_str("#[derive(");
        r.append(join_with(&items, ", ").as_str());
        r.append(")]\n");
        r
    }
}

impl WriteTo for Derive {
    open spec fn text(&self) -> Seq<char> {
        derive_text(*self)
    }

    fn write_to(&self, s: &mut Scope) {
        s.write(self.fmt().as_str());
    }
}

/// A derive attribute without traits.
pub fn derive() -> (d: Derive)
    ensures
        d == (Derive { debug: false, clone: false, copy: false }),
{
    Derive { debug: false, clone: false, copy: false }
}

/// A generic type parameter with its bound, if it has one.
#[derive(Clone)]
pub struct TypeParam {
    pub name: String,
    pub bound: Option<String>,
}

/// What a type parameter is: its name and its bound.
pub struct TypeParamView {
    pub name: Seq<char>,
    pub bound: Option<Seq<char>>,
}

impl View for TypeParam {
    type V = TypeParamView;

    open spec fn view(&self) -> TypeParamView {
        TypeParamView { name: self.name@, bound: opt_text(self.bound) }
    }
}

/// The characters of an optional string.
pub open spec fn opt_text(o: Option<String>) -> Option<Seq<char>> {
    match o {
        Some(s) => Some(s@),
        None => None,
    }
}

/// What the type parameters of `v` are.
pub open spec fn param_views(v: Seq<TypeParam>) -> Seq<TypeParamView> {
    Seq::new(v.len(), |i: int| v[i]@)
}

/// The names of type parameters, in order.
pub open spec fn param_names(tps: Seq<TypeParamView>) -> Seq<Seq<char>> {
    Seq::new(tps.len(), |i: int| tps[i].name)
}

/// One line for every type parameter that has a bound, in order.
pub open spec fn bound_lines(tps: Seq<TypeParamView>) -> Seq<Seq<char>>
    decreases tps.len(),
{
    if tps.len() == 0 {
        Seq::empty()
    } else {
        match tps.last().bound {
            Some(b) => bound_lines(tps.drop_last()).push(tps.last().name + ": "@ + b + ","@),
            None => bound_lines(tps.drop_last()),
        }
    }
}

/// The lines of a bound clause: the bound on `Self`, if there is one, and
/// then the bounds on type parameters.
pub open spec fn where_lines(
    self_bound: Option<Seq<char>>,
    tps: Seq<TypeParamView>,
) -> Seq<Seq<char>> {
    (match self_bound {
        Some(b) => seq!["Self: "@ + b + ","@],
        None => Seq::empty(),
    }) + bound_lines(tps)
}

/// A bound clause, where there is a bound: `where` on a line of its own,
/// and the bounds one level deeper. Nothing where there is none.
pub open spec fn where_clause(e: Emitted, lines: Seq<Seq<char>>) -> Emitted {
    if lines.len() == 0 {
        e
    } else {
        let head = emit_char(emit(emit_char(e, '\n'), "where"@), '\n');
        head.resumed(head.nested().lines(lines, lines.len()))
    }
}

/// The names of `tps`, each as a string of its own.
fn names_of(tps: &Vec<TypeParam>) -> (names: Vec<String>)
    ensures
        texts(names@) == param_names(param_views(tps@)),
{
    let mut names: Vec<String> = Vec::new();
    let mut i: usize = 0;
    while i < tps.len()
        invariant
            i <= tps.len(),
            texts(names@) == param_names(param_views(tps@)).take(i as int),
        decreases tps.len() - i,
    {
        let ghost before = names@;
        names.push(tps[i].name.clone());
        assert(texts(names@) =~= texts(before).push(tps@[i as int].name@));
        assert(param_names(param_views(tps@)).take(i + 1) =~= param_names(param_views(tps@)).take(
            i as int,
        ).push(tps@[i as int].name@));
        i += 1;
    }
    assert(param_names(param_views(tps@)).take(tps@.len() as int) == param_names(param_views(tps@)));
    names
}

/// The lines of the bound clause for `self_bound` and `tps`.
fn where_lines_of(self_bound: &Option<String>, tps: &Vec<TypeParam>) -> (lines: Vec<String>)
    ensures
        texts(lines@) == where_lines(opt_text(*self_bound), param_views(tps@)),
{
    let mut lines: Vec<String> = Vec::new();
    if let Some(b) = self_bound {
        let mut line = String::from_str("Self: ");
        line.append(b.as_str());
        line.append(",");
        lines.push(line);
    }
    let ghost head = texts(lines@);
    assert(head =~= where_lines(opt_text(*self_bound), Seq::empty()));
    let ghost all = param_views(tps@);
    let mut i: usize = 0;
    assert(all.take(0) =~= Seq::empty());
    while i < tps.len()
        invariant
            i <= tps.len(),
            all == param_views(tps@),
            texts(lines@) == head + bound_lines(all.take(i as int)),
        decreases tps.len() - i,
    {
        let ghost before = lines@;
        assert(all.take(i + 1).drop_last() =~= all.take(i as int));
        assert(all.take(i + 1).last() == tps@[i as int]@);
        if let Some(b) = &tps[i].bound {
            let mut line = tps[i].name.clone();
            line.append(": ");
            line.append(b.as_str());
            line.append(",");
            lines.push(line);
            assert(texts(lines@) =~= texts(before).push(lines@.last()@));
            assert(texts(lines@) =~= head + bound_lines(all.take(i + 1)));
        }
        i += 1;
    }
    assert(all.take(tps@.len() as int) == all);
    lines
}

/// Writes the bound clause made of `lines`, if there is any line.
fn write_where(s: &mut Scope, lines: &Vec<String>)
    ensures
        final(s)@ == where_clause(old(s)@, texts(lines@)),
        *final(final(s).writer) == *final(old(s).writer),
{
    if lines.len() > 0 {
        s.lf();
        s.write("where");
        s.lf();
        let mut inner = s.scope();
        write_lines(&mut inner, lines);
    }
}

/// A function definition in the making.
pub struct _Fn {
    pub kw_pub: bool,
    pub self_param: Option<String>,
    pub params: Vec<String>,
    pub type_params: Vec<TypeParam>,
    pub name: String,
    pub ret: Option<String>,
    pub body: Option<Vec<Code>>,
    pub self_bound: Option<String>,
}

/// What a function definition is made of.
pub struct FnView {
    pub kw_pub: bool,
    pub self_param: Option<Seq<char>>,
    pub params: Seq<Seq<char>>,
    pub type_params: Seq<TypeParamView>,
    pub name: Seq<char>,
    pub ret: Option<Seq<char>>,
    pub body: Option<Seq<Code>>,
    pub self_bound: Option<Seq<char>>,
}

impl View for _Fn {
    type V = FnView;

    open spec fn view(&self) -> FnView {
        FnView {
            kw_pub: self.kw_pub,
            self_param: opt_text(self.self_param),
            params: texts(self.params@),
            type_params: param_views(self.type_params@),
            name: self.name@,
            ret: opt_text(self.ret),
            body: match self.body {
                Some(b) => Some(b@),
                None => None,
            },
            self_bound: opt_text(self.self_bound),
        }
    }
}

/// The parameters between the round brackets: the self-parameter, if there
/// is one, and then the positional parameters.
pub open spec fn all_params(f: FnView) -> Seq<Seq<char>> {
    (match f.self_param {
        Some(p) => seq![p],
        None => Seq::empty(),
    }) + f.params
}

/// A function definition written to `e`: visibility, name, the generic
/// parameters between angle brackets where there are any, the parameters
/// between round brackets, the return type, the bound clause, and the body
/// as a block, or a semicolon where there is no body.
pub open spec fn fn_emitted(e: Emitted, f: FnView) -> Emitted {
    let a = if f.kw_pub {
        emit(e, "pub "@)
    } else {
        e
    };
    let b = emit(emit(a, "fn "@), f.name);
    let c = emit_list(b, Brackets::Angle, true, param_names(f.type_params));
    let d = emit_list(c, Brackets::Round, false, all_params(f));
    let g = match f.ret {
        Some(r) => emit(emit(d, " -> "@), r),
        None => d,
    };
    let h = where_clause(g, where_lines(f.self_bound, f.type_params));
    match f.body {
        Some(body) => emit_block(h, Seq::empty(), body),
        None => emit_char(emit(h, ";"@), '\n'),
    }
}

impl _Fn {
    /// Makes the function public.
    pub fn kw_pub(self) -> (r: _Fn)
        ensures
            r@ == (FnView { kw_pub: true, ..self@ }),
    {
        let mut r = self;
        r.kw_pub = true;
        r
    }

    /// Sets the return type.
    pub fn returning(self, ret: &str) -> (r: _Fn)
        ensures
            r@ == (FnView { ret: Some(ret@), ..self@ }),
    {
        let mut r = self;
        r.ret = Some(String::from_str(ret));
        r
    }

    /// Sets the body.
    pub fn body(self, body: Vec<Code>) -> (r: _Fn)
        ensures
            r@ == (FnView { body: Some(body@), ..self@ }),
    {
        let mut r = self;
        r.body = Some(body);
        r
    }

    /// Sets the self-parameter.
    pub fn self_param(self, self_param: &str) -> (r: _Fn)
        ensures
            r@ == (FnView { self_param: Some(self_param@), ..self@ }),
    {
        let mut r = self;
        r.self_param = Some(String::from_str(self_param));
        r
    }

    /// Appends a generic parameter without a bound.
    pub fn type_param(self, name: &str) -> (r: _Fn)
        ensures
            r@ == (FnView {
                type_params: self@.type_params.push(TypeParamView { name: name@, bound: None }),
                ..self@
            }),
    {
        let mut r = self;
        r.type_params.push(TypeParam { name: String::from_str(name), bound: None });
        assert(param_views(r.type_params@) =~= self@.type_params.push(
            TypeParamView { name: name@, bound: None },
        ));
        r
    }

    /// Appends a generic parameter with a bound.
    pub fn type_param_bound(self, name: &str, bound: &str) -> (r: _Fn)
        ensures
            r@ == (FnView {
                type_params: self@.type_params.push(
                    TypeParamView { name: name@, bound: Some(bound@) },
                ),
                ..self@
            }),
    {
        let mut r = self;
        r.type_params.push(
            TypeParam { name: String::from_str(name), bound: Some(String::from_str(bound)) },
        );
        assert(param_views(r.type_params@) =~= self@.type_params.push(
            TypeParamView { name: name@, bound: Some(bound@) },
        ));
        r
    }

    /// Appends a positional parameter.
    pub fn param(self, name: &str) -> (r: _Fn)
        ensures
            r@ == (FnView { params: self@.params.push(name@), ..self@ }),
    {
        let mut r = self;
        r.params.push(String::from_str(name));
        assert(texts(r.params@) =~= self@.params.push(name@));
        r
    }

    /// Sets the bound on `Self`.
    pub fn self_bound(self, bound: &str) -> (r: _Fn)
        ensures
            r@ == (FnView { self_bound: Some(bound@), ..self@ }),
    {
        let mut r = self;
        r.self_bound = Some(String::from_str(bound));
        r
    }

    /// The definition as text, written at depth zero.
    pub fn fmt(&self) -> (r: String)
        ensures
            r@ == fn_emitted(Emitted::start(), self@).text,
    {
        let names = names_of(&self.type_params);
        let mut params: Vec<String> = Vec::new();
        if let Some(p) = &self.self_param {
            params.push(p.clone());
        }
        let ghost head = texts(params@);
        let mut i: usize = 0;
        while i < self.params.len()
            invariant
                i <= self.params.len(),
                texts(params@) == head + texts(self.params@).take(i as int),
            decreases self.params.len() - i,
        {
            let ghost before = params@;
            params.push(self.params[i].clone());
            assert(texts(params@) =~= texts(before).push(self.params@[i as int]@));
            assert(texts(self.params@).take(i + 1) =~= texts(self.params@).take(i as int).push(
                self.params@[i as int]@,
            ));
            i += 1;
        }
        assert(texts(self.params@).take(self.params@.len() as int) == texts(self.params@));
        assert(texts(params@) =~= all_params(self@));
        let bounds = where_lines_of(&self.self_bound, &self.type_params);
        let mut w = Scope::writer();
        {
            let mut s = Scope::new(&mut w);
            if self.kw_pub {
                s.write("pub ");
            }
            s.write("fn ");
            s.write(self.name.as_str());
            s.in_list(Brackets::Angle, true, &names);
            s.in_list(Brackets::Round, false, &params);
            if let Some(ret) = &self.ret {
                s.write(" -> ");
                s.write(ret.as_str());
            }
            write_where(&mut s, &bounds);
            if let Some(body) = &self.body {
                s.in_block(body);
            } else {
                s.write(";");
                s.lf();
            }
        }
        w.into_inner()
    }
}

impl WriteTo for _Fn {
    open spec fn text(&self) -> Seq<char> {
        fn_emitted(Emitted::start(), self@).text
    }

    fn write_to(&self, s: &mut Scope) {
        s.write(self.fmt().as_str());
    }
}

/// A function named `name`: private, without parameters, return type,
/// bounds or body.
pub fn _fn(name: &str) -> (f: _Fn)
    ensures
        f@ == (FnView {
            kw_pub: false,
            self_param: None,
            params: Seq::empty(),
            type_params: Seq::empty(),
            name: name@,
            ret: None,
            body: None,
            self_bound: None,
        }),
{
    let f = _Fn {
        kw_pub: false,
        name: String::from_str(name),
        params: Vec::new(),
        type_params: Vec::new(),
        self_param: None,
        body: None,
        ret: None,
        self_bound: None,
    };
    assert(texts(f.params@) =~= Seq::empty());
    assert(param_views(f.type_params@) =~= Seq::empty());
    f
}

/// An implementation block in the making: of a trait for a type, or of a
/// type alone.
pub struct _Impl {
    pub trt: Option<String>,
    pub name: String,
    pub type_params: Vec<TypeParam>,
    pub body: Option<Vec<Code>>,
}

/// What an implementation block is made of.
pub struct ImplView {
    pub trt: Option<Seq<char>>,
    pub name: Seq<char>,
    pub type_params: Seq<TypeParamView>,
    pub body: Option<Seq<Code>>,
}

impl View for _Impl {
    type V = ImplView;

    open spec fn view(&self) -> ImplView {
        ImplView {
            trt: opt_text(self.trt),
            name: self.name@,
            type_params: param_views(self.type_params@),
            body: match self.body {
                Some(b) => Some(b@),
                None => None,
            },
        }
    }
}

/// An implementation block written to `e`: the generic parameters where
/// there are any, the trait where there is one, the type with the generic
/// parameters again, the bound clause, and the body as a block, empty
/// where there is no body.
pub open spec fn impl_emitted(e: Emitted, i: ImplView) -> Emitted {
    let a = emit_list(emit(e, "impl"@), Brackets::Angle, true, param_names(i.type_params));
    let b = match i.trt {
        Some(t) => emit(emit(emit(a, " "@), t), " for"@),
        None => a,
    };
    let c = emit_list(emit(emit(b, " "@), i.name), Brackets::Angle, true, param_names(i.type_params));
    let d = where_clause(c, where_lines(None, i.type_params));
    emit_block(
        d,
        Seq::empty(),
        match i.body {
            Some(body) => body,
            None => Seq::empty(),
        },
    )
}

impl _Impl {
    /// Appends a generic parameter without a bound.
    pub fn type_param(self, name: &str) -> (r: _Impl)
        ensures
            r@ == (ImplView {
                type_params: self@.type_params.push(TypeParamView { name: name@, bound: None }),
                ..self@
            }),
    {
        let mut r = self;
        r.type_params.push(TypeParam { name: String::from_str(name), bound: None });
        assert(param_views(r.type_params@) =~= self@.type_params.push(
            TypeParamView { name: name@, bound: None },
        ));
        r
    }

    /// Appends a generic parameter with a bound.
    pub fn type_param_bound(self, name: &str, bound: &str) -> (r: _Impl)
        ensures
            r@ == (ImplView {
                type_params: self@.type_params.push(
                    TypeParamView { name: name@, bound: Some(bound@) },
                ),
                ..self@
            }),
    {
        let mut r = self;
        r.type_params.push(
            TypeParam { name: String::from_str(name), bound: Some(String::from_str(bound)) },
        );
        assert(param_views(r.type_params@) =~= self@.type_params.push(
            TypeParamView { name: name@, bound: Some(bound@) },
        ));
        r
    }

    /// Sets the body.
    pub fn body(self, body: Vec<Code>) -> (r: _Impl)
        ensures
            r@ == (ImplView { body: Some(body@), ..self@ }),
    {
        let mut r = self;
        r.body = Some(body);
        r
    }

    /// The block as text, written at depth zero.
    pub fn fmt(&self) -> (r: String)
        ensures
            r@ == impl_emitted(Emitted::start(), self@).text,
    {
        let names = names_of(&self.type_params);
        let bounds = where_lines_of(&None, &self.type_params);
        let empty: Vec<Code> = Vec::new();
        let mut w = Scope::writer();
        {
            let mut s = Scope::new(&mut w);
            s.write("impl");
            s.in_list(Brackets::Angle, true, &names);
            if let Some(trt) = &self.trt {
                s.write(" ");
                s.write(trt.as_str());
                s.write(" for");
            }
            s.write(" ");
            s.write(self.name.as_str());
            s.in_list(Brackets::Angle, true, &names);
            write_where(&mut s, &bounds);
            if let Some(body) = &self.body {
                s.in_block(body);
            } else {
                s.in_block(&empty);
            }
        }
        w.into_inner()
    }
}

impl WriteTo for _Impl {
    open spec fn text(&self) -> Seq<char> {
        impl_emitted(Emitted::start(), self@).text
    }

    fn write_to(&self, s: &mut Scope) {
        s.write(self.fmt().as_str());
    }
}

/// An implementation of the trait `trt` for the type `name`, without
/// generic parameters or body.
pub fn _impl_trait(trt: &str, name: &str) -> (i: _Impl)
    ensures
        i@ == (ImplView { trt: Some(trt@), name: name@, type_params: Seq::empty(), body: None }),
{
    let i = _Impl {
        trt: Some(String::from_str(trt)),
        name: String::from_str(name),
        type_params: Vec::new(),
        body: None,
    };
    assert(param_views(i.type_params@) =~= Seq::empty());
    i
}

/// An implementation of the type `name`, without generic parameters or
/// body.
pub fn _impl(name: &str) -> (i: _Impl)
    ensures
        i@ == (ImplView { trt: None, name: name@, type_params: Seq::empty(), body: None }),
{
    let i = _Impl { trt: None, name: String::from_str(name), type_params: Vec::new(), body: None };
    assert(param_views(i.type_params@) =~= Seq::empty());
    i
}

/// An enum definition in the making.
pub struct _Enum {
    pub kw_pub: bool,
    pub name: String,
    pub variants: Vec<String>,
}

/// What an enum definition is made of.
pub struct EnumView {
    pub kw_pub: bool,
    pub name: Seq<char>,
    pub variants: Seq<Seq<char>>,
}

impl View for _Enum {
    type V = EnumView;

    open spec fn view(&self) -> EnumView {
        EnumView { kw_pub: self.kw_pub, name: self.name@, variants: texts(self.variants@) }
    }
}

/// The first `n` of `variants`, each followed by a comma on a line of its
/// own.
pub open spec fn enum_variants(e: Emitted, variants: Seq<Seq<char>>, n: nat) -> Emitted
    decreases n,
{
    if n == 0 {
        e
    } else {
        emit_char(emit(emit(enum_variants(e, variants, (n - 1) as nat), variants[n - 1]), ","@), '\n')
    }
}

/// An enum definition written to `e`: visibility, name, and the variants in
/// a block; a pair of braces on the same line where there is no variant.
pub open spec fn enum_emitted(e: Emitted, en: EnumView) -> Emitted {
    let a = if en.kw_pub {
        emit(e, "pub "@)
    } else {
        e
    };
    let b = emit(emit(a, "enum "@), en.name);
    if en.variants.len() == 0 {
        emit_char(emit(b, " {}"@), '\n')
    } else {
        block_closed(
            block_opened(b),
            enum_variants(block_opened(b).nested(), en.variants, en.variants.len()),
            Seq::empty(),
        )
    }
}

/// Writes `variants`, each followed by a comma on a line of its own.
fn write_enum_variants(s: &mut Scope, variants: &Vec<String>)
    ensures
        final(s)@ == enum_variants(old(s)@, texts(variants@), variants@.len()),
        *final(final(s).writer) == *final(old(s).writer),
{
    let mut i: usize = 0;
    while i < variants.len()
        invariant
            i <= variants.len(),
            s@ == enum_variants(old(s)@, texts(variants@), i as nat),
            *final(s.writer) == *final(old(s).writer),
        decreases variants.len() - i,
    {
        s.write(variants[i].as_str());
        s.write(",");
        s.lf();
        i += 1;
    }
}

impl _Enum {
    /// Makes the enum public.
    pub fn kw_pub(&mut self)
        ensures
            final(self)@ == (EnumView { kw_pub: true, ..old(self)@ }),
    {
        self.kw_pub = true;
    }

    /// Appends a variant.
    pub fn variant(&mut self, d: &str)
        ensures
            final(self)@ == (EnumView { variants: old(self)@.variants.push(d@), ..old(self)@ }),
    {
        self.variants.push(String::from_str(d));
        assert(texts(self.variants@) =~= old(self)@.variants.push(d@));
    }

    /// The definition as text, written at depth zero.
    pub fn fmt(&self) -> (r: String)
        ensures
            r@ == enum_emitted(Emitted::start(), self@).text,
    {
        proof {
            reveal_strlit(" ");
            reveal_strlit("{");
            reveal_strlit("}");
            assert(" "@ =~= seq![' ']);
            assert("{"@ =~= seq!['{']);
            assert("}"@ =~= seq!['}']);
        }
        let mut w = Scope::writer();
        {
            let mut s = Scope::new(&mut w);
            if self.kw_pub {
                s.write("pub ");
            }
            s.write("enum ");
            s.write(self.name.as_str());
            if self.variants.len() == 0 {
                s.write(" {}");
                s.lf();
            } else {
                if !s.fresh_line() {
                    s.write(" ");
                }
                s.line("{");
                {
                    let mut inner = s.scope();
                    write_enum_variants(&mut inner, &self.variants);
                }
                s.write("}");
                s.lf();
            }
        }
        w.into_inner()
    }
}

impl WriteTo for _Enum {
    open spec fn text(&self) -> Seq<char> {
        enum_emitted(Emitted::start(), self@).text
    }

    fn write_to(&self, s: &mut Scope) {
        s.write(self.fmt().as_str());
    }
}

/// An enum named `name`: private, without variants.
pub fn _enum(name: &str) -> (e: _Enum)
    ensures
        e@ == (EnumView { kw_pub: false, name: name@, variants: Seq::empty() }),
{
    let e = _Enum { name: String::from_str(name), kw_pub: false, variants: Vec::new() };
    assert(texts(e.variants@) =~= Seq::empty());
    e
}

} // verus!
