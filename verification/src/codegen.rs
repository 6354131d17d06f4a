//! The RPC surface: tagged unions, their dispatch, and one module per
//! namespace and per function, written from the namespace forest.

use crate::ast::{Comment, Field, Module};
use crate::forest::{forest_of, fun_views, funs_among, of_kind, ref_views, Context, Namespace, NamespaceView};
use crate::lang::{debug_quoted, quoted};
use crate::naming::{qualified_path, snake_case, variant_ident, wire_name, Fun, FunKind, FunView};
use crate::output::{Emitted, Scope, Writer};
use vstd::prelude::*;
use vstd::string::*;

verus! {

/// `a` followed by `b` and `c`.
fn cat3(a: &str, b: &str, c: &str) -> (r: String)
    ensures
        r@ == a@ + b@ + c@,
{
    let mut r = String::from_str(a);
    r.append(b);
    r.append(c);
    r
}

/// `a` followed by `b`, `c`, `d` and `e`.
fn cat5(a: &str, b: &str, c: &str, d: &str, e: &str) -> (r: String)
    ensures
        r@ == a@ + b@ + c@ + d@ + e@,
{
    let mut r = cat3(a, b, c);
    r.append(d);
    r.append(e);
    r
}

/// Nine pieces, one after the other.
fn cat9(
    a: &str,
    b: &str,
    c: &str,
    d: &str,
    e: &str,
    f: &str,
    g: &str,
    h: &str,
    i: &str,
) -> (r: String)
    ensures
        r@ == a@ + b@ + c@ + d@ + e@ + f@ + g@ + h@ + i@,
{
    let mut r = cat5(a, b, c, d, e);
    r.append(f);
    r.append(g);
    r.append(h);
    r.append(i);
    r
}

/// The header of a generated file: what it is, and the directives that
/// keep formatters and lints away from it.
pub open spec fn header(e: Emitted) -> Emitted {
    e.line("// This file is generated by lavish: DO NOT EDIT")
        .line("// https://github.com/fasterthanlime/lavish")
        .line("")
        .line("// Kindly ask rustfmt not to reformat this file.")
        .line("#![cfg_attr(rustfmt, rustfmt_skip)]")
        .line("")
        .line("// Disable some lints, since this file is generated.")
        .line("#![allow(clippy::all)]")
        .line("#![allow(unknown_lints)]")
        .line("#![allow(unused)]")
        .line("")
}

/// Writes the header of a generated file.
pub fn write_header(s: &mut Scope)
    ensures
        final(s)@ == header(old(s)@),
        *final(final(s).writer) == *final(old(s).writer),
{
    s.line("// This file is generated by lavish: DO NOT EDIT");
    s.line("// https://github.com/fasterthanlime/lavish");
    s.line("");
    s.line("// Kindly ask rustfmt not to reformat this file.");
    s.line("#![cfg_attr(rustfmt, rustfmt_skip)]");
    s.line("");
    s.line("// Disable some lints, since this file is generated.");
    s.line("#![allow(clippy::all)]");
    s.line("#![allow(unknown_lints)]");
    s.line("#![allow(unused)]");
    s.line("");
}

/// What the generated module imports.
pub open spec fn imports(e: Emitted) -> Emitted {
    e.line("// Notes: as of 2019-05-21, futures-preview is required")
        .line("use futures::prelude::*;")
        .line("use std::pin::Pin;")
        .line("use std::sync::Arc;")
        .line("")
        .line("use lavish_rpc as rpc;")
        .line("use lavish_rpc::serde_derive::*;")
        .line("use lavish_rpc::erased_serde;")
}

/// Writes the imports of the generated module.
pub fn write_imports(s: &mut Scope)
    ensures
        final(s)@ == imports(old(s)@),
        *final(final(s).writer) == *final(old(s).writer),
{
    s.line("// Notes: as of 2019-05-21, futures-preview is required");
    s.line("use futures::prelude::*;");
    s.line("use std::pin::Pin;");
    s.line("use std::sync::Arc;");
    s.line("");
    s.line("use lavish_rpc as rpc;");
    s.line("use lavish_rpc::serde_derive::*;");
    s.line("use lavish_rpc::erased_serde;");
}

/// The variant of `f` in a union: its identifier around the record of the
/// given kind in the function's own module.
pub open spec fn variant_line(f: FunView, kind: Seq<char>) -> Seq<char> {
    variant_ident(f.path) + "("@ + qualified_path(f.path) + "::"@ + kind + "),"@
}

/// The variants of `funs`, one per function, in order.
pub open spec fn variant_lines(funs: Seq<FunView>, kind: Seq<char>) -> Seq<Seq<char>> {
    Seq::new(funs.len(), |i: int| variant_line(funs[i], kind))
}

/// The variants of a union, one level deeper than the union itself.
pub open spec fn enum_body(e: Emitted, kind: Seq<char>, funs: Seq<FunView>) -> Emitted {
    e.resumed(e.nested().lines(variant_lines(funs, kind), funs.len()))
}

/// Writes one variant per function of `funs`.
fn write_variants(s: &mut Scope, kind: &str, funs: &Vec<&Fun>)
    ensures
        final(s)@ == old(s)@.lines(variant_lines(ref_views(funs@), kind@), funs@.len()),
        *final(final(s).writer) == *final(old(s).writer),
{
    let ghost lines = variant_lines(ref_views(funs@), kind@);
    let mut i: usize = 0;
    while i < funs.len()
        invariant
            i <= funs.len(),
            lines == variant_lines(ref_views(funs@), kind@),
            s@ == old(s)@.lines(lines, i as nat),
            *final(s.writer) == *final(old(s).writer),
        decreases funs.len() - i,
    {
        let fun = funs[i];
        let mut line = cat5(
            fun.variant_name().as_str(),
            "(",
            fun.qualified_name().as_str(),
            "::",
            kind,
        );
        line.append("),");
        s.line(line.as_str());
        i += 1;
    }
}

/// Writes one variant per function of `funs`, one level deeper.
pub fn write_enum(s: &mut Scope, kind: &str, funs: &Vec<&Fun>)
    ensures
        final(s)@ == enum_body(old(s)@, kind@, ref_views(funs@)),
        *final(final(s).writer) == *final(old(s).writer),
{
    let mut inner = s.scope();
    write_variants(&mut inner, kind, funs);
}

/// A union: its attributes, its name, and one variant per function.
pub open spec fn union_def(
    e: Emitted,
    name: Seq<char>,
    kind: Seq<char>,
    funs: Seq<FunView>,
) -> Emitted {
    enum_body(
        e.line("")
            .line("#[derive(Serialize, Debug)]")
            .line("#[serde(untagged)]")
            .line("#[allow(non_camel_case_types, unused)]")
            .text_line("pub enum "@ + name + " {"@),
        kind,
        funs,
    ).line("}")
}

/// Writes the union `name` with one variant per function of `funs`, each
/// around the record `kind` of its function.
pub fn write_union(s: &mut Scope, name: &str, kind: &str, funs: &Vec<&Fun>)
    ensures
        final(s)@ == union_def(old(s)@, name@, kind@, ref_views(funs@)),
        *final(final(s).writer) == *final(old(s).writer),
{
    s.line("");
    s.line("#[derive(Serialize, Debug)]");
    s.line("#[serde(untagged)]");
    s.line("#[allow(non_camel_case_types, unused)]");
    s.line(cat3("pub enum ", name, " {").as_str());
    write_enum(s, kind, funs);
    s.line("}");
}

/// The shared type aliases and the protocol constructor.
pub open spec fn aliases(e: Emitted) -> Emitted {
    let head = e.line("")
        .line("pub type Message = rpc::Message<Params, NotificationParams, Results>;")
        .line("pub type Handle = rpc::Handle<Params, NotificationParams, Results>;")
        .line("pub type System = rpc::System<Params, NotificationParams, Results>;")
        .line("pub type Protocol = rpc::Protocol<Params, NotificationParams, Results>;")
        .line(
            "pub type HandlerRet = Pin<Box<dyn Future<Output = Result<Results, rpc::Error>> + Send + 'static>>;",
        )
        .line("")
        .line("pub fn protocol() -> Protocol {");
    head.resumed(head.nested().line("Protocol::new()")).line("}")
}

/// Writes the shared type aliases and the protocol constructor.
pub fn write_aliases(s: &mut Scope)
    ensures
        final(s)@ == aliases(old(s)@),
        *final(final(s).writer) == *final(old(s).writer),
{
    s.line("");
    s.line("pub type Message = rpc::Message<Params, NotificationParams, Results>;");
    s.line("pub type Handle = rpc::Handle<Params, NotificationParams, Results>;");
    s.line("pub type System = rpc::System<Params, NotificationParams, Results>;");
    s.line("pub type Protocol = rpc::Protocol<Params, NotificationParams, Results>;");
    s.line(
        "pub type HandlerRet = Pin<Box<dyn Future<Output = Result<Results, rpc::Error>> + Send + 'static>>;",
    );
    s.line("");
    s.line("pub fn protocol() -> Protocol {");
    {
        let mut inner = s.scope();
        inner.line("Protocol::new()");
    }
    s.line("}");
}

/// The arm that maps the variant of `f` in the union `side` to its wire
/// name.
pub open spec fn method_arm(f: FunView, side: Seq<char>) -> Seq<char> {
    side + "::"@ + variant_ident(f.path) + "(_) => "@ + debug_quoted(wire_name(f.path)) + ","@
}

/// The arms that map every variant to its wire name.
pub open spec fn method_arms(funs: Seq<FunView>, side: Seq<char>) -> Seq<Seq<char>> {
    Seq::new(funs.len(), |i: int| method_arm(funs[i], side))
}

/// The pattern that selects `f` by its wire name.
pub open spec fn deser_pattern(f: FunView) -> Seq<char> {
    debug_quoted(wire_name(f.path)) + " =>"@
}

/// The expression that deserializes the record `strukt` of `f` into its
/// variant of the union `side`.
pub open spec fn deser_result(f: FunView, side: Seq<char>, strukt: Seq<char>) -> Seq<char> {
    "Ok("@ + side + "::"@ + variant_ident(f.path) + "(deser::<"@ + qualified_path(f.path) + "::"@
        + strukt + ">(de)?)),"@
}

/// The arms that deserialize by wire name, for the first `n` of `funs`:
/// the pattern, and one level deeper the expression.
pub open spec fn deser_arms(
    e: Emitted,
    funs: Seq<FunView>,
    side: Seq<char>,
    strukt: Seq<char>,
    n: nat,
) -> Emitted
    decreases n,
{
    if n == 0 {
        e
    } else {
        let head = deser_arms(e, funs, side, strukt, (n - 1) as nat).text_line(
            deser_pattern(funs[n - 1]),
        );
        head.resumed(head.nested().text_line(deser_result(funs[n - 1], side, strukt)))
    }
}

/// The match of a wire name against every function, with the arm that
/// fails on an unknown name.
pub open spec fn deser_match(
    e: Emitted,
    funs: Seq<FunView>,
    side: Seq<char>,
    strukt: Seq<char>,
) -> Emitted {
    let head = deser_arms(e, funs, side, strukt, funs.len()).line(
        "_ => Err(erased_serde::Error::custom(format!(",
    );
    head.resumed(head.nested().line("\"unknown method: {}\",").line("method,")).line("))),")
}

/// The body of the wire-name function: a match with one arm per function.
pub open spec fn method_body(e: Emitted, funs: Seq<FunView>, side: Seq<char>) -> Emitted {
    let head = e.line("match self {");
    head.resumed(head.nested().lines(method_arms(funs, side), funs.len())).line("}")
}

/// The body of the deserializing function.
pub open spec fn deser_body(
    e: Emitted,
    funs: Seq<FunView>,
    side: Seq<char>,
    strukt: Seq<char>,
) -> Emitted {
    let head = e.line("use erased_serde::deserialize as deser;")
        .line("use serde::de::Error;")
        .line("")
        .line("match method {");
    head.resumed(deser_match(head.nested(), funs, side, strukt)).line("}")
}

/// The two dispatch functions of a union.
pub open spec fn atom_body(
    e: Emitted,
    funs: Seq<FunView>,
    side: Seq<char>,
    strukt: Seq<char>,
) -> Emitted {
    let a = e.line("fn method(&self) -> &'static str {");
    let b = a.resumed(method_body(a.nested(), funs, side)).line("}").line("").line(
        "fn deserialize(",
    );
    let c = b.resumed(b.nested().line("method: &str,").line("de: &mut erased_serde::Deserializer,"))
        .line(") -> erased_serde::Result<Self> {");
    c.resumed(deser_body(c.nested(), funs, side, strukt)).line("}")
}

/// The dispatch implementation of the union `side`, whose variants hold
/// the record `strukt` of their functions.
pub open spec fn atom_impl(
    e: Emitted,
    funs: Seq<FunView>,
    side: Seq<char>,
    strukt: Seq<char>,
) -> Emitted {
    let head = e.line("").text_line("impl rpc::Atom for "@ + side + " {"@);
    head.resumed(atom_body(head.nested(), funs, side, strukt)).line("}")
}

fn write_method_arms(s: &mut Scope, side: &str, funs: &Vec<&Fun>)
    ensures
        final(s)@ == old(s)@.lines(method_arms(ref_views(funs@), side@), funs@.len()),
        *final(final(s).writer) == *final(old(s).writer),
{
    let ghost lines = method_arms(ref_views(funs@), side@);
    let mut i: usize = 0;
    while i < funs.len()
        invariant
            i <= funs.len(),
            lines == method_arms(ref_views(funs@), side@),
            s@ == old(s)@.lines(lines, i as nat),
            *final(s.writer) == *final(old(s).writer),
        decreases funs.len() - i,
    {
        let fun = funs[i];
        let mut line = cat5(
            side,
            "::",
            fun.variant_name().as_str(),
            "(_) => ",
            quoted(fun.rpc_name().as_str()).as_str(),
        );
        line.append(",");
        s.line(line.as_str());
        i += 1;
    }
}

fn write_deser_arms(s: &mut Scope, side: &str, strukt: &str, funs: &Vec<&Fun>)
    ensures
        final(s)@ == deser_arms(old(s)@, ref_views(funs@), side@, strukt@, funs@.len()),
        *final(final(s).writer) == *final(old(s).writer),
{
    let mut i: usize = 0;
    while i < funs.len()
        invariant
            i <= funs.len(),
            s@ == deser_arms(old(s)@, ref_views(funs@), side@, strukt@, i as nat),
            *final(s.writer) == *final(old(s).writer),
        decreases funs.len() - i,
    {
        let fun = funs[i];
        let mut pattern = quoted(fun.rpc_name().as_str());
        pattern.append(" =>");
        s.line(pattern.as_str());
        {
            let mut inner = s.scope();
            inner.line(
                cat9(
                    "Ok(",
                    side,
                    "::",
                    fun.variant_name().as_str(),
                    "(deser::<",
                    fun.qualified_name().as_str(),
                    "::",
                    strukt,
                    ">(de)?)),",
                ).as_str(),
            );
        }
        i += 1;
    }
}

fn write_deser_match(s: &mut Scope, side: &str, strukt: &str, funs: &Vec<&Fun>)
    ensures
        final(s)@ == deser_match(old(s)@, ref_views(funs@), side@, strukt@),
        *final(final(s).writer) == *final(old(s).writer),
{
    write_deser_arms(s, side, strukt, funs);
    s.line("_ => Err(erased_serde::Error::custom(format!(");
    {
        let mut inner = s.scope();
        inner.line("\"unknown method: {}\",");
        inner.line("method,");
    }
    s.line("))),");
}

fn write_method_body(s: &mut Scope, side: &str, funs: &Vec<&Fun>)
    ensures
        final(s)@ == method_body(old(s)@, ref_views(funs@), side@),
        *final(final(s).writer) == *final(old(s).writer),
{
    s.line("match self {");
    {
        let mut inner = s.scope();
        write_method_arms(&mut inner, side, funs);
    }
    s.line("}");
}

fn write_deser_body(s: &mut Scope, side: &str, strukt: &str, funs: &Vec<&Fun>)
    ensures
        final(s)@ == deser_body(old(s)@, ref_views(funs@), side@, strukt@),
        *final(final(s).writer) == *final(old(s).writer),
{
    s.line("use erased_serde::deserialize as deser;");
    s.line("use serde::de::Error;");
    s.line("");
    s.line("match method {");
    {
        let mut inner = s.scope();
        write_deser_match(&mut inner, side, strukt, funs);
    }
    s.line("}");
}

fn write_atom_body(s: &mut Scope, side: &str, strukt: &str, funs: &Vec<&Fun>)
    ensures
        final(s)@ == atom_body(old(s)@, ref_views(funs@), side@, strukt@),
        *final(final(s).writer) == *final(old(s).writer),
{
    s.line("fn method(&self) -> &'static str {");
    {
        let mut inner = s.scope();
        write_method_body(&mut inner, side, funs);
    }
    s.line("}");
    s.line("");
    s.line("fn deserialize(");
    {
        let mut inner = s.scope();
        inner.line("method: &str,");
        inner.line("de: &mut erased_serde::Deserializer,");
    }
    s.line(") -> erased_serde::Result<Self> {");
    {
        let mut inner = s.scope();
        write_deser_body(&mut inner, side, strukt, funs);
    }
    s.line("}");
}

/// Writes the dispatch implementation of the union `side`: the function
/// from a variant to its wire name, and the function that deserializes
/// into the variant that a wire name selects.
pub fn write_atom(s: &mut Scope, strukt: &str, side: &str, funs: &Vec<&Fun>)
    ensures
        final(s)@ == atom_impl(old(s)@, ref_views(funs@), side@, strukt@),
        *final(final(s).writer) == *final(old(s).writer),
{
    s.line("");
    s.line(cat3("impl rpc::Atom for ", side, " {").as_str());
    {
        let mut inner = s.scope();
        write_atom_body(&mut inner, side, strukt, funs);
    }
    s.line("}");
}

/// The slot of `f` in the handler aggregate.
pub open spec fn slot_line(f: FunView) -> Seq<char> {
    variant_ident(f.path) + ": Slot<'a, T>,"@
}

/// The slots of `funs`, one per function, in order.
pub open spec fn slot_lines(funs: Seq<FunView>) -> Seq<Seq<char>> {
    Seq::new(funs.len(), |i: int| slot_line(funs[i]))
}

/// The call record and the slot types.
pub open spec fn slot_types(e: Emitted) -> Emitted {
    let a = e.line("").line("pub struct Call<T, PP> {");
    let b = a.resumed(
        a.nested().line("pub state: Arc<T>,").line("pub handle: Handle,").line("pub params: PP,"),
    ).line("}").line("").line("pub type SlotFuture = ");
    let c = b.resumed(
        b.nested().line("Future<Output = Result<Results, rpc::Error>> + Send + 'static;"),
    ).line("").line("pub type SlotReturn = Pin<Box<SlotFuture>>;").line("").line(
        "pub type SlotFn<'a, T> = ",
    );
    c.resumed(c.nested().line("Fn(Arc<T>, Handle, Params) -> SlotReturn + 'a + Send + Sync;"))
        .line("")
        .line("pub type Slot<'a, T> = Option<Box<SlotFn<'a, T>>>;")
}

/// The handler aggregate: its state, and one optional slot per request.
pub open spec fn handler(e: Emitted, requests: Seq<FunView>) -> Emitted {
    let head = e.line("").line("pub struct Handler<'a, T> {");
    head.resumed(
        head.nested().line("state: Arc<T>,").lines(slot_lines(requests), requests.len()),
    ).line("}")
}

/// Writes the call record and the slot types.
pub fn write_slot_types(s: &mut Scope)
    ensures
        final(s)@ == slot_types(old(s)@),
        *final(final(s).writer) == *final(old(s).writer),
{
    s.line("");
    s.line("pub struct Call<T, PP> {");
    {
        let mut inner = s.scope();
        inner.line("pub state: Arc<T>,");
        inner.line("pub handle: Handle,");
        inner.line("pub params: PP,");
    }
    s.line("}");
    s.line("");
    s.line("pub type SlotFuture = ");
    {
        let mut inner = s.scope();
        inner.line("Future<Output = Result<Results, rpc::Error>> + Send + 'static;");
    }
    s.line("");
    s.line("pub type SlotReturn = Pin<Box<SlotFuture>>;");
    s.line("");
    s.line("pub type SlotFn<'a, T> = ");
    {
        let mut inner = s.scope();
        inner.line("Fn(Arc<T>, Handle, Params) -> SlotReturn + 'a + Send + Sync;");
    }
    s.line("");
    s.line("pub type Slot<'a, T> = Option<Box<SlotFn<'a, T>>>;");
}

fn write_slots(s: &mut Scope, funs: &Vec<&Fun>)
    ensures
        final(s)@ == old(s)@.lines(slot_lines(ref_views(funs@)), funs@.len()),
        *final(final(s).writer) == *final(old(s).writer),
{
    let ghost lines = slot_lines(ref_views(funs@));
    let mut i: usize = 0;
    while i < funs.len()
        invariant
            i <= funs.len(),
            lines == slot_lines(ref_views(funs@)),
            s@ == old(s)@.lines(lines, i as nat),
            *final(s.writer) == *final(old(s).writer),
        decreases funs.len() - i,
    {
        let mut line = funs[i].variant_name();
        line.append(": Slot<'a, T>,");
        s.line(line.as_str());
        i += 1;
    }
}

/// Writes the handler aggregate with one slot per function of `requests`.
pub fn write_handler(s: &mut Scope, requests: &Vec<&Fun>)
    ensures
        final(s)@ == handler(old(s)@, ref_views(requests@)),
        *final(final(s).writer) == *final(old(s).writer),
{
    s.line("");
    s.line("pub struct Handler<'a, T> {");
    {
        let mut inner = s.scope();
        inner.line("state: Arc<T>,");
        write_slots(&mut inner, requests);
    }
    s.line("}");
}

/// The lines of a comment, each behind two slashes.
pub open spec fn comment_lines(comment: Option<Comment>) -> Seq<Seq<char>> {
    match comment {
        Some(c) => Seq::new(c.lines@.len(), |i: int| "// "@ + c.lines@[i]@),
        None => Seq::empty(),
    }
}

/// Writes `comment`, if there is one, as a line comment.
pub fn comment(s: &mut Scope, comment: &Option<Comment>)
    ensures
        final(s)@ == old(s)@.lines(comment_lines(*comment), comment_lines(*comment).len()),
        *final(final(s).writer) == *final(old(s).writer),
{
    if let Some(c) = comment {
        let ghost lines = comment_lines(*comment);
        let mut i: usize = 0;
        while i < c.lines.len()
            invariant
                i <= c.lines.len(),
                lines == comment_lines(*comment),
                *comment == Some(*c),
                s@ == old(s)@.lines(lines, i as nat),
                *final(s.writer) == *final(old(s).writer),
            decreases c.lines.len() - i,
        {
            let mut line = String::from_str("// ");
            line.append(c.lines[i].as_str());
            s.line(line.as_str());
            i += 1;
        }
    }
}

/// The declaration of one field of a record.
pub open spec fn field_line(f: Field) -> Seq<char> {
    "pub "@ + f.name.text@ + ": "@ + f.typ@ + ","@
}

/// The declarations of `fields`, one per field, in order.
pub open spec fn field_lines(fields: Seq<Field>) -> Seq<Seq<char>> {
    Seq::new(fields.len(), |i: int| field_line(fields[i]))
}

/// A record: its derives, its name, and one public field per declared
/// field, typed as written.
pub open spec fn struct_def(e: Emitted, name: Seq<char>, fields: Seq<Field>) -> Emitted {
    let head = e.line("#[derive(Serialize, Deserialize, Debug)]").text_line(
        "pub struct "@ + name + " {"@,
    );
    head.resumed(head.nested().lines(field_lines(fields), fields.len())).line("}")
}

fn write_fields(s: &mut Scope, fields: &Vec<Field>)
    ensures
        final(s)@ == old(s)@.lines(field_lines(fields@), fields@.len()),
        *final(final(s).writer) == *final(old(s).writer),
{
    let ghost lines = field_lines(fields@);
    let mut i: usize = 0;
    while i < fields.len()
        invariant
            i <= fields.len(),
            lines == field_lines(fields@),
            s@ == old(s)@.lines(lines, i as nat),
            *final(s.writer) == *final(old(s).writer),
        decreases fields.len() - i,
    {
        let f = &fields[i];
        s.line(cat5("pub ", f.name.text.as_str(), ": ", f.typ.as_str(), ",").as_str());
        i += 1;
    }
}

/// Writes the record `name` with the fields `fields`.
pub fn def_struct(s: &mut Scope, name: &str, fields: &Vec<Field>)
    ensures
        final(s)@ == struct_def(old(s)@, name@, fields@),
        *final(final(s).writer) == *final(old(s).writer),
{
    s.line("#[derive(Serialize, Deserialize, Debug)]");
    s.line(cat3("pub struct ", name, " {").as_str());
    {
        let mut inner = s.scope();
        write_fields(&mut inner, fields);
    }
    s.line("}");
}

/// The accessor that narrows the union `side` to the record of `f`; it
/// yields nothing for any other variant.
pub open spec fn downgrade(e: Emitted, side: Seq<char>, f: FunView) -> Emitted {
    let a = e.nested().text_line("pub fn downgrade(p: __::"@ + side + ") -> Option<Self> {"@);
    let b = a.nested().line("match p {");
    let c = b.nested().text_line(
        "__::"@ + side + "::"@ + variant_ident(f.path) + "(p) => Some(p),"@,
    ).line("_ => None,");
    e.resumed(a.resumed(b.resumed(c).line("}")).line("}"))
}

/// Writes the accessor that narrows the union `side` to the record of
/// `fun`.
pub fn write_downgrade(s: &mut Scope, side: &str, fun: &Fun)
    ensures
        final(s)@ == downgrade(old(s)@, side@, fun@),
        *final(final(s).writer) == *final(old(s).writer),
{
    let mut a = s.scope();
    a.line(cat3("pub fn downgrade(p: __::", side, ") -> Option<Self> {").as_str());
    {
        let mut b = a.scope();
        b.line("match p {");
        {
            let mut c = b.scope();
            c.line(
                cat5("__::", side, "::", fun.variant_name().as_str(), "(p) => Some(p),").as_str(),
            );
            c.line("_ => None,");
        }
        b.line("}");
    }
    a.line("}");
}

/// The parameter record of `f` and its accessor.
pub open spec fn params_part(e: Emitted, f: FunView) -> Emitted {
    downgrade(
        struct_def(e, "Params"@, f.decl.params@).line("").line("impl Params {"),
        if f.is_notification() {
            "NotificationParams"@
        } else {
            "Params"@
        },
        f,
    ).line("}")
}

/// The result record of a request, its accessor, the call helper and
/// the registration helper.
pub open spec fn results_part(e: Emitted, f: FunView) -> Emitted {
    let a = downgrade(
        struct_def(e.line(""), "Results"@, f.decl.results@).line("").line("impl Results {"),
        "Results"@,
        f,
    ).line("}").line("").line(
        "pub async fn call(h: &__::Handle, p: Params) -> Result<Results, lavish_rpc::Error> {",
    );
    let b = a.nested().line("h.call(");
    let c = b.nested().text_line("__::Params::"@ + variant_ident(f.path) + "(p),"@).line(
        "Results::downgrade,",
    );
    let d = a.resumed(b.resumed(c).line(").await")).line("}").line("").line(
        "pub fn register<'a, T, F, FT>(h: &mut __::Handler<'a, T>, f: F)",
    ).line("where");
    let g = d.resumed(
        d.nested().line("F: Fn(__::Call<T, Params>) -> FT + Sync + Send + 'a,").line(
            "FT: Future<Output = Result<Results, lavish_rpc::Error>> + Send + 'static,",
        ),
    ).line("{");
    g.resumed(g.nested().line("unimplemented!()")).line("}")
}

/// What the module of `f` holds: its imports, its parameter record and,
/// for a request, its results, call helper and registration helper.
/// `sup` leads from the module up to the root of the generated file.
pub open spec fn fun_body(e: Emitted, f: FunView, sup: Seq<char>) -> Emitted {
    let head = params_part(
        e.line("use futures::prelude::*;")
            .line("use lavish_rpc::serde_derive::*;")
            .text_line("use "@ + sup + "__;"@)
            .line(""),
        f,
    );
    if f.is_notification() {
        head
    } else {
        results_part(head, f)
    }
}

/// The module of one function: its comment, and its body between the
/// braces of a module named after the function.
pub open spec fn fun_module(e: Emitted, f: FunView, sup: Seq<char>) -> Emitted {
    let comments = comment_lines(f.decl.comment);
    let head = e.lines(comments, comments.len()).text_line(
        "pub mod "@ + snake_case(f.decl.name.text@) + " {"@,
    );
    head.resumed(fun_body(head.nested(), f, sup)).line("}").line("")
}

fn write_params_part(s: &mut Scope, fun: &Fun)
    ensures
        final(s)@ == params_part(old(s)@, fun@),
        *final(final(s).writer) == *final(old(s).writer),
{
    def_struct(s, "Params", &fun.decl().params);
    s.line("");
    s.line("impl Params {");
    if fun.is_notification() {
        write_downgrade(s, "NotificationParams", fun);
    } else {
        write_downgrade(s, "Params", fun);
    }
    s.line("}");
}

fn write_results_part(s: &mut Scope, fun: &Fun)
    ensures
        final(s)@ == results_part(old(s)@, fun@),
        *final(final(s).writer) == *final(old(s).writer),
{
    s.line("");
    def_struct(s, "Results", &fun.decl().results);
    s.line("");
    s.line("impl Results {");
    write_downgrade(s, "Results", fun);
    s.line("}");
    s.line("");
    s.line("pub async fn call(h: &__::Handle, p: Params) -> Result<Results, lavish_rpc::Error> {");
    {
        let mut b = s.scope();
        b.line("h.call(");
        {
            let mut c = b.scope();
            c.line(cat3("__::Params::", fun.variant_name().as_str(), "(p),").as_str());
            c.line("Results::downgrade,");
        }
        b.line(").await");
    }
    s.line("}");
    s.line("");
    s.line("pub fn register<'a, T, F, FT>(h: &mut __::Handler<'a, T>, f: F)");
    s.line("where");
    {
        let mut inner = s.scope();
        inner.line("F: Fn(__::Call<T, Params>) -> FT + Sync + Send + 'a,");
        inner.line("FT: Future<Output = Result<Results, lavish_rpc::Error>> + Send + 'static,");
    }
    s.line("{");
    {
        let mut inner = s.scope();
        inner.line("unimplemented!()");
    }
    s.line("}");
}

fn write_fun_body(s: &mut Scope, fun: &Fun, sup: &str)
    ensures
        final(s)@ == fun_body(old(s)@, fun@, sup@),
        *final(final(s).writer) == *final(old(s).writer),
{
    s.line("use futures::prelude::*;");
    s.line("use lavish_rpc::serde_derive::*;");
    s.line(cat3("use ", sup, "__;").as_str());
    s.line("");
    write_params_part(s, fun);
    if !fun.is_notification() {
        write_results_part(s, fun);
    }
}

/// Writes the module of `fun`. `sup` leads from that module up to the root
/// of the generated file.
pub fn write_fun_module(s: &mut Scope, fun: &Fun, sup: &str)
    ensures
        final(s)@ == fun_module(old(s)@, fun@, sup@),
        *final(final(s).writer) == *final(old(s).writer),
{
    comment(s, &fun.decl().comment);
    s.line(cat3("pub mod ", fun.mod_name().as_str(), " {").as_str());
    {
        let mut inner = s.scope();
        write_fun_body(&mut inner, fun, sup);
    }
    s.line("}");
    s.line("");
}

/// A walk over a namespace and everything below it, handing `acc` on:
/// `enter` on the way in, then the walks over the children in order, then
/// `leaf` on every function of the namespace in order, and `leave` on the
/// way out, which gets what came in and what the inside made of it. `sup`
/// goes to the functions; one namespace deeper it is one `super::` longer.
pub open spec fn walk<A>(
    acc: A,
    n: NamespaceView,
    sup: Seq<char>,
    enter: spec_fn(A, NamespaceView) -> A,
    leaf: spec_fn(A, FunView, Seq<char>) -> A,
    leave: spec_fn(A, A, NamespaceView) -> A,
) -> A
    decreases n, 1nat, 0nat,
{
    leave(acc, walk_items(enter(acc, n), n, sup, enter, leaf, leave), n)
}

/// The inside of a walk over `n`: its children, then its functions.
pub open spec fn walk_items<A>(
    acc: A,
    n: NamespaceView,
    sup: Seq<char>,
    enter: spec_fn(A, NamespaceView) -> A,
    leaf: spec_fn(A, FunView, Seq<char>) -> A,
    leave: spec_fn(A, A, NamespaceView) -> A,
) -> A
    decreases n, 0nat, 1nat,
{
    walk_funs(
        walk_children(acc, n.children, sup + "super::"@, enter, leaf, leave, n.children.len()),
        n.funs,
        sup,
        leaf,
        n.funs.len(),
    )
}

/// The walks over the first `k` of `children`, one after the other.
pub open spec fn walk_children<A>(
    acc: A,
    children: Seq<NamespaceView>,
    sup: Seq<char>,
    enter: spec_fn(A, NamespaceView) -> A,
    leaf: spec_fn(A, FunView, Seq<char>) -> A,
    leave: spec_fn(A, A, NamespaceView) -> A,
    k: nat,
) -> A
    decreases children, 2nat, k,
{
    if k == 0 || k > children.len() {
        acc
    } else {
        walk(
            walk_children(acc, children, sup, enter, leaf, leave, (k - 1) as nat),
            children[k - 1],
            sup,
            enter,
            leaf,
            leave,
        )
    }
}

/// `leaf` on the first `k` of `funs`, one after the other.
pub open spec fn walk_funs<A>(
    acc: A,
    funs: Seq<FunView>,
    sup: Seq<char>,
    leaf: spec_fn(A, FunView, Seq<char>) -> A,
    k: nat,
) -> A
    decreases k,
{
    if k == 0 {
        acc
    } else {
        leaf(walk_funs(acc, funs, sup, leaf, (k - 1) as nat), funs[k - 1], sup)
    }
}

/// The line that opens the module of a namespace.
pub open spec fn module_head(e: Emitted, n: NamespaceView) -> Emitted {
    e.text_line("pub mod "@ + n.name() + " {"@)
}

/// On the way into a namespace: the line that opens its module, and one
/// level deeper from there.
pub open spec fn module_enter() -> spec_fn(Emitted, NamespaceView) -> Emitted {
    |e: Emitted, n: NamespaceView| module_head(e, n).nested()
}

/// On a function: its module.
pub open spec fn module_leaf() -> spec_fn(Emitted, FunView, Seq<char>) -> Emitted {
    |e: Emitted, f: FunView, sup: Seq<char>| fun_module(e, f, sup)
}

/// On the way out of a namespace: back at the depth of its module, the
/// closing brace and an empty line.
pub open spec fn module_leave() -> spec_fn(Emitted, Emitted, NamespaceView) -> Emitted {
    |e: Emitted, inner: Emitted, n: NamespaceView|
        module_head(e, n).resumed(inner).line("}").line("")
}

/// The module of a namespace: the modules of its children, then the
/// modules of its functions, between the braces of a module named after
/// the namespace. `sup` leads from a function module of this namespace up
/// to the root of the generated file.
pub open spec fn ns_module(e: Emitted, n: NamespaceView, sup: Seq<char>) -> Emitted {
    walk(e, n, sup, module_enter(), module_leaf(), module_leave())
}

/// What the module of a namespace holds.
pub open spec fn ns_items(e: Emitted, n: NamespaceView, sup: Seq<char>) -> Emitted {
    walk_items(e, n, sup, module_enter(), module_leaf(), module_leave())
}

/// The modules of the first `k` of `children`.
pub open spec fn ns_modules(
    e: Emitted,
    children: Seq<NamespaceView>,
    sup: Seq<char>,
    k: nat,
) -> Emitted {
    walk_children(e, children, sup, module_enter(), module_leaf(), module_leave(), k)
}

/// The modules of the first `k` of `funs`.
pub open spec fn fun_modules(e: Emitted, funs: Seq<FunView>, sup: Seq<char>, k: nat) -> Emitted {
    walk_funs(e, funs, sup, module_leaf(), k)
}

/// The modules of the first `k` roots of a forest, each after an empty
/// line.
pub open spec fn root_modules(e: Emitted, roots: Seq<NamespaceView>, k: nat) -> Emitted
    decreases k,
{
    if k == 0 || k > roots.len() {
        e
    } else {
        ns_module(root_modules(e, roots, (k - 1) as nat).line(""), roots[k - 1], "super::super::super::"@)
    }
}

/// The generated module: imports, the three unions, the aliases, the
/// dispatch of each union, the handler aggregate, and the modules that
/// mirror the forest.
pub open spec fn surface_body(e: Emitted, forest: Seq<NamespaceView>) -> Emitted {
    let all = funs_among(forest, forest.len());
    let requests = of_kind(all, FunKind::Request);
    let notifications = of_kind(all, FunKind::Notification);
    let unions = union_def(
        union_def(union_def(imports(e), "Params"@, "Params"@, requests), "Results"@, "Results"@, requests),
        "NotificationParams"@,
        "Params"@,
        notifications,
    );
    let atoms = atom_impl(
        atom_impl(atom_impl(aliases(unions), requests, "Params"@, "Params"@), requests, "Results"@, "Results"@),
        notifications,
        "NotificationParams"@,
        "Params"@,
    );
    root_modules(handler(slot_types(atoms), requests), forest, forest.len())
}

/// The whole generated file for a forest.
pub open spec fn surface(e: Emitted, forest: Seq<NamespaceView>) -> Emitted {
    let head = header(e).line("pub use __::*;").line("").line("mod __ {");
    head.resumed(surface_body(head.nested(), forest)).line("}")
}

/// Writes the module of the namespace `ns`. `sup` leads from a function
/// module of `ns` up to the root of the generated file.
pub fn visit_ns(s: &mut Scope, ns: &Namespace, sup: &str)
    ensures
        final(s)@ == ns_module(old(s)@, ns@, sup@),
        *final(final(s).writer) == *final(old(s).writer),
    decreases ns@, 1nat, 0nat,
{
    s.line(cat3("pub mod ", ns.name(), " {").as_str());
    {
        let mut inner = s.scope();
        write_ns_items(&mut inner, ns, sup);
    }
    s.line("}");
    s.line("");
}

fn write_ns_items(s: &mut Scope, ns: &Namespace, sup: &str)
    ensures
        final(s)@ == ns_items(old(s)@, ns@, sup@),
        *final(final(s).writer) == *final(old(s).writer),
    decreases ns@, 0nat, 1nat,
{
    let mut deeper = String::from_str(sup);
    deeper.append("super::");
    let children = ns.children();
    let ghost kids = ns@.children;
    let mut i: usize = 0;
    while i < children.len()
        invariant
            i <= children.len(),
            children@.len() == kids.len(),
            kids == ns@.children,
            forall|j: int| 0 <= j < children@.len() ==> (#[trigger] children@[j])@ == kids[j],
            deeper@ == sup@ + "super::"@,
            s@ == ns_modules(old(s)@, kids, deeper@, i as nat),
            *final(s.writer) == *final(old(s).writer),
        decreases children.len() - i,
    {
        assert(children@[i as int]@ == kids[i as int]);
        assert(decreases_to!(ns@ => ns@.children));
        assert(decreases_to!(ns@.children => ns@.children[i as int]));
        visit_ns(s, &children[i], deeper.as_str());
        i += 1;
    }
    let ghost mid = s@;
    let funs = ns.own_funs();
    let mut j: usize = 0;
    while j < funs.len()
        invariant
            j <= funs.len(),
            fun_views(funs@) == ns@.funs,
            s@ == fun_modules(mid, ns@.funs, sup@, j as nat),
            *final(s.writer) == *final(old(s).writer),
        decreases funs.len() - j,
    {
        assert(funs@[j as int]@ == ns@.funs[j as int]);
        write_fun_module(s, &funs[j], sup);
        j += 1;
    }
}

fn write_root_modules(s: &mut Scope, ctx: &Context)
    ensures
        final(s)@ == root_modules(old(s)@, ctx@, ctx@.len()),
        *final(final(s).writer) == *final(old(s).writer),
{
    let roots = ctx.roots();
    let mut i: usize = 0;
    while i < roots.len()
        invariant
            i <= roots.len(),
            roots@.len() == ctx@.len(),
            forall|j: int| 0 <= j < roots@.len() ==> (#[trigger] roots@[j])@ == ctx@[j],
            s@ == root_modules(old(s)@, ctx@, i as nat),
            *final(s.writer) == *final(old(s).writer),
        decreases roots.len() - i,
    {
        assert(roots@[i as int]@ == ctx@[i as int]);
        s.line("");
        visit_ns(s, &roots[i], "super::super::super::");
        i += 1;
    }
}

fn write_surface_body(s: &mut Scope, ctx: &Context)
    ensures
        final(s)@ == surface_body(old(s)@, ctx@),
        *final(final(s).writer) == *final(old(s).writer),
{
    let requests = ctx.funs(FunKind::Request);
    let notifications = ctx.funs(FunKind::Notification);
    write_imports(s);
    write_union(s, "Params", "Params", &requests);
    write_union(s, "Results", "Results", &requests);
    write_union(s, "NotificationParams", "Params", &notifications);
    write_aliases(s);
    write_atom(s, "Params", "Params", &requests);
    write_atom(s, "Results", "Results", &requests);
    write_atom(s, "Params", "NotificationParams", &notifications);
    write_slot_types(s);
    write_handler(s, &requests);
    write_root_modules(s, ctx);
}

/// Writes the whole generated file for the forest of `ctx`.
pub fn write_surface(s: &mut Scope, ctx: &Context)
    ensures
        final(s)@ == surface(old(s)@, ctx@),
        *final(final(s).writer) == *final(old(s).writer),
{
    write_header(s);
    s.line("pub use __::*;");
    s.line("");
    s.line("mod __ {");
    {
        let mut inner = s.scope();
        write_surface_body(&mut inner, ctx);
    }
    s.line("}");
}

/// The source generated for `modules`: their namespaces are resolved and
/// merged into one forest, and the surface of that forest is written out.
pub fn codegen(modules: &Vec<Module>) -> (out: String)
    ensures
        out@ == surface(Emitted::start(), forest_of(modules@)).text,
{
    let ctx = Context::from_modules(modules);
    let mut w = Scope::writer();
    {
        let mut s = Scope::new(&mut w);
        write_surface(&mut s, &ctx);
    }
    w.into_inner()
}

} // verus!
