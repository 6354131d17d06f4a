//! Names derived from a function's dotted path: the wire name, the variant
//! identifier, the qualified type path and the module identifier.

use crate::ast::{FunctionDecl, FunctionModifier};
use crate::text::{join, join_with, replace, replace_char, split, split_on, texts};
use heck::{CamelCase, MixedCase, SnakeCase};
use vstd::prelude::*;
use vstd::string::*;

verus! {

/// `s` in upper camel case, as `heck` segments and capitalizes it.
pub uninterp spec fn camel_case(s: Seq<char>) -> Seq<char>;

/// `s` in lower camel case, as `heck` segments and capitalizes it.
pub uninterp spec fn mixed_case(s: Seq<char>) -> Seq<char>;

/// `s` in snake case, as `heck` segments and lowercases it.
pub uninterp spec fn snake_case(s: Seq<char>) -> Seq<char>;

/// `s` with every character mapped to its Unicode lowercase.
pub uninterp spec fn lowercase(s: Seq<char>) -> Seq<char>;

/// `heck::CamelCase::to_camel_case`: the result depends on the characters of
/// `s` alone; it is known here only by its name.
#[verifier::external_body]
fn to_camel_case(s: &str) -> (r: String)
    ensures
        r@ == camel_case(s@),
{
    s.to_camel_case()
}

/// `heck::MixedCase::to_mixed_case`: the result depends on the characters of
/// `s` alone; it is known here only by its name.
#[verifier::external_body]
fn to_mixed_case(s: &str) -> (r: String)
    ensures
        r@ == mixed_case(s@),
{
    s.to_mixed_case()
}

/// `heck::SnakeCase::to_snake_case`: the result depends on the characters of
/// `s` alone; it is known here only by its name.
#[verifier::external_body]
fn to_snake_case(s: &str) -> (r: String)
    ensures
        r@ == snake_case(s@),
{
    s.to_snake_case()
}

/// `str::to_lowercase`: the result depends on the characters of `s` alone;
/// it is known here only by its name.
#[verifier::external_body]
fn to_lowercase(s: &str) -> (r: String)
    ensures
        r@ == lowercase(s@),
{
    s.to_lowercase()
}

/// The segments of a path as they go on the wire: the last in upper camel
/// case, every other in lower camel case.
pub open spec fn wire_segments(path: Seq<Seq<char>>) -> Seq<Seq<char>> {
    Seq::new(
        path.len(),
        |i: int| if i == path.len() - 1 { camel_case(path[i]) } else { mixed_case(path[i]) },
    )
}

/// The name that selects a function on the wire.
pub open spec fn wire_name(path: Seq<Seq<char>>) -> Seq<char> {
    join(wire_segments(path), seq!['.'])
}

/// The identifier of a function's variant in a union: its wire name in
/// lowercase, with underscores for periods.
pub open spec fn variant_ident(path: Seq<Seq<char>>) -> Seq<char> {
    lowercase(replace_char(wire_name(path), '.', '_'))
}

/// The path to a function's module: its segments joined by `::`.
pub open spec fn qualified_path(path: Seq<Seq<char>>) -> Seq<char> {
    join(path, seq![':', ':'])
}

/// Whether a function answers with results or is a one-way message.
#[derive(PartialEq, Eq, Structural, Clone, Copy, Debug)]
pub enum FunKind {
    Request,
    Notification,
}

/// What a resolved function is: its declaration and its path from the root.
pub struct FunView {
    pub decl: FunctionDecl,
    pub path: Seq<Seq<char>>,
}

impl FunView {
    /// Whether the declaration carries the notification modifier.
    pub open spec fn is_notification(self) -> bool {
        self.decl.modifiers@.contains(FunctionModifier::Notification)
    }

    /// The message class of the function.
    pub open spec fn kind(self) -> FunKind {
        if self.is_notification() {
            FunKind::Notification
        } else {
            FunKind::Request
        }
    }
}

/// A declared function together with its fully qualified path.
pub struct Fun<'a> {
    decl: &'a FunctionDecl,
    tokens: Vec<String>,
}

impl<'a> View for Fun<'a> {
    type V = FunView;

    closed spec fn view(&self) -> FunView {
        FunView { decl: *self.decl, path: texts(self.tokens@) }
    }
}

impl<'a> Fun<'a> {
    /// The function `decl` under the dotted name `full_name`.
    pub fn new(decl: &'a FunctionDecl, full_name: String) -> (f: Fun<'a>)
        ensures
            f@.decl == *decl,
            f@.path == split_on(full_name@, '.'),
    {
        Fun { decl, tokens: split(full_name.as_str(), '.') }
    }

    /// The declaration.
    pub fn decl(&self) -> (d: &'a FunctionDecl)
        ensures
            *d == self@.decl,
    {
        self.decl
    }

    /// The wire name.
    pub fn rpc_name(&self) -> (r: String)
        ensures
            r@ == wire_name(self@.path),
    {
        let mut parts: Vec<String> = Vec::new();
        let mut i: usize = 0;
        while i < self.tokens.len()
            invariant
                i <= self.tokens.len(),
                texts(parts@) == wire_segments(self@.path).take(i as int),
            decreases self.tokens.len() - i,
        {
            let ghost done = parts@;
            let part = if i + 1 == self.tokens.len() {
                to_camel_case(self.tokens[i].as_str())
            } else {
                to_mixed_case(self.tokens[i].as_str())
            };
            parts.push(part);
            assert(texts(parts@) == texts(done).push(part@));
            assert(wire_segments(self@.path).take(i + 1) == wire_segments(self@.path).take(i as int).push(part@));
            i += 1;
        }
        assert(wire_segments(self@.path).take(self.tokens@.len() as int) == wire_segments(self@.path));
        proof {
            reveal_strlit(".");
            assert("."@ =~= seq!['.']);
        }
        join_with(&parts, ".")
    }

    /// The variant identifier.
    pub fn variant_name(&self) -> (r: String)
        ensures
            r@ == variant_ident(self@.path),
    {
        let wire = self.rpc_name();
        let flat = replace(wire.as_str(), '.', '_');
        to_lowercase(flat.as_str())
    }

    /// The qualified type path.
    pub fn qualified_name(&self) -> (r: String)
        ensures
            r@ == qualified_path(self@.path),
    {
        proof {
            reveal_strlit("::");
            assert("::"@ =~= seq![':', ':']);
        }
        join_with(&self.tokens, "::")
    }

    /// The module identifier: the function's own name in snake case.
    pub fn mod_name(&self) -> (r: String)
        ensures
            r@ == snake_case(self@.decl.name.text@),
    {
        to_snake_case(self.decl.name.text.as_str())
    }

    /// Whether the function is a one-way message.
    pub fn is_notification(&self) -> (b: bool)
        ensures
            b == self@.is_notification(),
    {
        let mut i: usize = 0;
        while i < self.decl.modifiers.len()
            invariant
                i <= self.decl.modifiers.len(),
                forall|j: int| 0 <= j < i ==> self.decl.modifiers@[j] != FunctionModifier::Notification,
            decreases self.decl.modifiers.len() - i,
        {
            if self.decl.modifiers[i] == FunctionModifier::Notification {
                return true;
            }
            i += 1;
        }
        false
    }

    /// The message class of the function.
    pub fn kind(&self) -> (k: FunKind)
        ensures
            k == self@.kind(),
    {
        if self.is_notification() {
            FunKind::Notification
        } else {
            FunKind::Request
        }
    }
}

/// The names of a function are functions of its path: two functions with
/// the same path have the same wire name, variant identifier and qualified
/// type path, and with the same declared name the same module identifier.
pub proof fn lemma_naming_deterministic(a: FunView, b: FunView)
    requires
        a.path == b.path,
    ensures
        wire_name(a.path) == wire_name(b.path),
        variant_ident(a.path) == variant_ident(b.path),
        qualified_path(a.path) == qualified_path(b.path),
        a.decl.name.text@ == b.decl.name.text@ ==> snake_case(a.decl.name.text@) == snake_case(
            b.decl.name.text@,
        ),
{
}

} // verus!
