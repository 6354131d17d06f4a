//! The parsed declaration tree: what a schema file declares, with source
//! locations and doc comments.

use vstd::prelude::*;

verus! {

/// A region of a source text: where it starts and how many bytes it covers.
#[derive(Debug, Clone, Copy, PartialEq, Eq, Structural)]
pub struct Span {
    pub offset: usize,
    pub len: usize,
}

/// One parsed schema file.
#[derive(Debug)]
pub struct Module {
    pub loc: Span,
    pub namespaces: Vec<NamespaceDecl>,
}

impl Module {
    pub fn new(loc: Span, namespaces: Vec<NamespaceDecl>) -> (m: Module)
        ensures
            m.loc == loc,
            m.namespaces == namespaces,
    {
        Module { loc, namespaces }
    }
}

/// A name as written in the source.
#[derive(Debug, Clone)]
pub struct Identifier {
    pub span: Span,
    pub text: String,
}

/// A namespace with what it declares, each kind in source order.
#[derive(Debug)]
pub struct NamespaceDecl {
    pub loc: Span,
    pub comment: Option<Comment>,
    pub name: Identifier,
    pub functions: Vec<FunctionDecl>,
    pub notifications: Vec<NotificationDecl>,
    pub structs: Vec<StructDecl>,
    pub namespaces: Vec<NamespaceDecl>,
}

/// One declaration inside a namespace.
#[derive(Debug)]
pub enum NamespaceItem {
    Function(FunctionDecl),
    Notification(NotificationDecl),
    Struct(StructDecl),
    Namespace(NamespaceDecl),
}

/// A function: its parameters, its results, and its modifiers.
#[derive(Debug)]
pub struct FunctionDecl {
    pub loc: Span,
    pub comment: Option<Comment>,
    pub modifiers: Vec<FunctionModifier>,
    pub name: Identifier,
    pub params: Vec<Field>,
    pub results: Vec<Field>,
}

/// A one-way message: parameters, no results.
#[derive(Debug)]
pub struct NotificationDecl {
    pub loc: Span,
    pub comment: Option<Comment>,
    pub name: Identifier,
    pub params: Vec<Field>,
}

/// Which side implements a function, and whether it is a one-way message.
#[derive(Debug, Clone, Copy, PartialEq, Eq, Structural)]
pub enum FunctionModifier {
    Server,
    Client,
    Notification,
}

/// A named field; its type is carried as written.
#[derive(Debug)]
pub struct Field {
    pub loc: Span,
    pub comment: Option<Comment>,
    pub name: Identifier,
    pub typ: String,
}

#[derive(Debug)]
pub struct StructDecl {
    pub loc: Span,
    pub comment: Option<Comment>,
    pub name: Identifier,
    pub fields: Vec<Field>,
}

/// A doc comment, one entry per line.
#[derive(Debug, Clone)]
pub struct Comment {
    pub lines: Vec<String>,
}

impl Default for Comment {
    fn default() -> (c: Comment)
        ensures
            c.lines@.len() == 0,
    {
        Comment { lines: Vec::new() }
    }
}

/// The functions among `items`, in order.
pub open spec fn functions_of(items: Seq<NamespaceItem>) -> Seq<FunctionDecl>
    decreases items.len(),
{
    if items.len() == 0 {
        Seq::empty()
    } else {
        match items.last() {
            NamespaceItem::Function(d) => functions_of(items.drop_last()).push(d),
            _ => functions_of(items.drop_last()),
        }
    }
}

/// The notifications among `items`, in order.
pub open spec fn notifications_of(items: Seq<NamespaceItem>) -> Seq<NotificationDecl>
    decreases items.len(),
{
    if items.len() == 0 {
        Seq::empty()
    } else {
        match items.last() {
            NamespaceItem::Notification(d) => notifications_of(items.drop_last()).push(d),
            _ => notifications_of(items.drop_last()),
        }
    }
}

/// The structs among `items`, in order.
pub open spec fn structs_of(items: Seq<NamespaceItem>) -> Seq<StructDecl>
    decreases items.len(),
{
    if items.len() == 0 {
        Seq::empty()
    } else {
        match items.last() {
            NamespaceItem::Struct(d) => structs_of(items.drop_last()).push(d),
            _ => structs_of(items.drop_last()),
        }
    }
}

/// The nested namespaces among `items`, in order.
pub open spec fn namespaces_of(items: Seq<NamespaceItem>) -> Seq<NamespaceDecl>
    decreases items.len(),
{
    if items.len() == 0 {
        Seq::empty()
    } else {
        match items.last() {
            NamespaceItem::Namespace(d) => namespaces_of(items.drop_last()).push(d),
            _ => namespaces_of(items.drop_last()),
        }
    }
}

impl NamespaceDecl {
    /// The namespace that declares `items`: each item goes to the list of
    /// its kind, and keeps its place among the items of that kind.
    pub fn new(
        name: Identifier,
        loc: Span,
        comment: Option<Comment>,
        items: Vec<NamespaceItem>,
    ) -> (ns: NamespaceDecl)
        ensures
            ns.name == name,
            ns.loc == loc,
            ns.comment == comment,
            ns.functions@ == functions_of(items@),
            ns.notifications@ == notifications_of(items@),
            ns.structs@ == structs_of(items@),
            ns.namespaces@ == namespaces_of(items@),
    {
        let mut ns = NamespaceDecl {
            name,
            loc,
            comment,
            functions: Vec::new(),
            notifications: Vec::new(),
            structs: Vec::new(),
            namespaces: Vec::new(),
        };
        let ghost all = items@;
        for item in it: items.into_iter()
            invariant
                it.seq() == all,
                ns.name == name,
                ns.loc == loc,
                ns.comment == comment,
                ns.functions@ == functions_of(all.take(it.index() as int)),
                ns.notifications@ == notifications_of(all.take(it.index() as int)),
                ns.structs@ == structs_of(all.take(it.index() as int)),
                ns.namespaces@ == namespaces_of(all.take(it.index() as int)),
        {
            assert(all.take(it.index() + 1).drop_last() == all.take(it.index() as int));
            ns.add_item(item);
        }
        assert(all.take(all.len() as int) == all);
        ns
    }

    /// Appends `item` to the list of its kind.
    pub fn add_item(&mut self, item: NamespaceItem)
        ensures
            final(self).name == old(self).name,
            final(self).loc == old(self).loc,
            final(self).comment == old(self).comment,
            final(self).functions@ == match item {
                NamespaceItem::Function(d) => old(self).functions@.push(d),
                _ => old(self).functions@,
            },
            final(self).notifications@ == match item {
                NamespaceItem::Notification(d) => old(self).notifications@.push(d),
                _ => old(self).notifications@,
            },
            final(self).structs@ == match item {
                NamespaceItem::Struct(d) => old(self).structs@.push(d),
                _ => old(self).structs@,
            },
            final(self).namespaces@ == match item {
                NamespaceItem::Namespace(d) => old(self).namespaces@.push(d),
                _ => old(self).namespaces@,
            },
    {
        match item {
            NamespaceItem::Function(i) => {
                self.functions.push(i);
            },
            NamespaceItem::Notification(i) => {
                self.notifications.push(i);
            },
            NamespaceItem::Struct(i) => {
                self.structs.push(i);
            },
            NamespaceItem::Namespace(i) => {
                self.namespaces.push(i);
            },
        };
    }
}

} // verus!
