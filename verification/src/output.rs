//! Indentation-aware text emission: a sink, nested scopes, blocks and
//! delimited lists.

use crate::ast::Comment;
use crate::text::{push_char, texts};
use vstd::prelude::*;
use vstd::string::*;

verus! {

/// A run of `n` spaces.
pub open spec fn spaces(n: nat) -> Seq<char> {
    Seq::new(n, |i: int| ' ')
}

/// What a scope has produced and where it stands: the text written so far,
/// the indentation that the scope puts before the first character of a line,
/// and whether the next character lands at the start of a line.
pub struct Emitted {
    pub text: Seq<char>,
    pub pad: Seq<char>,
    pub fresh: bool,
}

impl Emitted {
    /// An empty output at depth zero.
    pub open spec fn start() -> Emitted {
        Emitted { text: Seq::empty(), pad: Seq::empty(), fresh: true }
    }

    /// This output with the line `s` written.
    pub open spec fn line(self, s: &str) -> Emitted {
        emit_line(self, s@)
    }

    /// This output with the line `s` written.
    pub open spec fn text_line(self, s: Seq<char>) -> Emitted {
        emit_line(self, s)
    }

    /// This output with the current line ended.
    pub open spec fn lf(self) -> Emitted {
        emit_char(self, '\n')
    }

    /// This output with the first `n` of `lines` written, one per line.
    pub open spec fn lines(self, lines: Seq<Seq<char>>, n: nat) -> Emitted
        decreases n,
    {
        if n == 0 {
            self
        } else {
            emit_line(self.lines(lines, (n - 1) as nat), lines[n - 1])
        }
    }

    /// The state of a scope opened inside this one.
    pub open spec fn nested(self) -> Emitted {
        nested(self)
    }

    /// This output after a scope opened inside it has reached `inner`.
    pub open spec fn resumed(self, inner: Emitted) -> Emitted {
        resumed(self, inner.text)
    }
}

/// Writing one character: a newline ends the line; any other character is
/// preceded by the indentation when it is the first of its line.
pub open spec fn emit_char(e: Emitted, c: char) -> Emitted {
    if c == '\n' {
        Emitted { text: e.text.push('\n'), pad: e.pad, fresh: true }
    } else if e.fresh {
        Emitted { text: (e.text + e.pad).push(c), pad: e.pad, fresh: false }
    } else {
        Emitted { text: e.text.push(c), pad: e.pad, fresh: false }
    }
}

/// Writing a string: its characters, one after the other.
pub open spec fn emit(e: Emitted, s: Seq<char>) -> Emitted
    decreases s.len(),
{
    if s.len() == 0 {
        e
    } else {
        emit_char(emit(e, s.drop_last()), s.last())
    }
}

/// Writing a string and ending the line.
pub open spec fn emit_line(e: Emitted, s: Seq<char>) -> Emitted {
    emit_char(emit(e, s), '\n')
}

/// The first `n` of `lines`, each on a line of its own behind `marker`.
pub open spec fn emit_marked(e: Emitted, marker: Seq<char>, lines: Seq<String>, n: nat) -> Emitted
    decreases n,
{
    if n == 0 {
        e
    } else {
        emit_line(emit_marked(e, marker, lines, (n - 1) as nat), marker + lines[n - 1]@)
    }
}

/// A doc comment, if there is one: every line behind three slashes.
pub open spec fn emit_comment(e: Emitted, comment: Option<Comment>) -> Emitted {
    match comment {
        Some(c) => emit_marked(e, "/// "@, c.lines@, c.lines@.len()),
        None => e,
    }
}

/// The state of a scope opened inside `e`: one level deeper, which is four
/// more spaces of indentation, and at line start.
pub open spec fn nested(e: Emitted) -> Emitted {
    Emitted { text: e.text, pad: e.pad + spaces(4), fresh: true }
}

/// The state of a scope after a scope opened inside it has written `text`:
/// the parent keeps its own indentation and line state.
pub open spec fn resumed(e: Emitted, text: Seq<char>) -> Emitted {
    Emitted { text: text, pad: e.pad, fresh: e.fresh }
}

/// An in-memory character sink.
pub struct Writer {
    buf: String,
}

impl View for Writer {
    type V = Seq<char>;

    closed spec fn view(&self) -> Seq<char> {
        self.buf@
    }
}

impl Writer {
    /// A sink that continues the text in `buf`.
    pub fn new(buf: String) -> (w: Writer)
        ensures
            w@ == buf@,
    {
        Writer { buf }
    }

    /// The text written so far.
    pub fn into_inner(self) -> (buf: String)
        ensures
            buf@ == self@,
    {
        self.buf
    }
}

/// Where the next character of a scope lands.
#[derive(PartialEq, Eq, Structural, Clone, Copy)]
pub enum ScopeState {
    NeedIndent,
    Indented,
}

/// A view onto a sink at one nesting depth. What is written to the scope
/// goes to the sink, behind the indentation of the scope where it starts a
/// line. A scope never changes which sink it writes to: every function
/// that writes through a scope says so of the sink's final value.
pub struct Scope<'a> {
    /// The sink.
    pub writer: &'a mut Writer,
    /// The indentation: what goes before the first character of a line.
    pub prefix: String,
    /// Whether the next character starts a line.
    pub state: ScopeState,
}

impl<'a> View for Scope<'a> {
    type V = Emitted;

    open spec fn view(&self) -> Emitted {
        Emitted {
            text: self.writer@,
            pad: self.prefix@,
            fresh: self.state == ScopeState::NeedIndent,
        }
    }
}

impl<'a> Scope<'a> {
    /// A scope at depth zero that appends to `writer`.
    pub fn new(writer: &'a mut Writer) -> (s: Scope<'a>)
        ensures
            s@ == (Emitted { text: old(writer)@, pad: Seq::empty(), fresh: true }),
            *final(writer) == *final(s.writer),
    {
        Scope { writer, prefix: String::new(), state: ScopeState::NeedIndent }
    }

    /// Whether the next character written lands at the start of a line.
    pub fn fresh_line(&self) -> (b: bool)
        ensures
            b == self@.fresh,
    {
        self.state == ScopeState::NeedIndent
    }

    /// Writes `s`, indenting every line that it starts.
    pub fn write_str(&mut self, s: &str)
        ensures
            final(self)@ == emit(old(self)@, s@),
            *final(final(self).writer) == *final(old(self).writer),
    {
        for c in it: s.chars()
            invariant
                it.seq() == s@,
                self@ == emit(old(self)@, s@.take(it.index() as int)),
                self.prefix@ == old(self).prefix@,
                *final(self.writer) == *final(old(self).writer),
        {
            assert(s@.take(it.index() + 1).drop_last() == s@.take(it.index() as int));
            if c == '\n' {
                push_char(&mut self.writer.buf, '\n');
                self.state = ScopeState::NeedIndent;
            } else {
                if self.state == ScopeState::NeedIndent {
                    self.writer.buf.append(self.prefix.as_str());
                    self.state = ScopeState::Indented;
                }
                push_char(&mut self.writer.buf, c);
            }
        }
        assert(s@.take(s@.len() as int) == s@);
    }

    /// Ends the current line.
    pub fn lf(&mut self)
        ensures
            final(self)@ == emit_char(old(self)@, '\n'),
            *final(final(self).writer) == *final(old(self).writer),
    {
        push_char(&mut self.writer.buf, '\n');
        self.state = ScopeState::NeedIndent;
    }

    /// Writes `d`.
    pub fn write(&mut self, d: &str)
        ensures
            final(self)@ == emit(old(self)@, d@),
            *final(final(self).writer) == *final(old(self).writer),
    {
        self.write_str(d);
    }

    /// Writes `d` and ends the line.
    pub fn line(&mut self, d: &str)
        ensures
            final(self)@ == emit_line(old(self)@, d@),
            *final(final(self).writer) == *final(old(self).writer),
    {
        self.write_str(d);
        self.lf();
    }

    /// Writes `comment` as a doc comment, if there is one.
    pub fn comment(&mut self, comment: &Option<Comment>)
        ensures
            final(self)@ == emit_comment(old(self)@, *comment),
            *final(final(self).writer) == *final(old(self).writer),
    {
        if let Some(c) = comment {
            let mut i: usize = 0;
            while i < c.lines.len()
                invariant
                    i <= c.lines.len(),
                    self@ == emit_marked(old(self)@, "/// "@, c.lines@, i as nat),
                    *final(self.writer) == *final(old(self).writer),
                decreases c.lines.len() - i,
            {
                let mut text = String::from_str("/// ");
                text.append(c.lines[i].as_str());
                self.line(text.as_str());
                i += 1;
            }
        }
    }

    /// A new in-memory sink, empty.
    pub fn writer() -> (w: Writer)
        ensures
            w@ == Seq::<char>::empty(),
    {
        Writer::new(String::new())
    }

    /// Opens a scope one level deeper. What the child writes goes to the same
    /// sink; this scope keeps its own indentation and line state.
    pub fn scope(&mut self) -> (child: Scope<'_>)
        ensures
            child@ == nested(old(self)@),
            final(self)@ == resumed(old(self)@, final(child.writer)@),
            *final(final(self).writer) == *final(old(self).writer),
    {
        let mut prefix = self.prefix.clone();
        prefix.append("    ");
        proof {
            reveal_strlit("    ");
            assert("    "@ =~= spaces(4));
        }
        Scope { writer: &mut *self.writer, prefix, state: ScopeState::NeedIndent }
    }
}

/// The bracket pairs that can delimit a list.
#[derive(Clone, Copy, PartialEq, Eq, Structural)]
pub enum Brackets {
    Round,
    Squares,
    Curly,
    Angle,
    Bare,
}

impl Brackets {
    /// The text that opens a list delimited by these brackets.
    pub open spec fn opening(self) -> Seq<char> {
        match self {
            Brackets::Round => seq!['('],
            Brackets::Squares => seq!['['],
            Brackets::Curly => seq!['{'],
            Brackets::Angle => seq!['<'],
            Brackets::Bare => Seq::empty(),
        }
    }

    /// The text that closes a list delimited by these brackets.
    pub open spec fn closing(self) -> Seq<char> {
        match self {
            Brackets::Round => seq![')'],
            Brackets::Squares => seq![']'],
            Brackets::Curly => seq!['}'],
            Brackets::Angle => seq!['>'],
            Brackets::Bare => Seq::empty(),
        }
    }

    /// The opening and the closing text.
    pub fn pair(self) -> (p: (&'static str, &'static str))
        ensures
            p.0@ == self.opening(),
            p.1@ == self.closing(),
    {
        proof {
            reveal_strlit("(");
            reveal_strlit(")");
            reveal_strlit("[");
            reveal_strlit("]");
            reveal_strlit("{");
            reveal_strlit("}");
            reveal_strlit("<");
            reveal_strlit(">");
            reveal_strlit("");
        }
        let p = match self {
            Brackets::Round => ("(", ")"),
            Brackets::Squares => ("[", "]"),
            Brackets::Curly => ("{", "}"),
            Brackets::Angle => ("<", ">"),
            Brackets::Bare => ("", ""),
        };
        assert(p.0@ =~= self.opening());
        assert(p.1@ =~= self.closing());
        p
    }

    /// The opening text.
    pub fn open(self) -> (s: &'static str)
        ensures
            s@ == self.opening(),
    {
        self.pair().0
    }

    /// The closing text.
    pub fn close(self) -> (s: &'static str)
        ensures
            s@ == self.closing(),
    {
        self.pair().1
    }
}

/// A delimited list in the making: the opening bracket goes out with the
/// first item, the separator before every later one, and `finish` closes it.
pub struct List<'a, 'b> {
    pub scope: &'b mut Scope<'a>,
    pub brackets: Brackets,
    pub empty_list: bool,
    pub omit_empty: bool,
    pub separator: String,
}

/// What a list with `n` items already out writes for its next item.
pub open spec fn emit_item(
    e: Emitted,
    brackets: Brackets,
    separator: Seq<char>,
    first: bool,
    item: Seq<char>,
) -> Emitted {
    emit(emit(e, if first { brackets.opening() } else { separator }), item)
}

/// What closing a list writes: the closing bracket after the last item; both
/// brackets for a list without items, unless it omits them.
pub open spec fn emit_list_end(
    e: Emitted,
    brackets: Brackets,
    empty: bool,
    omit_empty: bool,
) -> Emitted {
    if empty {
        if omit_empty {
            e
        } else {
            emit(emit(e, brackets.opening()), brackets.closing())
        }
    } else {
        emit(e, brackets.closing())
    }
}

impl<'a, 'b> List<'a, 'b> {
    /// An empty list that will write to `scope`.
    pub fn new(scope: &'b mut Scope<'a>, separator: &str, brackets: Brackets) -> (l: List<'a, 'b>)
        ensures
            *l.scope == *old(scope),
            *final(scope) == *final(l.scope),
            l.brackets == brackets,
            l.empty_list,
            !l.omit_empty,
            l.separator@ == separator@,
    {
        List { scope, brackets, empty_list: true, omit_empty: false, separator: String::from_str(separator) }
    }

    /// Makes the list write nothing at all when it ends without items.
    pub fn omit_empty(&mut self)
        ensures
            *final(self) == (List { omit_empty: true, ..*old(self) }),
    {
        self.omit_empty = true;
    }

    /// Writes one item.
    pub fn item(&mut self, item: &str)
        ensures
            final(self).scope@ == emit_item(old(self).scope@, old(self).brackets, old(self).separator@, old(self).empty_list, item@),
            *final(final(self).scope.writer) == *final(old(self).scope.writer),
            *final(final(self).scope) == *final(old(self).scope),
            final(self).brackets == old(self).brackets,
            final(self).omit_empty == old(self).omit_empty,
            final(self).separator == old(self).separator,
            !final(self).empty_list,
    {
        if self.empty_list {
            self.scope.write(self.brackets.open());
            self.empty_list = false;
        } else {
            self.scope.write(self.separator.as_str());
        }
        self.scope.write(item);
    }

    /// Closes the list.
    pub fn finish(self)
        ensures
            final(self.scope)@ == emit_list_end(old(self.scope)@, self.brackets, self.empty_list, self.omit_empty),
            *final(final(self.scope).writer) == *final(old(self.scope).writer),
    {
        if self.empty_list {
            if self.omit_empty {
                return ;
            }
            self.scope.write(self.brackets.open());
            self.scope.write(self.brackets.close());
        } else {
            self.scope.write(self.brackets.close());
        }
    }
}

/// A piece of output as plain data: text, or a nesting of scopes, blocks and
/// lists around further pieces.
pub enum Code {
    /// Text written where the scope stands.
    Write(String),
    /// Text followed by the end of the line.
    Line(String),
    /// Pieces written one level deeper.
    Scoped(Vec<Code>),
    /// Pieces written one level deeper between braces; the text follows the
    /// closing brace.
    Block(String, Vec<Code>),
    /// Items between brackets, separated by a comma and a space; the flag
    /// says whether a list without items writes nothing.
    List(Brackets, bool, Vec<String>),
}

/// The first `n` of `items` written as the items of a list.
pub open spec fn emit_items(
    e: Emitted,
    brackets: Brackets,
    separator: Seq<char>,
    items: Seq<Seq<char>>,
    n: nat,
) -> Emitted
    decreases n,
{
    if n == 0 {
        e
    } else {
        emit_item(
            emit_items(e, brackets, separator, items, (n - 1) as nat),
            brackets,
            separator,
            n == 1,
            items[n - 1],
        )
    }
}

/// A whole list: its items, separated by a comma and a space, and its end.
pub open spec fn emit_list(
    e: Emitted,
    brackets: Brackets,
    omit_empty: bool,
    items: Seq<Seq<char>>,
) -> Emitted {
    emit_list_end(
        emit_items(e, brackets, seq![',', ' '], items, items.len()),
        brackets,
        items.len() == 0,
        omit_empty,
    )
}

/// Pieces written one level deeper.
pub open spec fn emit_scoped(e: Emitted, body: Seq<Code>) -> Emitted
    decreases body, 1nat,
{
    resumed(e, emit_all(nested(e), body, body.len()).text)
}

/// The opening of a block: a brace that ends its line, after a space when
/// the line has text already.
pub open spec fn block_opened(e: Emitted) -> Emitted {
    emit_line(if e.fresh { e } else { emit(e, seq![' ']) }, seq!['{'])
}

/// The end of a block that was opened at `opened` and whose body has
/// reached `inner`: the closing brace with `terminator` on a line of their
/// own.
pub open spec fn block_closed(opened: Emitted, inner: Emitted, terminator: Seq<char>) -> Emitted {
    emit_char(emit(emit(resumed(opened, inner.text), seq!['}']), terminator), '\n')
}

/// A block: its opening, the body one level deeper, and its end.
pub open spec fn emit_block(e: Emitted, terminator: Seq<char>, body: Seq<Code>) -> Emitted
    decreases body, 2nat,
{
    block_closed(
        block_opened(e),
        emit_all(nested(block_opened(e)), body, body.len()),
        terminator,
    )
}

/// One piece.
pub open spec fn emit_code(e: Emitted, code: Code) -> Emitted
    decreases code, 0nat,
{
    match code {
        Code::Write(text) => emit(e, text@),
        Code::Line(text) => emit_line(e, text@),
        Code::Scoped(body) => emit_scoped(e, body@),
        Code::Block(terminator, body) => emit_block(e, terminator@, body@),
        Code::List(brackets, omit_empty, items) => emit_list(e, brackets, omit_empty, texts(items@)),
    }
}

/// The first `n` of `body`, one after the other.
pub open spec fn emit_all(e: Emitted, body: Seq<Code>, n: nat) -> Emitted
    decreases body, 0nat, n,
{
    if n == 0 || n > body.len() {
        e
    } else {
        emit_code(emit_all(e, body, (n - 1) as nat), body[n - 1])
    }
}

impl<'a> Scope<'a> {
    /// Writes one piece.
    pub fn emit(&mut self, code: &Code)
        ensures
            final(self)@ == emit_code(old(self)@, *code),
            *final(final(self).writer) == *final(old(self).writer),
        decreases code, 0nat,
    {
        match code {
            Code::Write(text) => self.write(text.as_str()),
            Code::Line(text) => self.line(text.as_str()),
            Code::Scoped(body) => self.in_scope(body),
            Code::Block(terminator, body) => self.in_terminated_block(terminator.as_str(), body),
            Code::List(brackets, omit_empty, items) => self.in_list(*brackets, *omit_empty, items),
        }
    }

    /// Writes the pieces of `body`, one after the other.
    pub fn emit_all(&mut self, body: &Vec<Code>)
        ensures
            final(self)@ == emit_all(old(self)@, body@, body@.len()),
            *final(final(self).writer) == *final(old(self).writer),
        decreases body@, 0nat, 0nat,
    {
        let mut i: usize = 0;
        while i < body.len()
            invariant
                i <= body.len(),
                self@ == emit_all(old(self)@, body@, i as nat),
                *final(self.writer) == *final(old(self).writer),
            decreases body.len() - i,
        {
            self.emit(&body[i]);
            i += 1;
        }
    }

    /// Writes `body` one level deeper.
    pub fn in_scope(&mut self, body: &Vec<Code>)
        ensures
            final(self)@ == emit_scoped(old(self)@, body@),
            *final(final(self).writer) == *final(old(self).writer),
        decreases body@, 1nat,
    {
        let mut s = self.scope();
        s.emit_all(body);
    }

    /// Writes `body` as a block.
    pub fn in_block(&mut self, body: &Vec<Code>)
        ensures
            final(self)@ == emit_block(old(self)@, Seq::empty(), body@),
            *final(final(self).writer) == *final(old(self).writer),
        decreases body@, 3nat,
    {
        self.in_terminated_block("", body);
        proof {
            reveal_strlit("");
            assert(""@ =~= Seq::<char>::empty());
        }
    }

    /// Writes `body` as a block whose closing brace is followed by
    /// `terminator`.
    pub fn in_terminated_block(&mut self, terminator: &str, body: &Vec<Code>)
        ensures
            final(self)@ == emit_block(old(self)@, terminator@, body@),
            *final(final(self).writer) == *final(old(self).writer),
        decreases body@, 2nat,
    {
        proof {
            reveal_strlit(" ");
            reveal_strlit("{");
            reveal_strlit("}");
            assert(" "@ =~= seq![' ']);
            assert("{"@ =~= seq!['{']);
            assert("}"@ =~= seq!['}']);
        }
        if !self.fresh_line() {
            self.write(" ");
        }
        self.line("{");
        self.in_scope(body);
        self.write("}");
        self.write(terminator);
        self.lf();
    }

    /// Runs `body` on a fresh scope at depth zero over `writer`.
    pub fn fmt(writer: &'a mut Writer, body: &Vec<Code>)
        ensures
            final(writer)@ == emit_all(
                Emitted { text: old(writer)@, pad: Seq::empty(), fresh: true },
                body@,
                body@.len(),
            ).text,
    {
        let mut s = Scope::new(writer);
        s.emit_all(body);
    }

    /// Writes `items` as a list between `brackets`.
    pub fn in_list(&mut self, brackets: Brackets, omit_empty: bool, items: &Vec<String>)
        ensures
            final(self)@ == emit_list(old(self)@, brackets, omit_empty, texts(items@)),
            *final(final(self).writer) == *final(old(self).writer),
    {
        proof {
            reveal_strlit(", ");
            assert(", "@ =~= seq![',', ' ']);
        }
        let mut list = List::new(self, ", ", brackets);
        if omit_empty {
            list.omit_empty();
        }
        let mut i: usize = 0;
        while i < items.len()
            invariant
                i <= items.len(),
                list.scope@ == emit_items(old(self)@, brackets, seq![',', ' '], texts(items@), i as nat),
                list.brackets == brackets,
                list.omit_empty == omit_empty,
                list.separator@ == seq![',', ' '],
                list.empty_list == (i == 0),
                *final(list.scope.writer) == *final(old(self).writer),
                *final(list.scope) == *final(old(self)),
            decreases items.len() - i,
        {
            list.item(items[i].as_str());
            i += 1;
        }
        list.finish();
    }
}

} // verus!
