//! What holds of nested output: its brackets balance, and its lines are
//! indented by their depth.

use crate::output::{
    block_closed, block_opened, emit, emit_all, emit_block, emit_char, emit_code, emit_item,
    emit_items, emit_line, emit_list, emit_list_end, emit_scoped, nested, resumed, spaces, Brackets,
    Code, Emitted,
};
use crate::text::{join, texts};
use vstd::prelude::*;

verus! {

/// Whether `c` opens a bracket pair.
pub open spec fn is_opener(c: char) -> bool {
    c == '(' || c == '[' || c == '{' || c == '<'
}

/// Whether `c` closes a bracket pair.
pub open spec fn is_closer(c: char) -> bool {
    c == ')' || c == ']' || c == '}' || c == '>'
}

/// The character that closes what `c` opens.
pub open spec fn closer_of(c: char) -> char {
    if c == '(' {
        ')'
    } else if c == '[' {
        ']'
    } else if c == '{' {
        '}'
    } else {
        '>'
    }
}

/// The open brackets after `c`, given the open brackets before it,
/// innermost last: an opener is added, a closer takes away the opener that
/// it matches, and fails where it matches none.
pub open spec fn scan_char(stack: Option<Seq<char>>, c: char) -> Option<Seq<char>> {
    match stack {
        None => None,
        Some(st) => if is_opener(c) {
            Some(st.push(c))
        } else if is_closer(c) {
            if st.len() > 0 && closer_of(st.last()) == c {
                Some(st.drop_last())
            } else {
                None
            }
        } else {
            Some(st)
        },
    }
}

/// The open brackets after `s`, given the open brackets before it.
pub open spec fn scan(s: Seq<char>, stack: Option<Seq<char>>) -> Option<Seq<char>>
    decreases s.len(),
{
    if s.len() == 0 {
        stack
    } else {
        scan_char(scan(s.drop_last(), stack), s.last())
    }
}

/// Every bracket of `s` is closed by its match, and nothing is closed that
/// was not opened.
pub open spec fn balanced(s: Seq<char>) -> bool {
    scan(s, Some(Seq::empty())) == Some(Seq::<char>::empty())
}

/// `s` holds no bracket.
pub open spec fn bracket_free(s: Seq<char>) -> bool {
    forall|i: int| 0 <= i < s.len() ==> !is_opener(#[trigger] s[i]) && !is_closer(s[i])
}

/// Every string of `v` holds no bracket.
pub open spec fn all_bracket_free(v: Seq<Seq<char>>) -> bool {
    forall|i: int| 0 <= i < v.len() ==> bracket_free(#[trigger] v[i])
}

/// The brackets of a piece come from its blocks and lists alone: no text,
/// terminator or item in it holds one.
pub open spec fn code_bracket_free(c: Code) -> bool
    decreases c,
{
    match c {
        Code::Write(t) => bracket_free(t@),
        Code::Line(t) => bracket_free(t@),
        Code::Scoped(body) => forall|i: int|
            0 <= i < body@.len() ==> code_bracket_free(#[trigger] body@[i]),
        Code::Block(t, body) => bracket_free(t@) && forall|i: int|
            0 <= i < body@.len() ==> code_bracket_free(#[trigger] body@[i]),
        Code::List(_, _, items) => all_bracket_free(texts(items@)),
    }
}

/// Scanning two texts, one after the other, is scanning the second from
/// where the first ended.
pub proof fn lemma_scan_concat(a: Seq<char>, b: Seq<char>, st: Option<Seq<char>>)
    ensures
        scan(a + b, st) == scan(b, scan(a, st)),
    decreases b.len(),
{
    if b.len() == 0 {
        assert(a + b =~= a);
    } else {
        assert((a + b).drop_last() =~= a + b.drop_last());
        lemma_scan_concat(a, b.drop_last(), st);
    }
}

/// A text without brackets leaves the open brackets as they are.
pub proof fn lemma_scan_bracket_free(s: Seq<char>, st: Option<Seq<char>>)
    requires
        bracket_free(s),
    ensures
        scan(s, st) == st,
    decreases s.len(),
{
    if s.len() > 0 {
        assert(bracket_free(s.drop_last())) by {
            assert forall|i: int| 0 <= i < s.drop_last().len() implies !is_opener(
                #[trigger] s.drop_last()[i],
            ) && !is_closer(s.drop_last()[i]) by {
                assert(s.drop_last()[i] == s[i]);
            }
        }
        lemma_scan_bracket_free(s.drop_last(), st);
        assert(!is_opener(s[s.len() - 1]) && !is_closer(s[s.len() - 1]));
    }
}

/// Writing a character adds it to what is scanned, and the indentation
/// before it adds nothing.
proof fn lemma_scan_emit_char(e: Emitted, c: char, st: Option<Seq<char>>)
    requires
        bracket_free(e.pad),
    ensures
        scan(emit_char(e, c).text, st) == scan_char(scan(e.text, st), c),
        emit_char(e, c).pad == e.pad,
{
    let out = emit_char(e, c).text;
    assert(out.last() == c);
    if c != '\n' && e.fresh {
        assert(out.drop_last() =~= e.text + e.pad);
        lemma_scan_concat(e.text, e.pad, st);
        lemma_scan_bracket_free(e.pad, scan(e.text, st));
    } else {
        assert(out.drop_last() =~= e.text);
    }
}

/// Writing a text adds it to what is scanned.
proof fn lemma_scan_emit(e: Emitted, s: Seq<char>, st: Option<Seq<char>>)
    requires
        bracket_free(e.pad),
    ensures
        scan(emit(e, s).text, st) == scan(s, scan(e.text, st)),
        emit(e, s).pad == e.pad,
    decreases s.len(),
{
    if s.len() > 0 {
        lemma_scan_emit(e, s.drop_last(), st);
        lemma_scan_emit_char(emit(e, s.drop_last()), s.last(), st);
    }
}

/// Writing a text without brackets leaves the open brackets as they are.
proof fn lemma_scan_emit_free(e: Emitted, s: Seq<char>, st: Option<Seq<char>>)
    requires
        bracket_free(e.pad),
        bracket_free(s),
    ensures
        scan(emit(e, s).text, st) == scan(e.text, st),
        emit(e, s).pad == e.pad,
{
    lemma_scan_emit(e, s, st);
    lemma_scan_bracket_free(s, scan(e.text, st));
}

/// Scanning one character.
proof fn lemma_scan_one(c: char, st: Option<Seq<char>>)
    ensures
        scan(seq![c], st) == scan_char(st, c),
{
    reveal_with_fuel(scan, 2);
    assert(seq![c].drop_last() =~= Seq::<char>::empty());
}

/// The closing text of a bracket pair closes what its opening text opened.
proof fn lemma_scan_pair(b: Brackets, st: Option<Seq<char>>)
    ensures
        scan(b.closing(), scan(b.opening(), st)) == st,
{
    let o = b.opening();
    let c = b.closing();
    if b != Brackets::Bare {
        lemma_scan_one(o[0], st);
        let mid = scan(o, st);
        lemma_scan_one(c[0], mid);
        assert(o =~= seq![o[0]]);
        assert(c =~= seq![c[0]]);
        match st {
            Some(s) => {
                assert(s.push(o[0]).drop_last() =~= s);
            },
            None => {},
        }
    }
}

/// The items of a list open its bracket once, if there is any item.
proof fn lemma_scan_items(
    e: Emitted,
    b: Brackets,
    sep: Seq<char>,
    items: Seq<Seq<char>>,
    n: nat,
    st: Option<Seq<char>>,
)
    requires
        bracket_free(e.pad),
        bracket_free(sep),
        all_bracket_free(items),
        n <= items.len(),
    ensures
        scan(emit_items(e, b, sep, items, n).text, st) == if n == 0 {
            scan(e.text, st)
        } else {
            scan(b.opening(), scan(e.text, st))
        },
        emit_items(e, b, sep, items, n).pad == e.pad,
    decreases n,
{
    if n > 0 {
        lemma_scan_items(e, b, sep, items, (n - 1) as nat, st);
        let before = emit_items(e, b, sep, items, (n - 1) as nat);
        let lead = if n == 1 {
            b.opening()
        } else {
            sep
        };
        lemma_scan_emit(before, lead, st);
        assert(bracket_free(items[n - 1]));
        lemma_scan_emit_free(emit(before, lead), items[n - 1], st);
        if n > 1 {
            lemma_scan_bracket_free(sep, scan(before.text, st));
        }
    }
}

/// A list whose items hold no bracket leaves the open brackets as they
/// are.
proof fn lemma_scan_list(
    e: Emitted,
    b: Brackets,
    omit_empty: bool,
    items: Seq<Seq<char>>,
    st: Option<Seq<char>>,
)
    requires
        bracket_free(e.pad),
        all_bracket_free(items),
    ensures
        scan(emit_list(e, b, omit_empty, items).text, st) == scan(e.text, st),
        emit_list(e, b, omit_empty, items).pad == e.pad,
{
    let sep = seq![',', ' '];
    assert(bracket_free(sep));
    lemma_scan_items(e, b, sep, items, items.len(), st);
    let mid = emit_items(e, b, sep, items, items.len());
    if items.len() == 0 {
        if !omit_empty {
            lemma_scan_emit(mid, b.opening(), st);
            lemma_scan_emit(emit(mid, b.opening()), b.closing(), st);
            lemma_scan_pair(b, scan(e.text, st));
        }
    } else {
        lemma_scan_emit(mid, b.closing(), st);
        lemma_scan_pair(b, scan(e.text, st));
    }
}

/// Four more spaces keep an indentation free of brackets.
proof fn lemma_nested_pad(e: Emitted)
    requires
        bracket_free(e.pad),
    ensures
        bracket_free(nested(e).pad),
{
    assert forall|i: int| 0 <= i < nested(e).pad.len() implies !is_opener(
        #[trigger] nested(e).pad[i],
    ) && !is_closer(nested(e).pad[i]) by {
        if i < e.pad.len() {
            assert(nested(e).pad[i] == e.pad[i]);
        } else {
            assert(nested(e).pad[i] == ' ');
        }
    }
}

/// A piece whose brackets come from its blocks and lists alone leaves
/// the open brackets as they are: what it opens, it closes.
pub proof fn lemma_code_keeps_brackets(e: Emitted, c: Code, st: Option<Seq<char>>)
    requires
        bracket_free(e.pad),
        code_bracket_free(c),
    ensures
        scan(emit_code(e, c).text, st) == scan(e.text, st),
        emit_code(e, c).pad == e.pad,
    decreases c, 0nat, 0nat,
{
    match c {
        Code::Write(t) => {
            lemma_scan_emit_free(e, t@, st);
        },
        Code::Line(t) => {
            lemma_scan_emit_free(e, t@, st);
            lemma_scan_emit_char(emit(e, t@), '\n', st);
        },
        Code::Scoped(body) => {
            lemma_nested_pad(e);
            lemma_all_keep_brackets(nested(e), body@, body@.len(), st);
        },
        Code::Block(t, body) => {
            let start = if e.fresh {
                e
            } else {
                emit(e, seq![' '])
            };
            if !e.fresh {
                assert(bracket_free(seq![' ']));
                lemma_scan_emit_free(e, seq![' '], st);
            }
            lemma_scan_emit(start, seq!['{'], st);
            lemma_scan_emit_char(emit(start, seq!['{']), '\n', st);
            let opened = block_opened(e);
            let inside = scan(opened.text, st);
            lemma_scan_one('{', scan(e.text, st));
            assert(inside == scan_char(scan(e.text, st), '{'));
            lemma_nested_pad(opened);
            lemma_all_keep_brackets(nested(opened), body@, body@.len(), st);
            let inner = emit_all(nested(opened), body@, body@.len());
            let back = resumed(opened, inner.text);
            lemma_scan_emit(back, seq!['}'], st);
            lemma_scan_one('}', inside);
            lemma_scan_emit_free(emit(back, seq!['}']), t@, st);
            lemma_scan_emit_char(emit(emit(back, seq!['}']), t@), '\n', st);
            match scan(e.text, st) {
                Some(s) => {
                    assert(s.push('{').drop_last() =~= s);
                },
                None => {},
            }
        },
        Code::List(b, omit_empty, items) => {
            lemma_scan_list(e, b, omit_empty, texts(items@), st);
        },
    }
}

/// Pieces whose brackets come from their blocks and lists alone leave the
/// open brackets as they are.
pub proof fn lemma_all_keep_brackets(e: Emitted, body: Seq<Code>, n: nat, st: Option<Seq<char>>)
    requires
        bracket_free(e.pad),
        forall|i: int| 0 <= i < body.len() ==> code_bracket_free(#[trigger] body[i]),
    ensures
        scan(emit_all(e, body, n).text, st) == scan(e.text, st),
        emit_all(e, body, n).pad == e.pad,
    decreases body, 1nat, n,
{
    if n == 0 || n > body.len() {
    } else {
        lemma_all_keep_brackets(e, body, (n - 1) as nat, st);
        lemma_code_keeps_brackets(emit_all(e, body, (n - 1) as nat), body[n - 1], st);
    }
}

/// Whatever nesting of scopes, blocks and lists is written at depth zero,
/// the brackets of the output balance, as long as they come from the
/// blocks and lists alone.
pub proof fn lemma_nesting_balanced(body: Seq<Code>)
    requires
        forall|i: int| 0 <= i < body.len() ==> code_bracket_free(#[trigger] body[i]),
    ensures
        balanced(emit_all(Emitted::start(), body, body.len()).text),
{
    lemma_all_keep_brackets(Emitted::start(), body, body.len(), Some(Seq::empty()));
}

/// `s` holds no line end.
pub open spec fn one_line(s: Seq<char>) -> bool {
    forall|i: int| 0 <= i < s.len() ==> #[trigger] s[i] != '\n'
}

/// Every string of `v` holds no line end.
pub open spec fn all_one_line(v: Seq<Seq<char>>) -> bool {
    forall|i: int| 0 <= i < v.len() ==> one_line(#[trigger] v[i])
}

/// The line ends of a piece come from its lines and blocks alone: no text,
/// terminator or item in it holds one.
pub open spec fn code_one_line(c: Code) -> bool
    decreases c,
{
    match c {
        Code::Write(t) => one_line(t@),
        Code::Line(t) => one_line(t@),
        Code::Scoped(body) => forall|i: int|
            0 <= i < body@.len() ==> code_one_line(#[trigger] body@[i]),
        Code::Block(t, body) => one_line(t@) && forall|i: int|
            0 <= i < body@.len() ==> code_one_line(#[trigger] body@[i]),
        Code::List(_, _, items) => all_one_line(texts(items@)),
    }
}

/// What a piece adds to the output, and whether it leaves the output at
/// the start of a line.
pub struct Laid {
    pub text: Seq<char>,
    pub fresh: bool,
}

/// The text `t` as it goes out at nesting depth `depth`: behind four spaces
/// per level when it starts its line, as it is when the line has text
/// already. No text, no indentation.
pub open spec fn placed(depth: nat, fresh: bool, t: Seq<char>) -> Seq<char> {
    if fresh && t.len() > 0 {
        spaces(4 * depth) + t
    } else {
        t
    }
}

/// The text of a list: the items between the brackets, separated by a comma
/// and a space; a list without items is its two brackets, or nothing where
/// it omits them.
pub open spec fn list_text(b: Brackets, omit_empty: bool, items: Seq<Seq<char>>) -> Seq<char> {
    if items.len() == 0 {
        if omit_empty {
            Seq::empty()
        } else {
            b.opening() + b.closing()
        }
    } else {
        b.opening() + join(items, seq![',', ' ']) + b.closing()
    }
}

/// What a piece adds to the output when it is written at nesting depth
/// `depth`, from the start of a line or not. Text and lists go where the
/// output stands; a line ends the line; the body of a scope or block
/// starts its own lines one level deeper; the braces of a block stand at
/// the depth of the block, the opening one behind a space when the line has
/// text already.
pub open spec fn laid(c: Code, depth: nat, fresh: bool) -> Laid
    decreases c, 0nat, 0nat,
{
    match c {
        Code::Write(t) => Laid { text: placed(depth, fresh, t@), fresh: fresh && t@.len() == 0 },
        Code::Line(t) => Laid { text: placed(depth, fresh, t@).push('\n'), fresh: true },
        Code::Scoped(body) => Laid {
            text: laid_all(body@, depth + 1, true, body@.len()).text,
            fresh: fresh,
        },
        Code::Block(t, body) => Laid {
            text: placed(
                depth,
                fresh,
                if fresh {
                    seq!['{']
                } else {
                    seq![' ', '{']
                },
            ).push('\n') + laid_all(body@, depth + 1, true, body@.len()).text + (spaces(4 * depth)
                + seq!['}'] + t@).push('\n'),
            fresh: true,
        },
        Code::List(b, omit_empty, items) => {
            let l = list_text(b, omit_empty, texts(items@));
            Laid { text: placed(depth, fresh, l), fresh: fresh && l.len() == 0 }
        },
    }
}

/// What the first `n` pieces of `body` add to the output, one after the
/// other.
pub open spec fn laid_all(body: Seq<Code>, depth: nat, fresh: bool, n: nat) -> Laid
    decreases body, 1nat, n,
{
    if n == 0 || n > body.len() {
        Laid { text: Seq::empty(), fresh: fresh }
    } else {
        let before = laid_all(body, depth, fresh, (n - 1) as nat);
        let next = laid(body[n - 1], depth, before.fresh);
        Laid { text: before.text + next.text, fresh: next.fresh }
    }
}

/// Writing two texts, one after the other, is writing them as one.
proof fn lemma_emit_concat(e: Emitted, a: Seq<char>, b: Seq<char>)
    ensures
        emit(emit(e, a), b) == emit(e, a + b),
    decreases b.len(),
{
    if b.len() == 0 {
        assert(a + b =~= a);
    } else {
        assert((a + b).drop_last() =~= a + b.drop_last());
        lemma_emit_concat(e, a, b.drop_last());
    }
}

/// Texts without line end, one after the other, have no line end.
proof fn lemma_one_line_concat(a: Seq<char>, b: Seq<char>)
    requires
        one_line(a),
        one_line(b),
    ensures
        one_line(a + b),
{
    assert forall|i: int| 0 <= i < (a + b).len() implies #[trigger] (a + b)[i] != '\n' by {
        if i < a.len() {
            assert((a + b)[i] == a[i]);
        } else {
            assert((a + b)[i] == b[i - a.len()]);
        }
    }
}

/// Items without line end, joined by a separator without line end, have
/// no line end.
proof fn lemma_one_line_join(items: Seq<Seq<char>>, sep: Seq<char>)
    requires
        all_one_line(items),
        one_line(sep),
    ensures
        one_line(join(items, sep)),
    decreases items.len(),
{
    if items.len() == 1 {
        assert(one_line(items[0]));
    } else if items.len() > 1 {
        let front = items.drop_last();
        assert(all_one_line(front)) by {
            assert forall|i: int| 0 <= i < front.len() implies one_line(#[trigger] front[i]) by {
                assert(front[i] == items[i]);
            }
        }
        lemma_one_line_join(front, sep);
        assert(one_line(items[items.len() - 1]));
        lemma_one_line_concat(join(front, sep), sep);
        lemma_one_line_concat(join(front, sep) + sep, items.last());
    }
}

/// A text without line end goes out as it is, behind the indentation when
/// it starts its line.
proof fn lemma_emit_one_line(e: Emitted, t: Seq<char>)
    requires
        one_line(t),
    ensures
        emit(e, t) == if t.len() == 0 {
            e
        } else {
            Emitted {
                text: if e.fresh {
                    e.text + e.pad + t
                } else {
                    e.text + t
                },
                pad: e.pad,
                fresh: false,
            }
        },
    decreases t.len(),
{
    if t.len() > 0 {
        let t0 = t.drop_last();
        assert(one_line(t0)) by {
            assert forall|i: int| 0 <= i < t0.len() implies #[trigger] t0[i] != '\n' by {
                assert(t0[i] == t[i]);
            }
        }
        lemma_emit_one_line(e, t0);
        assert(t[t.len() - 1] != '\n');
        let r = emit(e, t);
        if e.fresh {
            assert(r.text =~= e.text + e.pad + t);
        } else {
            assert(r.text =~= e.text + t);
        }
    }
}

/// A text without line end, written at nesting depth `depth`, goes out
/// placed.
proof fn lemma_emit_placed(e: Emitted, depth: nat, t: Seq<char>)
    requires
        e.pad == spaces(4 * depth),
        one_line(t),
    ensures
        emit(e, t) == (Emitted {
            text: e.text + placed(depth, e.fresh, t),
            pad: e.pad,
            fresh: e.fresh && t.len() == 0,
        }),
{
    lemma_emit_one_line(e, t);
    if t.len() == 0 {
        assert(e.text + placed(depth, e.fresh, t) =~= e.text);
    } else if e.fresh {
        assert(e.text + e.pad + t =~= e.text + placed(depth, e.fresh, t));
    }
}

/// The first `n` items of a list go out as one text: the opening bracket
/// and the items joined by the separator.
proof fn lemma_items_as_text(e: Emitted, b: Brackets, sep: Seq<char>, items: Seq<Seq<char>>, n: nat)
    requires
        n <= items.len(),
    ensures
        emit_items(e, b, sep, items, n) == if n == 0 {
            e
        } else {
            emit(e, b.opening() + join(items.take(n as int), sep))
        },
    decreases n,
{
    if n == 1 {
        assert(emit_items(e, b, sep, items, 0) == e);
        assert(emit_items(e, b, sep, items, 1) == emit(emit(e, b.opening()), items[0]));
        assert(items.take(1).len() == 1);
        assert(join(items.take(1), sep) == items[0]);
        lemma_emit_concat(e, b.opening(), items[0]);
    } else if n > 1 {
        lemma_items_as_text(e, b, sep, items, (n - 1) as nat);
        let front = items.take(n - 1);
        assert(items.take(n as int).drop_last() =~= front);
        assert(items.take(n as int).last() == items[n - 1]);
        let head = b.opening() + join(front, sep);
        let before = emit_items(e, b, sep, items, (n - 1) as nat);
        assert(before == emit(e, head));
        assert(emit_items(e, b, sep, items, n) == emit(emit(before, sep), items[n - 1]));
        lemma_emit_concat(e, head, sep);
        lemma_emit_concat(e, head + sep, items[n - 1]);
        assert(join(items.take(n as int), sep) == join(front, sep) + sep + items[n - 1]);
        assert(head + sep + items[n - 1] =~= b.opening() + join(items.take(n as int), sep));
    }
}

/// A list goes out as its text.
proof fn lemma_list_as_text(e: Emitted, b: Brackets, omit_empty: bool, items: Seq<Seq<char>>)
    requires
        all_one_line(items),
    ensures
        emit_list(e, b, omit_empty, items) == emit(e, list_text(b, omit_empty, items)),
        one_line(list_text(b, omit_empty, items)),
{
    let sep = seq![',', ' '];
    assert(one_line(sep));
    assert(one_line(b.opening()));
    assert(one_line(b.closing()));
    lemma_items_as_text(e, b, sep, items, items.len());
    assert(items.take(items.len() as int) =~= items);
    if items.len() == 0 {
        if !omit_empty {
            lemma_emit_concat(e, b.opening(), b.closing());
            lemma_one_line_concat(b.opening(), b.closing());
        }
    } else {
        lemma_one_line_join(items, sep);
        lemma_one_line_concat(b.opening(), join(items, sep));
        lemma_one_line_concat(b.opening() + join(items, sep), b.closing());
        lemma_emit_concat(e, b.opening() + join(items, sep), b.closing());
    }
}

/// One level deeper, the indentation is four spaces longer.
proof fn lemma_nested_depth(e: Emitted, depth: nat)
    requires
        e.pad == spaces(4 * depth),
    ensures
        nested(e).pad == spaces(4 * (depth + 1)),
        nested(e).fresh,
        nested(e).text == e.text,
{
    assert(e.pad + spaces(4) =~= spaces(4 * (depth + 1)));
}

/// A piece whose line ends come from its lines and blocks alone, written
/// at nesting depth `depth`, adds to the output what `laid` says: every
/// text that starts a line stands behind four spaces for every level of
/// its nesting, and behind nothing else.
pub proof fn lemma_code_layout(e: Emitted, c: Code, depth: nat)
    requires
        e.pad == spaces(4 * depth),
        code_one_line(c),
    ensures
        emit_code(e, c) == (Emitted {
            text: e.text + laid(c, depth, e.fresh).text,
            pad: e.pad,
            fresh: laid(c, depth, e.fresh).fresh,
        }),
    decreases c, 0nat, 0nat,
{
    match c {
        Code::Write(t) => {
            lemma_emit_placed(e, depth, t@);
        },
        Code::Line(t) => {
            lemma_emit_placed(e, depth, t@);
            assert(emit_code(e, c).text =~= e.text + laid(c, depth, e.fresh).text);
        },
        Code::Scoped(body) => {
            lemma_nested_depth(e, depth);
            lemma_all_layout(nested(e), body@, depth + 1, body@.len());
        },
        Code::Block(t, body) => {
            let brace = if e.fresh {
                seq!['{']
            } else {
                seq![' ', '{']
            };
            let start = if e.fresh {
                e
            } else {
                emit(e, seq![' '])
            };
            if !e.fresh {
                lemma_emit_concat(e, seq![' '], seq!['{']);
                assert(seq![' '] + seq!['{'] =~= brace);
            }
            assert(emit(start, seq!['{']) == emit(e, brace));
            assert(one_line(brace));
            lemma_emit_placed(e, depth, brace);
            let opened = block_opened(e);
            assert(opened.text =~= e.text + placed(depth, e.fresh, brace).push('\n'));
            lemma_nested_depth(opened, depth);
            lemma_all_layout(nested(opened), body@, depth + 1, body@.len());
            let inner = emit_all(nested(opened), body@, body@.len());
            let back = resumed(opened, inner.text);
            assert(one_line(seq!['}']));
            lemma_emit_one_line(back, seq!['}']);
            lemma_emit_one_line(emit(back, seq!['}']), t@);
            let closed = block_closed(opened, inner, t@);
            assert(closed.text =~= e.text + laid(c, depth, e.fresh).text);
        },
        Code::List(b, omit_empty, items) => {
            lemma_list_as_text(e, b, omit_empty, texts(items@));
            lemma_emit_placed(e, depth, list_text(b, omit_empty, texts(items@)));
        },
    }
}

/// Pieces whose line ends come from their lines and blocks alone, written
/// at nesting depth `depth`, add to the output what `laid_all` says.
pub proof fn lemma_all_layout(e: Emitted, body: Seq<Code>, depth: nat, n: nat)
    requires
        e.pad == spaces(4 * depth),
        forall|i: int| 0 <= i < body.len() ==> code_one_line(#[trigger] body[i]),
    ensures
        emit_all(e, body, n) == (Emitted {
            text: e.text + laid_all(body, depth, e.fresh, n).text,
            pad: e.pad,
            fresh: laid_all(body, depth, e.fresh, n).fresh,
        }),
    decreases body, 1nat, n,
{
    if n == 0 || n > body.len() {
        assert(e.text + laid_all(body, depth, e.fresh, n).text =~= e.text);
    } else {
        lemma_all_layout(e, body, depth, (n - 1) as nat);
        let before = emit_all(e, body, (n - 1) as nat);
        lemma_code_layout(before, body[n - 1], depth);
        assert(before.text + laid(body[n - 1], depth, before.fresh).text =~= e.text + laid_all(
            body,
            depth,
            e.fresh,
            n,
        ).text);
    }
}

/// Whatever nesting of scopes, blocks and lists is written at depth zero,
/// the output is what `laid_all` says at depth zero: every line of it that
/// has text is indented by four spaces for every level of nesting of the
/// piece that starts it.
pub proof fn lemma_nesting_layout(body: Seq<Code>)
    requires
        forall|i: int| 0 <= i < body.len() ==> code_one_line(#[trigger] body[i]),
    ensures
        emit_all(Emitted::start(), body, body.len()).text == laid_all(
            body,
            0,
            true,
            body.len(),
        ).text,
{
    assert(Emitted::start().pad =~= spaces(0));
    lemma_all_layout(Emitted::start(), body, 0, body.len());
    assert(Seq::<char>::empty() + laid_all(body, 0, true, body.len()).text =~= laid_all(
        body,
        0,
        true,
        body.len(),
    ).text);
}

} // verus!
