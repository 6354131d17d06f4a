//! Strings as sequences of characters: splitting, joining and replacing.

use vstd::prelude::*;
use vstd::string::*;

verus! {

/// Appends one character to a string (`String::push`).
#[verifier::external_body]
pub(crate) fn push_char(s: &mut String, c: char)
    ensures
        final(s)@ == old(s)@.push(c),
{
    s.push(c)
}

/// The character sequences that the strings of `v` hold.
pub open spec fn texts(v: Seq<String>) -> Seq<Seq<char>> {
    Seq::new(v.len(), |i: int| v[i]@)
}

/// The pieces of `s` between occurrences of `sep`. There is always one piece
/// more than there are separators: the empty text has one empty piece.
pub open spec fn split_on(s: Seq<char>, sep: char) -> Seq<Seq<char>>
    decreases s.len(),
{
    if s.len() == 0 {
        seq![Seq::empty()]
    } else {
        let before = split_on(s.drop_last(), sep);
        if s.last() == sep {
            before.push(Seq::empty())
        } else {
            before.drop_last().push(before.last().push(s.last()))
        }
    }
}

/// The `parts` one after the other, with `sep` between neighbours.
pub open spec fn join(parts: Seq<Seq<char>>, sep: Seq<char>) -> Seq<char>
    decreases parts.len(),
{
    if parts.len() == 0 {
        Seq::empty()
    } else if parts.len() == 1 {
        parts[0]
    } else {
        join(parts.drop_last(), sep) + sep + parts.last()
    }
}

/// `s` with every `from` turned into `to`.
pub open spec fn replace_char(s: Seq<char>, from: char, to: char) -> Seq<char> {
    Seq::new(s.len(), |i: int| if s[i] == from { to } else { s[i] })
}

/// Splits `s` at every `sep`.
pub fn split(s: &str, sep: char) -> (parts: Vec<String>)
    ensures
        texts(parts@) == split_on(s@, sep),
{
    let mut parts: Vec<String> = Vec::new();
    let mut cur = String::new();
    for c in it: s.chars()
        invariant
            it.seq() == s@,
            texts(parts@).push(cur@) == split_on(s@.take(it.index() as int), sep),
    {
        let ghost before = s@.take(it.index() as int);
        assert(s@.take(it.index() + 1).drop_last() == before);
        assert(texts(parts@).push(cur@).drop_last() == texts(parts@));
        if c == sep {
            let ghost done = parts@;
            parts.push(cur);
            cur = String::new();
            assert(texts(parts@) == texts(done).push(parts@.last()@));
        } else {
            push_char(&mut cur, c);
        }
    }
    assert(s@.take(s@.len() as int) == s@);
    let ghost done = parts@;
    parts.push(cur);
    assert(texts(parts@) == texts(done).push(cur@));
    parts
}

/// Joins `parts` with `sep` between neighbours.
pub fn join_with(parts: &Vec<String>, sep: &str) -> (r: String)
    ensures
        r@ == join(texts(parts@), sep@),
{
    let mut r = String::new();
    let mut i: usize = 0;
    while i < parts.len()
        invariant
            i <= parts.len(),
            r@ == join(texts(parts@).take(i as int), sep@),
        decreases parts.len() - i,
    {
        let ghost upto = texts(parts@).take(i + 1);
        assert(upto.drop_last() == texts(parts@).take(i as int));
        assert(upto.last() == parts@[i as int]@);
        if i > 0 {
            r.append(sep);
        } else {
            assert(r@ + parts@[i as int]@ == parts@[i as int]@);
        }
        r.append(parts[i].as_str());
        i += 1;
    }
    assert(texts(parts@).take(parts@.len() as int) == texts(parts@));
    r
}

/// Copies `s`, turning every `from` into `to`.
pub fn replace(s: &str, from: char, to: char) -> (r: String)
    ensures
        r@ == replace_char(s@, from, to),
{
    let mut r = String::new();
    for c in it: s.chars()
        invariant
            it.seq() == s@,
            r@ == replace_char(s@.take(it.index() as int), from, to),
    {
        assert(s@.take(it.index() + 1) == s@.take(it.index() as int).push(c));
        if c == from {
            push_char(&mut r, to);
        } else {
            push_char(&mut r, c);
        }
    }
    assert(s@.take(s@.len() as int) == s@);
    r
}

} // verus!
