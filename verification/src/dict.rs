//! Ordered dictionaries as sequences: every value carries its name, a name
//! occurs once, and values keep the order in which their names came.

use vstd::prelude::*;

verus! {

/// Whether some value of `s` is named `k`.
pub open spec fn has_name<T>(s: Seq<T>, name: spec_fn(T) -> Seq<char>, k: Seq<char>) -> bool {
    exists|i: int| 0 <= i < s.len() && #[trigger] name(s[i]) == k
}

/// The place of the value named `k`, where there is one.
pub open spec fn slot<T>(s: Seq<T>, name: spec_fn(T) -> Seq<char>, k: Seq<char>) -> int {
    choose|i: int| 0 <= i < s.len() && #[trigger] name(s[i]) == k
}

/// No two values of `s` have the same name.
pub open spec fn distinct<T>(s: Seq<T>, name: spec_fn(T) -> Seq<char>) -> bool {
    forall|i: int, j: int| 0 <= i < j < s.len() ==> #[trigger] name(s[i]) != #[trigger] name(s[j])
}

/// The value named `k`, if there is one.
pub open spec fn find<T>(s: Seq<T>, name: spec_fn(T) -> Seq<char>, k: Seq<char>) -> Option<T> {
    if has_name(s, name, k) {
        Some(s[slot(s, name, k)])
    } else {
        None
    }
}

/// `x` put into `s`: in the place of the value of its name, or last where no
/// value has its name.
pub open spec fn put<T>(s: Seq<T>, name: spec_fn(T) -> Seq<char>, x: T) -> Seq<T> {
    if has_name(s, name, name(x)) {
        s.update(slot(s, name, name(x)), x)
    } else {
        s.push(x)
    }
}

/// The values of `b` put into `a`, first to last.
pub open spec fn put_all<T>(a: Seq<T>, name: spec_fn(T) -> Seq<char>, b: Seq<T>) -> Seq<T>
    decreases b.len(),
{
    if b.len() == 0 {
        a
    } else {
        put(put_all(a, name, b.drop_last()), name, b.last())
    }
}

/// In a dictionary a name leads to the one place that holds it.
pub proof fn lemma_slot<T>(s: Seq<T>, name: spec_fn(T) -> Seq<char>, i: int)
    requires
        distinct(s, name),
        0 <= i < s.len(),
    ensures
        has_name(s, name, name(s[i])),
        slot(s, name, name(s[i])) == i,
{
    let k = name(s[i]);
    assert(name(s[i]) == k);
    let j = slot(s, name, k);
    assert(0 <= j < s.len() && name(s[j]) == k);
    if j < i {
        assert(name(s[j]) != name(s[i]));
    } else if i < j {
        assert(name(s[i]) != name(s[j]));
    }
}

/// Replacing a value by one of the same name changes no name.
pub proof fn lemma_update_same_name<T>(s: Seq<T>, name: spec_fn(T) -> Seq<char>, i: int, x: T)
    requires
        0 <= i < s.len(),
        name(x) == name(s[i]),
    ensures
        distinct(s, name) ==> distinct(s.update(i, x), name),
        forall|k: Seq<char>| has_name(s.update(i, x), name, k) == has_name(s, name, k),
        forall|k: Seq<char>|
            distinct(s, name) && has_name(s, name, k) ==> slot(s.update(i, x), name, k) == slot(
                s,
                name,
                k,
            ),
{
    let t = s.update(i, x);
    assert forall|j: int| 0 <= j < s.len() implies #[trigger] name(t[j]) == name(s[j]) by {}
    if distinct(s, name) {
        assert forall|a: int, b: int| 0 <= a < b < t.len() implies #[trigger] name(t[a])
            != #[trigger] name(t[b]) by {
            assert(name(s[a]) != name(s[b]));
        }
    }
    assert forall|k: Seq<char>| has_name(t, name, k) == has_name(s, name, k) by {
        if has_name(s, name, k) {
            let j = slot(s, name, k);
            assert(name(t[j]) == k);
        }
        if has_name(t, name, k) {
            let j = slot(t, name, k);
            assert(name(s[j]) == k);
        }
    }
    assert forall|k: Seq<char>| distinct(s, name) && has_name(s, name, k) implies slot(t, name, k)
        == slot(s, name, k) by {
        let j = slot(s, name, k);
        assert(name(t[j]) == k);
        lemma_slot(t, name, j);
    }
}

/// Appending a value with a new name adds that name and moves no other.
pub proof fn lemma_push_new_name<T>(s: Seq<T>, name: spec_fn(T) -> Seq<char>, x: T)
    requires
        !has_name(s, name, name(x)),
    ensures
        distinct(s, name) ==> distinct(s.push(x), name),
        forall|k: Seq<char>| has_name(s.push(x), name, k) == (has_name(s, name, k) || k == name(x)),
        forall|k: Seq<char>|
            distinct(s, name) && has_name(s, name, k) ==> slot(s.push(x), name, k) == slot(s, name, k),
        distinct(s, name) ==> slot(s.push(x), name, name(x)) == s.len(),
{
    let t = s.push(x);
    assert forall|j: int| 0 <= j < s.len() implies #[trigger] name(t[j]) == name(s[j]) by {}
    assert(name(t[s.len() as int]) == name(x));
    if distinct(s, name) {
        assert forall|a: int, b: int| 0 <= a < b < t.len() implies #[trigger] name(t[a])
            != #[trigger] name(t[b]) by {
            if b < s.len() {
                assert(name(s[a]) != name(s[b]));
            } else {
                assert(name(s[a]) == name(t[a]));
            }
        }
        lemma_slot(t, name, s.len() as int);
    }
    assert forall|k: Seq<char>| has_name(t, name, k) == (has_name(s, name, k) || k == name(x)) by {
        if has_name(s, name, k) {
            let j = slot(s, name, k);
            assert(name(t[j]) == k);
        }
        if has_name(t, name, k) && k != name(x) {
            let j = slot(t, name, k);
            assert(name(s[j]) == k);
        }
    }
    assert forall|k: Seq<char>| distinct(s, name) && has_name(s, name, k) implies slot(t, name, k)
        == slot(s, name, k) by {
        let j = slot(s, name, k);
        assert(name(t[j]) == k);
        lemma_slot(t, name, j);
    }
}

/// Putting keeps a dictionary a dictionary, and adds nothing but the name
/// that came.
pub proof fn lemma_put<T>(s: Seq<T>, name: spec_fn(T) -> Seq<char>, x: T)
    ensures
        distinct(s, name) ==> distinct(put(s, name, x), name),
        forall|k: Seq<char>| has_name(put(s, name, x), name, k) == (has_name(s, name, k) || k == name(x)),
        s.len() <= put(s, name, x).len(),
{
    if has_name(s, name, name(x)) {
        lemma_update_same_name(s, name, slot(s, name, name(x)), x);
    } else {
        lemma_push_new_name(s, name, x);
    }
}

/// Putting many keeps a dictionary a dictionary, and adds nothing but the
/// names that came.
pub proof fn lemma_put_all<T>(a: Seq<T>, name: spec_fn(T) -> Seq<char>, b: Seq<T>)
    ensures
        distinct(a, name) ==> distinct(put_all(a, name, b), name),
        forall|k: Seq<char>|
            has_name(put_all(a, name, b), name, k) == (has_name(a, name, k) || has_name(b, name, k)),
        a.len() <= put_all(a, name, b).len(),
    decreases b.len(),
{
    if b.len() > 0 {
        let b0 = b.drop_last();
        lemma_put_all(a, name, b0);
        lemma_put(put_all(a, name, b0), name, b.last());
        assert forall|k: Seq<char>| has_name(b, name, k) == (has_name(b0, name, k) || k == name(b.last())) by {
            if has_name(b0, name, k) {
                let j = slot(b0, name, k);
                assert(name(b[j]) == k);
            }
            if k == name(b.last()) {
                assert(name(b[b.len() - 1]) == k);
            }
            if has_name(b, name, k) && k != name(b.last()) {
                let j = slot(b, name, k);
                assert(name(b0[j]) == k);
            }
        }
    }
}

/// Of two values of one name put one after the other, the second stays.
pub proof fn lemma_put_twice<T>(s: Seq<T>, name: spec_fn(T) -> Seq<char>, x: T, y: T)
    requires
        distinct(s, name),
        name(x) == name(y),
    ensures
        put(put(s, name, x), name, y) == put(s, name, y),
{
    if has_name(s, name, name(x)) {
        let i = slot(s, name, name(x));
        lemma_update_same_name(s, name, i, x);
        assert(s.update(i, x).update(i, y) =~= s.update(i, y));
    } else {
        lemma_push_new_name(s, name, x);
        assert(s.push(x).update(s.len() as int, y) =~= s.push(y));
    }
}

/// Putting a value whose name is there already, and putting a value of
/// another name, can be done in either order.
pub proof fn lemma_put_commutes<T>(s: Seq<T>, name: spec_fn(T) -> Seq<char>, x: T, y: T)
    requires
        distinct(s, name),
        has_name(s, name, name(x)),
        name(x) != name(y),
    ensures
        put(put(s, name, x), name, y) == put(put(s, name, y), name, x),
{
    let i = slot(s, name, name(x));
    lemma_update_same_name(s, name, i, x);
    if has_name(s, name, name(y)) {
        let k = slot(s, name, name(y));
        lemma_update_same_name(s, name, k, y);
        assert(s.update(i, x).update(k, y) =~= s.update(k, y).update(i, x));
    } else {
        lemma_push_new_name(s, name, y);
        assert(s.update(i, x).push(y) =~= s.push(y).update(i, x));
    }
}

/// Putting `x` after all of `n` is putting all of `n` after `x` has taken
/// the place of the value of its name in `n`.
proof fn lemma_put_all_update<T>(a: Seq<T>, name: spec_fn(T) -> Seq<char>, n: Seq<T>, j: int, x: T)
    requires
        distinct(a, name),
        distinct(n, name),
        0 <= j < n.len(),
        name(n[j]) == name(x),
    ensures
        put_all(a, name, n.update(j, x)) == put(put_all(a, name, n), name, x),
    decreases n.len(),
{
    let n0 = n.drop_last();
    let last = n.last();
    let m0 = put_all(a, name, n0);
    lemma_put_all(a, name, n0);
    assert(distinct(n0, name)) by {
        assert forall|p: int, q: int| 0 <= p < q < n0.len() implies #[trigger] name(n0[p])
            != #[trigger] name(n0[q]) by {
            assert(name(n[p]) != name(n[q]));
        }
    }
    if j == n.len() - 1 {
        assert(n.update(j, x).drop_last() =~= n0);
        assert(n.update(j, x).last() == x);
        lemma_put_twice(m0, name, last, x);
    } else {
        assert(n.update(j, x).drop_last() =~= n0.update(j, x));
        assert(n.update(j, x).last() == last);
        lemma_put_all_update(a, name, n0, j, x);
        assert(name(n0[j]) == name(x));
        assert(has_name(n0, name, name(x)));
        assert(name(n[j]) != name(n[n.len() - 1]));
        lemma_put_commutes(m0, name, x, last);
    }
}

/// Putting `x` after all of `n` is putting all of `n` with `x` put into it.
pub proof fn lemma_put_all_put<T>(a: Seq<T>, name: spec_fn(T) -> Seq<char>, n: Seq<T>, x: T)
    requires
        distinct(a, name),
        distinct(n, name),
    ensures
        put_all(a, name, put(n, name, x)) == put(put_all(a, name, n), name, x),
{
    if has_name(n, name, name(x)) {
        lemma_put_all_update(a, name, n, slot(n, name, name(x)), x);
    } else {
        assert(n.push(x).drop_last() =~= n);
    }
}

/// Putting is associative: `c` put into what `b` put into `a` gave is what
/// `b` with `c` put into it gives when put into `a`.
pub proof fn lemma_put_all_associative<T>(
    a: Seq<T>,
    name: spec_fn(T) -> Seq<char>,
    b: Seq<T>,
    c: Seq<T>,
)
    requires
        distinct(a, name),
        distinct(b, name),
    ensures
        put_all(put_all(a, name, b), name, c) == put_all(a, name, put_all(b, name, c)),
    decreases c.len(),
{
    if c.len() > 0 {
        let c0 = c.drop_last();
        lemma_put_all_associative(a, name, b, c0);
        lemma_put_all(b, name, c0);
        lemma_put_all_put(a, name, put_all(b, name, c0), c.last());
    }
}

/// After a put, the name that came leads to the value that came, and every
/// other name to what it led to before.
pub proof fn lemma_put_finds<T>(s: Seq<T>, name: spec_fn(T) -> Seq<char>, x: T, k: Seq<char>)
    requires
        distinct(s, name),
    ensures
        find(put(s, name, x), name, k) == if k == name(x) {
            Some(x)
        } else {
            find(s, name, k)
        },
{
    let r = put(s, name, x);
    lemma_put(s, name, x);
    if has_name(s, name, name(x)) {
        let i = slot(s, name, name(x));
        lemma_update_same_name(s, name, i, x);
        lemma_slot(r, name, i);
        if k != name(x) && has_name(s, name, k) {
            assert(name(s[slot(s, name, k)]) == k);
        }
    } else {
        lemma_push_new_name(s, name, x);
        if k != name(x) && has_name(s, name, k) {
            assert(name(s[slot(s, name, k)]) == k);
        }
    }
}

/// In a dictionary with one more value, the last name leads to the last
/// value and every other name to what it led to in the front.
pub proof fn lemma_find_last<T>(s: Seq<T>, name: spec_fn(T) -> Seq<char>, k: Seq<char>)
    requires
        distinct(s, name),
        s.len() > 0,
    ensures
        distinct(s.drop_last(), name),
        find(s, name, k) == if k == name(s.last()) {
            Some(s.last())
        } else {
            find(s.drop_last(), name, k)
        },
{
    let s0 = s.drop_last();
    assert forall|p: int, q: int| 0 <= p < q < s0.len() implies #[trigger] name(s0[p])
        != #[trigger] name(s0[q]) by {
        assert(name(s[p]) != name(s[q]));
    }
    if has_name(s0, name, name(s.last())) {
        let j = slot(s0, name, name(s.last()));
        assert(name(s[j]) != name(s[s.len() - 1]));
    }
    assert(s0.push(s.last()) =~= s);
    lemma_push_new_name(s0, name, s.last());
    lemma_slot(s, name, s.len() - 1);
}

/// After putting all of `b` into `a`, a name leads to the value of `b`
/// where `b` has the name, and to the value of `a` where it has not.
pub proof fn lemma_put_all_finds<T>(
    a: Seq<T>,
    name: spec_fn(T) -> Seq<char>,
    b: Seq<T>,
    k: Seq<char>,
)
    requires
        distinct(a, name),
        distinct(b, name),
    ensures
        find(put_all(a, name, b), name, k) == if find(b, name, k) is Some {
            find(b, name, k)
        } else {
            find(a, name, k)
        },
    decreases b.len(),
{
    if b.len() > 0 {
        lemma_find_last(b, name, k);
        lemma_put_all_finds(a, name, b.drop_last(), k);
        lemma_put_all(a, name, b.drop_last());
        lemma_put_finds(put_all(a, name, b.drop_last()), name, b.last(), k);
    }
}

} // verus!
