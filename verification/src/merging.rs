//! What holds of merging: it keeps forests well formed, and it is
//! associative.

use crate::ast::{Module, NamespaceDecl};
use crate::dict::{
    distinct, find, has_name, lemma_find_last, lemma_push_new_name, lemma_put_all,
    lemma_put_all_associative, lemma_put_all_finds, lemma_slot, lemma_update_same_name, put,
    put_all, slot,
};
use crate::naming::FunView;
use crate::forest::{
    absorb, built, built_children, forest_of, forest_wf, fun_name, funs_of, inner_prefix,
    merge_children, merge_ns, ns_name, upsert_child, NamespaceView,
};
use vstd::prelude::*;

verus! {

/// The front of a well-formed forest is a well-formed forest.
proof fn lemma_front_wf(f: Seq<NamespaceView>)
    requires
        forest_wf(f),
        f.len() > 0,
    ensures
        forest_wf(f.drop_last()),
        f.last().wf(),
{
    let g = f.drop_last();
    assert forall|p: int, q: int| 0 <= p < q < g.len() implies #[trigger] ns_name()(g[p])
        != #[trigger] ns_name()(g[q]) by {
        assert(ns_name()(f[p]) != ns_name()(f[q]));
    }
    assert forall|i: int| 0 <= i < g.len() implies (#[trigger] g[i]).wf() by {
        assert(f[i].wf());
    }
    assert(f[f.len() - 1].wf());
}

/// Merging two well-formed namespaces gives a well-formed namespace under
/// the name of the first.
pub proof fn lemma_merge_ns_wf(a: NamespaceView, b: NamespaceView)
    requires
        a.wf(),
        b.wf(),
    ensures
        merge_ns(a, b).wf(),
        merge_ns(a, b).decl == a.decl,
    decreases b, 0nat,
{
    assert(forest_wf(a.children));
    assert(forest_wf(b.children));
    lemma_merge_children_wf(a.children, b.children);
    lemma_put_all(a.funs, fun_name(), b.funs);
}

/// Merging a well-formed namespace into a well-formed forest gives a
/// well-formed forest that has the names of the forest and the name that
/// came, and no other.
pub proof fn lemma_upsert_wf(m: Seq<NamespaceView>, c: NamespaceView)
    requires
        forest_wf(m),
        c.wf(),
    ensures
        forest_wf(upsert_child(m, c)),
        forall|k: Seq<char>|
            has_name(upsert_child(m, c), ns_name(), k) == (has_name(m, ns_name(), k) || k
                == c.name()),
    decreases c, 1nat,
{
    let r = upsert_child(m, c);
    if has_name(m, ns_name(), c.name()) {
        let i = slot(m, ns_name(), c.name());
        assert(m[i].wf());
        lemma_merge_ns_wf(m[i], c);
        lemma_update_same_name(m, ns_name(), i, merge_ns(m[i], c));
        assert forall|j: int| 0 <= j < r.len() implies (#[trigger] r[j]).wf() by {
            if j != i {
                assert(m[j].wf());
            }
        }
    } else {
        lemma_push_new_name(m, ns_name(), c);
        assert forall|j: int| 0 <= j < r.len() implies (#[trigger] r[j]).wf() by {
            if j < m.len() {
                assert(m[j].wf());
            }
        }
    }
}

/// Merging a well-formed forest into another gives a well-formed forest
/// that has the names of both, and no other.
pub proof fn lemma_merge_children_wf(a: Seq<NamespaceView>, b: Seq<NamespaceView>)
    requires
        forest_wf(a),
        forest_wf(b),
    ensures
        forest_wf(merge_children(a, b)),
        forall|k: Seq<char>|
            has_name(merge_children(a, b), ns_name(), k) == (has_name(a, ns_name(), k) || has_name(
                b,
                ns_name(),
                k,
            )),
    decreases b, 2nat,
{
    if b.len() > 0 {
        let b0 = b.drop_last();
        lemma_front_wf(b);
        lemma_merge_children_wf(a, b0);
        lemma_upsert_wf(merge_children(a, b0), b.last());
        assert forall|k: Seq<char>| has_name(b, ns_name(), k) == (has_name(b0, ns_name(), k) || k
            == b.last().name()) by {
            if has_name(b0, ns_name(), k) {
                let j = slot(b0, ns_name(), k);
                assert(ns_name()(b[j]) == k);
            }
            if k == b.last().name() {
                assert(ns_name()(b[b.len() - 1]) == k);
            }
            if has_name(b, ns_name(), k) && k != b.last().name() {
                let j = slot(b, ns_name(), k);
                assert(ns_name()(b0[j]) == k);
            }
        }
    }
}

/// Merging two namespaces of one name into a forest, one after the other,
/// is merging the second into the first and the result into the forest.
proof fn lemma_upsert_twice(x: Seq<NamespaceView>, n: NamespaceView, c: NamespaceView)
    requires
        forest_wf(x),
        n.wf(),
        c.wf(),
        n.name() == c.name(),
    ensures
        upsert_child(upsert_child(x, n), c) == upsert_child(x, merge_ns(n, c)),
    decreases c, 1nat,
{
    lemma_merge_ns_wf(n, c);
    if has_name(x, ns_name(), n.name()) {
        let i = slot(x, ns_name(), n.name());
        assert(x[i].wf());
        lemma_merge_ns_wf(x[i], n);
        lemma_update_same_name(x, ns_name(), i, merge_ns(x[i], n));
        lemma_merge_ns_associative(x[i], n, c);
        assert(x.update(i, merge_ns(x[i], n)).update(i, merge_ns(merge_ns(x[i], n), c))
            =~= x.update(i, merge_ns(x[i], merge_ns(n, c))));
    } else {
        lemma_push_new_name(x, ns_name(), n);
        assert(x.push(n).update(x.len() as int, merge_ns(n, c)) =~= x.push(merge_ns(n, c)));
    }
}

/// Merging a namespace whose name is in the forest already, and merging
/// one of another name, can be done in either order.
proof fn lemma_upsert_commutes(x: Seq<NamespaceView>, c: NamespaceView, n: NamespaceView)
    requires
        forest_wf(x),
        has_name(x, ns_name(), c.name()),
        c.name() != n.name(),
        c.wf(),
        n.wf(),
    ensures
        upsert_child(upsert_child(x, c), n) == upsert_child(upsert_child(x, n), c),
{
    let i = slot(x, ns_name(), c.name());
    assert(x[i].wf());
    lemma_merge_ns_wf(x[i], c);
    let mc = merge_ns(x[i], c);
    lemma_update_same_name(x, ns_name(), i, mc);
    if has_name(x, ns_name(), n.name()) {
        let k = slot(x, ns_name(), n.name());
        assert(x[k].wf());
        lemma_merge_ns_wf(x[k], n);
        let mn = merge_ns(x[k], n);
        lemma_update_same_name(x, ns_name(), k, mn);
        assert(x.update(i, mc).update(k, mn) =~= x.update(k, mn).update(i, mc));
    } else {
        lemma_push_new_name(x, ns_name(), n);
        assert(x.update(i, mc).push(n) =~= x.push(n).update(i, mc));
    }
}

/// Merging `c` after all of `n` is merging all of `n` after `c` has been
/// merged into the namespace of its name in `n`.
proof fn lemma_merge_children_update(
    a: Seq<NamespaceView>,
    n: Seq<NamespaceView>,
    j: int,
    c: NamespaceView,
)
    requires
        forest_wf(a),
        forest_wf(n),
        c.wf(),
        0 <= j < n.len(),
        n[j].name() == c.name(),
    ensures
        merge_children(a, n.update(j, merge_ns(n[j], c))) == upsert_child(merge_children(a, n), c),
    decreases c, 2nat, n.len(),
{
    let n0 = n.drop_last();
    let last = n.last();
    let m0 = merge_children(a, n0);
    lemma_front_wf(n);
    lemma_merge_children_wf(a, n0);
    let y = merge_ns(n[j], c);
    if j == n.len() - 1 {
        assert(n.update(j, y).drop_last() =~= n0);
        assert(n.update(j, y).last() == y);
        lemma_upsert_twice(m0, last, c);
    } else {
        assert(n.update(j, y).drop_last() =~= n0.update(j, y));
        assert(n.update(j, y).last() == last);
        lemma_merge_children_update(a, n0, j, c);
        assert(ns_name()(n0[j]) == c.name());
        assert(has_name(n0, ns_name(), c.name()));
        assert(ns_name()(n[j]) != ns_name()(n[n.len() - 1]));
        lemma_upsert_commutes(m0, c, last);
    }
}

/// Merging `c` after all of `n` is merging all of `n` with `c` merged into
/// it.
proof fn lemma_merge_children_upsert(a: Seq<NamespaceView>, n: Seq<NamespaceView>, c: NamespaceView)
    requires
        forest_wf(a),
        forest_wf(n),
        c.wf(),
    ensures
        merge_children(a, upsert_child(n, c)) == upsert_child(merge_children(a, n), c),
    decreases c, 3nat,
{
    if has_name(n, ns_name(), c.name()) {
        lemma_merge_children_update(a, n, slot(n, ns_name(), c.name()), c);
    } else {
        assert(n.push(c).drop_last() =~= n);
    }
}

/// Merging forests is associative.
pub proof fn lemma_merge_children_associative(
    a: Seq<NamespaceView>,
    b: Seq<NamespaceView>,
    c: Seq<NamespaceView>,
)
    requires
        forest_wf(a),
        forest_wf(b),
        forest_wf(c),
    ensures
        merge_children(merge_children(a, b), c) == merge_children(a, merge_children(b, c)),
    decreases c, 4nat,
{
    if c.len() > 0 {
        let c0 = c.drop_last();
        lemma_front_wf(c);
        lemma_merge_children_associative(a, b, c0);
        lemma_merge_children_wf(b, c0);
        lemma_merge_children_upsert(a, merge_children(b, c0), c.last());
    }
}

/// Merging namespaces is associative.
pub proof fn lemma_merge_ns_associative(a: NamespaceView, b: NamespaceView, c: NamespaceView)
    requires
        a.wf(),
        b.wf(),
        c.wf(),
    ensures
        merge_ns(merge_ns(a, b), c) == merge_ns(a, merge_ns(b, c)),
    decreases c, 0nat,
{
    assert(forest_wf(a.children));
    assert(forest_wf(b.children));
    assert(forest_wf(c.children));
    lemma_merge_children_associative(a.children, b.children, c.children);
    lemma_put_all_associative(a.funs, fun_name(), b.funs, c.funs);
}

/// Putting a well-formed namespace into a well-formed forest gives a
/// well-formed forest.
proof fn lemma_put_wf(m: Seq<NamespaceView>, c: NamespaceView)
    requires
        forest_wf(m),
        c.wf(),
    ensures
        forest_wf(put(m, ns_name(), c)),
{
    let r = put(m, ns_name(), c);
    crate::dict::lemma_put(m, ns_name(), c);
    assert forall|j: int| 0 <= j < r.len() implies (#[trigger] r[j]).wf() by {
        if has_name(m, ns_name(), ns_name()(c)) {
            if j != slot(m, ns_name(), ns_name()(c)) {
                assert(m[j].wf());
            }
        } else if j < m.len() {
            assert(m[j].wf());
        }
    }
}

/// What a declaration builds is well formed.
pub proof fn lemma_built_wf(prefix: Seq<char>, d: NamespaceDecl)
    ensures
        built(prefix, d).wf(),
    decreases d, 0nat,
{
    let inner = inner_prefix(prefix, d.name.text@);
    lemma_built_children_wf(Seq::empty(), inner, d.namespaces@, d.namespaces@.len());
    lemma_put_all(Seq::empty(), fun_name(), funs_of(inner, d.functions@));
}

/// Building nested namespaces into a well-formed forest keeps it well
/// formed.
proof fn lemma_built_children_wf(
    into: Seq<NamespaceView>,
    prefix: Seq<char>,
    ds: Seq<NamespaceDecl>,
    n: nat,
)
    requires
        forest_wf(into),
    ensures
        forest_wf(built_children(into, prefix, ds, n)),
    decreases ds, 1nat, n,
{
    if n == 0 || n > ds.len() {
    } else {
        lemma_built_children_wf(into, prefix, ds, (n - 1) as nat);
        lemma_built_wf(prefix, ds[n - 1]);
        lemma_put_wf(built_children(into, prefix, ds, (n - 1) as nat), built(prefix, ds[n - 1]));
    }
}

/// Resolving declarations into a well-formed forest keeps it well formed.
pub proof fn lemma_absorb_wf(forest: Seq<NamespaceView>, decls: Seq<NamespaceDecl>)
    requires
        forest_wf(forest),
    ensures
        forest_wf(absorb(forest, decls)),
    decreases decls.len(),
{
    if decls.len() > 0 {
        lemma_absorb_wf(forest, decls.drop_last());
        lemma_built_wf(Seq::empty(), decls.last());
        lemma_upsert_wf(absorb(forest, decls.drop_last()), built(Seq::empty(), decls.last()));
    }
}

/// The forest of any list of modules is well formed.
pub proof fn lemma_forest_of_wf(modules: Seq<Module>)
    ensures
        forest_wf(forest_of(modules)),
    decreases modules.len(),
{
    if modules.len() > 0 {
        lemma_forest_of_wf(modules.drop_last());
        lemma_absorb_wf(forest_of(modules.drop_last()), modules.last().namespaces@);
    }
}

/// Resolving declarations into a forest is merging into it the forest that
/// the declarations give by themselves.
proof fn lemma_absorb_is_merge(forest: Seq<NamespaceView>, decls: Seq<NamespaceDecl>)
    requires
        forest_wf(forest),
    ensures
        absorb(forest, decls) == merge_children(forest, absorb(Seq::empty(), decls)),
    decreases decls.len(),
{
    if decls.len() > 0 {
        let d0 = decls.drop_last();
        lemma_absorb_is_merge(forest, d0);
        lemma_absorb_wf(Seq::empty(), d0);
        lemma_built_wf(Seq::empty(), decls.last());
        lemma_merge_children_upsert(forest, absorb(Seq::empty(), d0), built(Seq::empty(), decls.last()));
    }
}

/// The forest of two lists of modules, one after the other, is the forest
/// of the second merged into the forest of the first.
pub proof fn lemma_forest_of_concat(x: Seq<Module>, y: Seq<Module>)
    ensures
        forest_of(x + y) == merge_children(forest_of(x), forest_of(y)),
    decreases y.len(),
{
    if y.len() == 0 {
        assert(x + y =~= x);
    } else {
        let y0 = y.drop_last();
        let ds = y.last().namespaces@;
        assert((x + y).drop_last() =~= x + y0);
        assert((x + y).last() == y.last());
        lemma_forest_of_concat(x, y0);
        lemma_forest_of_wf(x);
        lemma_forest_of_wf(y0);
        let fx = forest_of(x);
        let fy0 = forest_of(y0);
        lemma_merge_children_wf(fx, fy0);
        lemma_absorb_is_merge(merge_children(fx, fy0), ds);
        lemma_absorb_wf(Seq::empty(), ds);
        lemma_merge_children_associative(fx, fy0, absorb(Seq::empty(), ds));
        lemma_absorb_is_merge(fy0, ds);
    }
}

/// Merging module lists is associative: the forest of `a` and `b` with the
/// forest of `c` merged into it is the forest of `a` with the forest of `b`
/// and `c` merged into it, and both are the forest of all three in order.
pub proof fn lemma_modules_merge_associative(a: Seq<Module>, b: Seq<Module>, c: Seq<Module>)
    ensures
        merge_children(forest_of(a + b), forest_of(c)) == merge_children(
            forest_of(a),
            forest_of(b + c),
        ),
        merge_children(forest_of(a + b), forest_of(c)) == forest_of(a + b + c),
{
    lemma_forest_of_concat(a + b, c);
    lemma_forest_of_concat(a, b + c);
    assert(a + b + c =~= a + (b + c));
}

/// The function that `path` leads to from inside the namespace `n`: the
/// names of nested namespaces, outermost first, and then the name of the
/// function.
pub open spec fn find_in(n: NamespaceView, path: Seq<Seq<char>>) -> Option<FunView>
    decreases path.len(), 1nat,
{
    if path.len() == 0 {
        None
    } else if path.len() == 1 {
        find(n.funs, fun_name(), path[0])
    } else {
        find_among(n.children, path)
    }
}

/// The function that `path` leads to from the namespaces `s`: the name of
/// one of them, and then a path from inside it.
pub open spec fn find_among(s: Seq<NamespaceView>, path: Seq<Seq<char>>) -> Option<FunView>
    decreases path.len(), 0nat,
{
    if path.len() == 0 {
        None
    } else {
        match find(s, ns_name(), path[0]) {
            Some(n) => find_in(n, path.drop_first()),
            None => None,
        }
    }
}

/// After `c` has been merged into a forest, its name leads to it, merged
/// into what the name led to before; every other name leads to what it led
/// to before.
proof fn lemma_upsert_finds(m: Seq<NamespaceView>, c: NamespaceView, k: Seq<char>)
    requires
        forest_wf(m),
        c.wf(),
    ensures
        find(upsert_child(m, c), ns_name(), k) == if k == c.name() {
            match find(m, ns_name(), k) {
                Some(x) => Some(merge_ns(x, c)),
                None => Some(c),
            }
        } else {
            find(m, ns_name(), k)
        },
{
    let r = upsert_child(m, c);
    lemma_upsert_wf(m, c);
    if has_name(m, ns_name(), c.name()) {
        let i = slot(m, ns_name(), c.name());
        assert(m[i].wf());
        lemma_merge_ns_wf(m[i], c);
        lemma_update_same_name(m, ns_name(), i, merge_ns(m[i], c));
        lemma_slot(r, ns_name(), i);
        if k != c.name() && has_name(m, ns_name(), k) {
            assert(ns_name()(m[slot(m, ns_name(), k)]) == k);
        }
    } else {
        lemma_push_new_name(m, ns_name(), c);
        if k != c.name() && has_name(m, ns_name(), k) {
            assert(ns_name()(m[slot(m, ns_name(), k)]) == k);
        }
    }
}

/// After `b` has been merged into `a`, a name that both have leads to the
/// merge of the two namespaces, and a name that one has to its namespace.
proof fn lemma_merge_children_finds(a: Seq<NamespaceView>, b: Seq<NamespaceView>, k: Seq<char>)
    requires
        forest_wf(a),
        forest_wf(b),
    ensures
        find(merge_children(a, b), ns_name(), k) == match find(b, ns_name(), k) {
            Some(y) => match find(a, ns_name(), k) {
                Some(x) => Some(merge_ns(x, y)),
                None => Some(y),
            },
            None => find(a, ns_name(), k),
        },
    decreases b.len(),
{
    if b.len() > 0 {
        lemma_front_wf(b);
        lemma_find_last(b, ns_name(), k);
        lemma_merge_children_finds(a, b.drop_last(), k);
        lemma_merge_children_wf(a, b.drop_last());
        lemma_upsert_finds(merge_children(a, b.drop_last()), b.last(), k);
    }
}

/// What a name leads to in a well-formed forest is well formed.
proof fn lemma_found_wf(s: Seq<NamespaceView>, k: Seq<char>)
    requires
        forest_wf(s),
    ensures
        find(s, ns_name(), k) matches Some(n) ==> n.wf() && forest_wf(n.children) && distinct(
            n.funs,
            fun_name(),
        ),
{
    if has_name(s, ns_name(), k) {
        assert(s[slot(s, ns_name(), k)].wf());
    }
}

/// In a merged namespace a path leads to the function of the namespace
/// that came last, where that one has the path, and to the function of the
/// first where it has not.
pub proof fn lemma_find_in_merged(a: NamespaceView, b: NamespaceView, path: Seq<Seq<char>>)
    requires
        a.wf(),
        b.wf(),
    ensures
        find_in(merge_ns(a, b), path) == if find_in(b, path) is Some {
            find_in(b, path)
        } else {
            find_in(a, path)
        },
    decreases path.len(), 1nat,
{
    if path.len() == 1 {
        lemma_put_all_finds(a.funs, fun_name(), b.funs, path[0]);
    } else if path.len() > 1 {
        assert(forest_wf(a.children));
        assert(forest_wf(b.children));
        lemma_find_among_merged(a.children, b.children, path);
    }
}

/// In a merged forest a path leads to the function of the forest that came
/// last, where that one has the path, and to the function of the first
/// where it has not: the later declaration wins.
pub proof fn lemma_find_among_merged(
    a: Seq<NamespaceView>,
    b: Seq<NamespaceView>,
    path: Seq<Seq<char>>,
)
    requires
        forest_wf(a),
        forest_wf(b),
    ensures
        find_among(merge_children(a, b), path) == if find_among(b, path) is Some {
            find_among(b, path)
        } else {
            find_among(a, path)
        },
    decreases path.len(), 0nat,
{
    if path.len() > 0 {
        let k = path[0];
        lemma_merge_children_finds(a, b, k);
        lemma_found_wf(a, k);
        lemma_found_wf(b, k);
        match (find(a, ns_name(), k), find(b, ns_name(), k)) {
            (Some(x), Some(y)) => {
                lemma_find_in_merged(x, y, path.drop_first());
            },
            _ => {},
        }
    }
}

/// Forests that share no function path merge to their union, whichever
/// comes first: a path leads to the same function in both merges, the one
/// that it leads to in the forest that has it.
pub proof fn lemma_merge_disjoint_commutes(a: Seq<NamespaceView>, b: Seq<NamespaceView>)
    requires
        forest_wf(a),
        forest_wf(b),
        forall|path: Seq<Seq<char>>|
            !(#[trigger] find_among(a, path) is Some && find_among(b, path) is Some),
    ensures
        forall|path: Seq<Seq<char>>| #[trigger]
            find_among(merge_children(a, b), path) == find_among(merge_children(b, a), path),
        forall|path: Seq<Seq<char>>| #[trigger]
            find_among(merge_children(a, b), path) == if find_among(a, path) is Some {
                find_among(a, path)
            } else {
                find_among(b, path)
            },
{
    assert forall|path: Seq<Seq<char>>| #[trigger]
        find_among(merge_children(a, b), path) == find_among(merge_children(b, a), path)
        && find_among(merge_children(a, b), path) == if find_among(a, path) is Some {
            find_among(a, path)
        } else {
            find_among(b, path)
        } by {
        lemma_find_among_merged(a, b, path);
        lemma_find_among_merged(b, a, path);
        assert(!(find_among(a, path) is Some && find_among(b, path) is Some));
    }
}

/// Module lists that share no function path give the same functions
/// whichever comes first: a path leads to the same function in the forest
/// of the one list followed by the other and in the forest of the other
/// followed by the one.
pub proof fn lemma_modules_disjoint_commute(x: Seq<Module>, y: Seq<Module>)
    requires
        forall|path: Seq<Seq<char>>|
            !(#[trigger] find_among(forest_of(x), path) is Some && find_among(
                forest_of(y),
                path,
            ) is Some),
    ensures
        forall|path: Seq<Seq<char>>| #[trigger]
            find_among(forest_of(x + y), path) == find_among(forest_of(y + x), path),
        forall|path: Seq<Seq<char>>| #[trigger]
            find_among(forest_of(x + y), path) == if find_among(forest_of(x), path) is Some {
                find_among(forest_of(x), path)
            } else {
                find_among(forest_of(y), path)
            },
{
    lemma_forest_of_wf(x);
    lemma_forest_of_wf(y);
    lemma_forest_of_concat(x, y);
    lemma_forest_of_concat(y, x);
    lemma_merge_disjoint_commutes(forest_of(x), forest_of(y));
}

} // verus!
