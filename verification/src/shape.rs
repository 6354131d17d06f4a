//! What holds of the shape of the surface: every function of the forest
//! has its own variant in the unions of its message class, and its own
//! module.

use crate::codegen::{variant_line, variant_lines, walk, walk_children, walk_funs};
use crate::forest::{funs_among, funs_in, of_kind, NamespaceView};
use crate::naming::{FunKind, FunView};
use vstd::prelude::*;

verus! {

/// The place that the variant of the function at `i` takes in the union of
/// its message class: the number of functions of that class before it.
pub open spec fn variant_place(all: Seq<FunView>, kind: FunKind, i: int) -> nat {
    of_kind(all.take(i), kind).len()
}

/// The functions of a class among a front of `all` are a front of the
/// functions of that class among `all`.
proof fn lemma_of_kind_front(all: Seq<FunView>, kind: FunKind, i: int)
    requires
        0 <= i <= all.len(),
    ensures
        of_kind(all.take(i), kind).len() <= of_kind(all, kind).len(),
        of_kind(all, kind).take(of_kind(all.take(i), kind).len() as int) == of_kind(
            all.take(i),
            kind,
        ),
    decreases all.len() - i,
{
    if i == all.len() {
        assert(all.take(i) =~= all);
        assert(of_kind(all, kind).take(of_kind(all, kind).len() as int) =~= of_kind(all, kind));
    } else {
        lemma_of_kind_front(all, kind, i + 1);
        assert(all.take(i + 1).drop_last() =~= all.take(i));
        let next = of_kind(all.take(i + 1), kind);
        let here = of_kind(all.take(i), kind);
        assert(of_kind(all, kind).take(here.len() as int) =~= next.take(here.len() as int));
        assert(next.take(here.len() as int) =~= here);
    }
}

/// Every function has exactly one variant in the union of its message
/// class: the variant at its place is its own, and functions at different
/// places of the forest have different places in the union.
pub proof fn lemma_one_variant_per_fun(all: Seq<FunView>, kind: FunKind, i: int)
    requires
        0 <= i < all.len(),
        all[i].kind() == kind,
    ensures
        variant_place(all, kind, i) < of_kind(all, kind).len(),
        of_kind(all, kind)[variant_place(all, kind, i) as int] == all[i],
        forall|j: int|
            0 <= j < i && all[j].kind() == kind ==> #[trigger] variant_place(all, kind, j)
                < variant_place(all, kind, i),
{
    lemma_of_kind_front(all, kind, i + 1);
    assert(all.take(i + 1).drop_last() =~= all.take(i));
    let here = of_kind(all.take(i), kind);
    let next = of_kind(all.take(i + 1), kind);
    assert(next == here.push(all[i]));
    assert(of_kind(all, kind).take(next.len() as int)[here.len() as int] == next[here.len() as int]);
    assert forall|j: int| 0 <= j < i && all[j].kind() == kind implies #[trigger] variant_place(
        all,
        kind,
        j,
    ) < variant_place(all, kind, i) by {
        lemma_of_kind_front(all.take(i), kind, j + 1);
        assert(all.take(i).take(j + 1) =~= all.take(j + 1));
        assert(all.take(j + 1).drop_last() =~= all.take(j));
    }
}

/// Every variant of a union is the variant of a function of its message
/// class, and a function has no variant in the union of the other class.
pub proof fn lemma_variant_has_its_fun(all: Seq<FunView>, kind: FunKind, j: int)
    requires
        0 <= j < of_kind(all, kind).len(),
    ensures
        of_kind(all, kind)[j].kind() == kind,
        exists|i: int|
            0 <= i < all.len() && all[i] == of_kind(all, kind)[j] && #[trigger] variant_place(
                all,
                kind,
                i,
            ) == j,
    decreases all.len(),
{
    let front = all.drop_last();
    assert(all.take(all.len() - 1) =~= front);
    if all.last().kind() == kind && j == of_kind(front, kind).len() {
        assert(variant_place(all, kind, all.len() - 1) == j);
    } else {
        lemma_variant_has_its_fun(front, kind, j);
        let i = choose|i: int|
            0 <= i < front.len() && front[i] == of_kind(front, kind)[j] && #[trigger] variant_place(
                front,
                kind,
                i,
            ) == j;
        assert(front.take(i) =~= all.take(i));
        assert(variant_place(all, kind, i) == j);
    }
}

/// A union has one line per function of its class, and the line at a place
/// is the variant of the function at that place.
pub proof fn lemma_union_lines(all: Seq<FunView>, kind: FunKind, record: Seq<char>)
    ensures
        variant_lines(of_kind(all, kind), record).len() == of_kind(all, kind).len(),
        forall|j: int|
            0 <= j < of_kind(all, kind).len() ==> #[trigger] variant_lines(
                of_kind(all, kind),
                record,
            )[j] == variant_line(of_kind(all, kind)[j], record),
        of_kind(all, FunKind::Request).len() + of_kind(all, FunKind::Notification).len()
            == all.len(),
{
    lemma_classes_partition(all);
}

/// Every function is a request or a notification, and not both.
proof fn lemma_classes_partition(all: Seq<FunView>)
    ensures
        of_kind(all, FunKind::Request).len() + of_kind(all, FunKind::Notification).len()
            == all.len(),
    decreases all.len(),
{
    if all.len() > 0 {
        lemma_classes_partition(all.drop_last());
    }
}

/// On the way into a namespace: nothing to list.
pub open spec fn list_enter() -> spec_fn(Seq<FunView>, NamespaceView) -> Seq<FunView> {
    |acc: Seq<FunView>, n: NamespaceView| acc
}

/// On a function: the function, listed.
pub open spec fn list_leaf() -> spec_fn(Seq<FunView>, FunView, Seq<char>) -> Seq<FunView> {
    |acc: Seq<FunView>, f: FunView, sup: Seq<char>| acc.push(f)
}

/// On the way out of a namespace: what the inside listed.
pub open spec fn list_leave() -> spec_fn(Seq<FunView>, Seq<FunView>, NamespaceView) -> Seq<
    FunView,
> {
    |acc: Seq<FunView>, inner: Seq<FunView>, n: NamespaceView| inner
}

/// The functions that the walk over a namespace meets, in the order in
/// which it meets them. The walk that writes the module of the namespace
/// writes one function module where this one lists one function.
pub open spec fn leaf_modules(n: NamespaceView, sup: Seq<char>) -> Seq<FunView> {
    walk(Seq::empty(), n, sup, list_enter(), list_leaf(), list_leave())
}

/// Listing the first `k` of `funs` appends them.
proof fn lemma_list_funs(acc: Seq<FunView>, funs: Seq<FunView>, sup: Seq<char>, k: nat)
    requires
        k <= funs.len(),
    ensures
        walk_funs(acc, funs, sup, list_leaf(), k) == acc + funs.take(k as int),
    decreases k,
{
    if k == 0 {
        assert(acc + funs.take(0) =~= acc);
    } else {
        lemma_list_funs(acc, funs, sup, (k - 1) as nat);
        assert((acc + funs.take(k - 1)).push(funs[k - 1]) =~= acc + funs.take(k as int));
    }
}

/// The walk over a namespace lists the functions of the namespace: it
/// meets every function exactly once, in the order in which the unions
/// list them.
pub proof fn lemma_walk_lists_funs(acc: Seq<FunView>, n: NamespaceView, sup: Seq<char>)
    ensures
        walk(acc, n, sup, list_enter(), list_leaf(), list_leave()) == acc + funs_in(n),
    decreases n, 1nat, 0nat,
{
    let deeper = sup + "super::"@;
    lemma_walk_lists_funs_among(acc, n.children, deeper, n.children.len());
    let mid = acc + funs_among(n.children, n.children.len());
    lemma_list_funs(mid, n.funs, sup, n.funs.len());
    assert(n.funs.take(n.funs.len() as int) =~= n.funs);
    assert(mid + n.funs =~= acc + funs_in(n));
}

/// The walks over the first `k` of `children` list their functions.
pub proof fn lemma_walk_lists_funs_among(
    acc: Seq<FunView>,
    children: Seq<NamespaceView>,
    sup: Seq<char>,
    k: nat,
)
    ensures
        walk_children(acc, children, sup, list_enter(), list_leaf(), list_leave(), k) == acc
            + funs_among(children, k),
    decreases children, 2nat, k,
{
    if k == 0 || k > children.len() {
        assert(acc + funs_among(children, k) =~= acc);
    } else {
        lemma_walk_lists_funs_among(acc, children, sup, (k - 1) as nat);
        let before = acc + funs_among(children, (k - 1) as nat);
        lemma_walk_lists_funs(before, children[k - 1], sup);
        assert(before + funs_in(children[k - 1]) =~= acc + funs_among(children, k));
    }
}

/// Every function of a namespace has exactly one module: the walk that
/// writes the module of the namespace meets the functions of the
/// namespace, each once, in the order in which the unions list them.
pub proof fn lemma_one_module_per_fun(n: NamespaceView, sup: Seq<char>)
    ensures
        leaf_modules(n, sup) == funs_in(n),
{
    lemma_walk_lists_funs(Seq::empty(), n, sup);
    assert(Seq::<FunView>::empty() + funs_in(n) =~= funs_in(n));
}

} // verus!
