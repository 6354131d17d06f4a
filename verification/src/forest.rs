//! The namespace forest: parsed modules folded into one tree of namespaces,
//! same-named namespaces merged and same-named functions overwritten.

use crate::ast::{FunctionDecl, Module, NamespaceDecl};
use crate::dict::{distinct, find, has_name, put, put_all, slot};
use crate::naming::{Fun, FunKind, FunView};
use crate::text::split_on;
use indexmap::IndexMap;
use vstd::prelude::*;
use vstd::string::*;

verus! {

/// `indexmap::IndexMap`, carried as a value that only the functions below
/// look into.
#[verifier::external_type_specification]
#[verifier::external_body]
#[verifier::reject_recursive_types(K)]
#[verifier::reject_recursive_types(V)]
#[verifier::reject_recursive_types(S)]
pub struct ExIndexMap<K, V, S>(IndexMap<K, V, S>);

/// The entries of a map from names to places, in the order in which the
/// map holds them: every key with its value.
pub uninterp spec fn index_entries(m: IndexMap<String, usize>) -> Seq<(Seq<char>, usize)>;

/// The name of an entry.
pub open spec fn entry_name() -> spec_fn((Seq<char>, usize)) -> Seq<char> {
    |e: (Seq<char>, usize)| e.0
}

/// `IndexMap::new`: a map without entries.
#[verifier::external_body]
fn slots_new() -> (m: IndexMap<String, usize>)
    ensures
        index_entries(m) == Seq::<(Seq<char>, usize)>::empty(),
{
    IndexMap::new()
}

/// `IndexMap::get`: the value of the entry whose key has the characters of
/// `k`, if there is one, and nothing if there is none.
#[verifier::external_body]
fn slots_get(m: &IndexMap<String, usize>, k: &str) -> (r: Option<usize>)
    ensures
        r == match find(index_entries(*m), entry_name(), k@) {
            Some(e) => Some(e.1),
            None => None,
        },
{
    m.get(k).copied()
}

/// `IndexMap::insert`: where the key is in the map already, its entry keeps
/// its place and takes the new value; where it is not, the new entry goes
/// last.
#[verifier::external_body]
fn slots_insert(m: &mut IndexMap<String, usize>, k: String, v: usize)
    ensures
        index_entries(*final(m)) == put(index_entries(*old(m)), entry_name(), (k@, v)),
{
    m.insert(k, v);
}

/// The entries that lead from the name of every value of `s` to its place.
pub open spec fn directory<T>(s: Seq<T>, name: spec_fn(T) -> Seq<char>) -> Seq<(Seq<char>, usize)> {
    Seq::new(s.len(), |i: int| (name(s[i]), i as usize))
}

/// What a namespace of the forest is: the declaration that opened it, its
/// child namespaces and its functions, each in the order of first
/// appearance.
pub struct NamespaceView {
    pub decl: NamespaceDecl,
    pub children: Seq<NamespaceView>,
    pub funs: Seq<FunView>,
}

/// The name under which a namespace is found among its siblings.
pub open spec fn ns_name() -> spec_fn(NamespaceView) -> Seq<char> {
    |n: NamespaceView| n.decl.name.text@
}

/// The name under which a function is found in its namespace.
pub open spec fn fun_name() -> spec_fn(FunView) -> Seq<char> {
    |f: FunView| f.decl.name.text@
}

impl NamespaceView {
    pub open spec fn name(self) -> Seq<char> {
        self.decl.name.text@
    }

    /// No two children and no two functions have the same name, here and in
    /// every namespace below.
    pub open spec fn wf(self) -> bool
        decreases self,
    {
        &&& distinct(self.children, ns_name())
        &&& distinct(self.funs, fun_name())
        &&& forall|i: int| 0 <= i < self.children.len() ==> (#[trigger] self.children[i]).wf()
    }
}

/// A forest in which no two roots have the same name, and every root is
/// well formed.
pub open spec fn forest_wf(f: Seq<NamespaceView>) -> bool {
    &&& distinct(f, ns_name())
    &&& forall|i: int| 0 <= i < f.len() ==> (#[trigger] f[i]).wf()
}

/// `b` merged into `a`: the children of `b` are merged into those of `a`,
/// the functions of `b` overwrite those of `a` that have their names, and
/// the declaration of `a` stays.
pub open spec fn merge_ns(a: NamespaceView, b: NamespaceView) -> NamespaceView
    decreases b, 0nat,
{
    NamespaceView {
        decl: a.decl,
        children: merge_children(a.children, b.children),
        funs: put_all(a.funs, fun_name(), b.funs),
    }
}

/// `c` merged into the namespace of its name among `m`, or appended where
/// there is none.
pub open spec fn upsert_child(m: Seq<NamespaceView>, c: NamespaceView) -> Seq<NamespaceView>
    decreases c, 1nat,
{
    if has_name(m, ns_name(), c.name()) {
        let i = slot(m, ns_name(), c.name());
        m.update(i, merge_ns(m[i], c))
    } else {
        m.push(c)
    }
}

/// The namespaces of `b` merged into `a`, first to last.
pub open spec fn merge_children(a: Seq<NamespaceView>, b: Seq<NamespaceView>) -> Seq<NamespaceView>
    decreases b, 2nat,
{
    if b.len() == 0 {
        a
    } else {
        upsert_child(merge_children(a, b.drop_last()), b.last())
    }
}

/// The function `d` declared in the namespace whose dotted name, with a
/// trailing period, is `prefix`.
pub open spec fn fun_of(prefix: Seq<char>, d: FunctionDecl) -> FunView {
    FunView { decl: d, path: split_on(prefix + d.name.text@, '.') }
}

/// The functions `ds`, declared under `prefix`.
pub open spec fn funs_of(prefix: Seq<char>, ds: Seq<FunctionDecl>) -> Seq<FunView> {
    Seq::new(ds.len(), |i: int| fun_of(prefix, ds[i]))
}

/// The prefix for what is declared in a namespace named `name` that itself
/// stands under `prefix`.
pub open spec fn inner_prefix(prefix: Seq<char>, name: Seq<char>) -> Seq<char> {
    prefix + name + seq!['.']
}

/// The namespace that `d` declares under `prefix`: its functions, each
/// stamped with its path, and its nested namespaces built the same way. A
/// later sibling of the same name takes the place of an earlier one.
pub open spec fn built(prefix: Seq<char>, d: NamespaceDecl) -> NamespaceView
    decreases d, 0nat,
{
    let inner = inner_prefix(prefix, d.name.text@);
    NamespaceView {
        decl: d,
        children: built_children(Seq::empty(), inner, d.namespaces@, d.namespaces@.len()),
        funs: put_all(Seq::empty(), fun_name(), funs_of(inner, d.functions@)),
    }
}

/// The first `n` of the namespaces `ds`, built under `prefix` and put into
/// the dictionary `into`, one after the other.
pub open spec fn built_children(
    into: Seq<NamespaceView>,
    prefix: Seq<char>,
    ds: Seq<NamespaceDecl>,
    n: nat,
) -> Seq<NamespaceView>
    decreases ds, 1nat, n,
{
    if n == 0 || n > ds.len() {
        into
    } else {
        put(built_children(into, prefix, ds, (n - 1) as nat), ns_name(), built(prefix, ds[n - 1]))
    }
}

/// The namespace `v` after what its declaration holds has been put into it:
/// the declared functions, each stamped with its path under `prefix`, and
/// the nested namespaces, each built under the same prefix.
pub open spec fn grown(prefix: Seq<char>, v: NamespaceView) -> NamespaceView {
    let inner = inner_prefix(prefix, v.decl.name.text@);
    NamespaceView {
        decl: v.decl,
        children: built_children(v.children, inner, v.decl.namespaces@, v.decl.namespaces@.len()),
        funs: put_all(v.funs, fun_name(), funs_of(inner, v.decl.functions@)),
    }
}

/// The functions among `fs` that are of message class `kind`, in order.
pub open spec fn of_kind(fs: Seq<FunView>, kind: FunKind) -> Seq<FunView>
    decreases fs.len(),
{
    if fs.len() == 0 {
        Seq::empty()
    } else if fs.last().kind() == kind {
        of_kind(fs.drop_last(), kind).push(fs.last())
    } else {
        of_kind(fs.drop_last(), kind)
    }
}

/// What the functions behind the references of `v` are.
pub open spec fn ref_views(v: Seq<&Fun<'_>>) -> Seq<FunView> {
    Seq::new(v.len(), |i: int| (*v[i])@)
}

/// `forest` after the top-level namespaces `decls` have been resolved and
/// merged into it, first to last.
pub open spec fn absorb(forest: Seq<NamespaceView>, decls: Seq<NamespaceDecl>) -> Seq<NamespaceView>
    decreases decls.len(),
{
    if decls.len() == 0 {
        forest
    } else {
        upsert_child(absorb(forest, decls.drop_last()), built(Seq::empty(), decls.last()))
    }
}

/// The forest of a list of modules: every top-level namespace of every
/// module, resolved and merged in order.
pub open spec fn forest_of(modules: Seq<Module>) -> Seq<NamespaceView>
    decreases modules.len(),
{
    if modules.len() == 0 {
        Seq::empty()
    } else {
        absorb(forest_of(modules.drop_last()), modules.last().namespaces@)
    }
}

/// The functions of a namespace: those of its children first, then its own.
pub open spec fn funs_in(n: NamespaceView) -> Seq<FunView>
    decreases n, 0nat,
{
    funs_among(n.children, n.children.len()) + n.funs
}

/// The functions of the first `n` namespaces of `s`.
pub open spec fn funs_among(s: Seq<NamespaceView>, n: nat) -> Seq<FunView>
    decreases s, 1nat, n,
{
    if n == 0 || n > s.len() {
        Seq::empty()
    } else {
        funs_among(s, (n - 1) as nat) + funs_in(s[n - 1])
    }
}

/// The directory of a dictionary finds what the dictionary holds, where it
/// holds it.
proof fn lemma_directory<T>(s: Seq<T>, name: spec_fn(T) -> Seq<char>, k: Seq<char>)
    requires
        distinct(s, name),
        s.len() <= usize::MAX,
    ensures
        has_name(directory(s, name), entry_name(), k) == has_name(s, name, k),
        has_name(s, name, k) ==> {
            &&& 0 <= slot(s, name, k) < s.len()
            &&& slot(directory(s, name), entry_name(), k) == slot(s, name, k)
            &&& directory(s, name)[slot(s, name, k)].1 == slot(s, name, k)
        },
{
    let d = directory(s, name);
    assert forall|i: int| 0 <= i < s.len() implies #[trigger] entry_name()(d[i]) == name(s[i]) by {}
    if has_name(s, name, k) {
        let i = slot(s, name, k);
        assert(entry_name()(d[i]) == k);
    }
    if has_name(d, entry_name(), k) {
        let i = slot(d, entry_name(), k);
        assert(name(s[i]) == k);
        crate::dict::lemma_slot(s, name, i);
    }
}

/// Appending a value of a new name appends its entry to the directory.
proof fn lemma_directory_push<T>(s: Seq<T>, name: spec_fn(T) -> Seq<char>, x: T)
    requires
        distinct(s, name),
        !has_name(s, name, name(x)),
        s.len() < usize::MAX,
    ensures
        put(directory(s, name), entry_name(), (name(x), s.len() as usize)) == directory(
            s.push(x),
            name,
        ),
{
    lemma_directory(s, name, name(x));
    assert(entry_name()((name(x), s.len() as usize)) == name(x));
    assert(directory(s, name).push((name(x), s.len() as usize)) =~= directory(s.push(x), name));
}

/// Replacing a value by one of the same name leaves the directory as it is.
proof fn lemma_directory_update<T>(s: Seq<T>, name: spec_fn(T) -> Seq<char>, i: int, x: T)
    requires
        0 <= i < s.len(),
        name(x) == name(s[i]),
    ensures
        directory(s.update(i, x), name) == directory(s, name),
{
    assert(directory(s.update(i, x), name) =~= directory(s, name));
}

/// A namespace of the forest: the declaration that opened it, its children
/// and its functions, each kept in order and found by name.
pub struct Namespace<'a> {
    decl: &'a NamespaceDecl,
    children: Vec<Namespace<'a>>,
    child_slots: IndexMap<String, usize>,
    funs: Vec<Fun<'a>>,
    fun_slots: IndexMap<String, usize>,
}

/// What the namespaces of `v` are.
pub closed spec fn ns_views(v: Seq<Namespace<'_>>) -> Seq<NamespaceView>
    decreases v, 1nat,
{
    Seq::new(v.len(), |i: int| if 0 <= i < v.len() { v[i].view() } else { arbitrary() })
}

/// What the functions of `v` are.
pub open spec fn fun_views(v: Seq<Fun<'_>>) -> Seq<FunView> {
    Seq::new(v.len(), |i: int| v[i]@)
}

/// Every namespace of `v` is well formed.
pub closed spec fn all_wf(v: Seq<Namespace<'_>>) -> bool
    decreases v, 1nat,
{
    forall|i: int| 0 <= i < v.len() ==> (#[trigger] v[i]).wf()
}

impl<'a> Namespace<'a> {
    pub closed spec fn view(&self) -> NamespaceView
        decreases self, 0nat,
    {
        NamespaceView {
            decl: *self.decl,
            children: ns_views(self.children@),
            funs: fun_views(self.funs@),
        }
    }

    /// Names are unique among the children and among the functions, the
    /// two maps lead from every name to its place, and every child is well
    /// formed.
    pub closed spec fn wf(&self) -> bool
        decreases self, 0nat,
    {
        &&& distinct(ns_views(self.children@), ns_name())
        &&& distinct(fun_views(self.funs@), fun_name())
        &&& index_entries(self.child_slots) == directory(ns_views(self.children@), ns_name())
        &&& index_entries(self.fun_slots) == directory(fun_views(self.funs@), fun_name())
        &&& all_wf(self.children@)
    }

    /// A well-formed namespace is a well-formed tree.
    pub proof fn lemma_wf_view(&self)
        requires
            self.wf(),
        ensures
            self@.wf(),
        decreases self,
    {
        let v = self@;
        assert forall|i: int| 0 <= i < v.children.len() implies (#[trigger] v.children[i]).wf() by {
            assert(self.children@[i].wf());
            self.children@[i].lemma_wf_view();
        }
    }

    /// The namespace that `decl` opens, with nothing in it yet.
    pub fn new(decl: &'a NamespaceDecl) -> (ns: Namespace<'a>)
        ensures
            ns.wf(),
            ns@ == (NamespaceView { decl: *decl, children: Seq::empty(), funs: Seq::empty() }),
    {
        let ns = Namespace {
            decl,
            children: Vec::new(),
            child_slots: slots_new(),
            funs: Vec::new(),
            fun_slots: slots_new(),
        };
        assert(ns_views(ns.children@) =~= Seq::empty());
        assert(fun_views(ns.funs@) =~= Seq::empty());
        assert(directory(ns_views(ns.children@), ns_name()) =~= Seq::empty());
        assert(directory(fun_views(ns.funs@), fun_name()) =~= Seq::empty());
        ns
    }

    /// The declared name.
    pub fn name(&self) -> (r: &'a str)
        ensures
            r@ == self@.name(),
    {
        self.decl.name.text.as_str()
    }

    /// The declaration that opened the namespace.
    pub fn decl(&self) -> (d: &'a NamespaceDecl)
        ensures
            *d == self@.decl,
    {
        self.decl
    }

    /// The child namespaces, in order.
    pub fn children(&self) -> (r: &Vec<Namespace<'a>>)
        ensures
            r@.len() == self@.children.len(),
            forall|i: int| 0 <= i < r@.len() ==> (#[trigger] r@[i])@ == self@.children[i],
            self.wf() ==> forall|i: int| 0 <= i < r@.len() ==> (#[trigger] r@[i]).wf(),
    {
        &self.children
    }

    /// The functions declared in this namespace itself, in order.
    pub fn own_funs(&self) -> (r: &Vec<Fun<'a>>)
        ensures
            fun_views(r@) == self@.funs,
    {
        &self.funs
    }

    /// The functions of the namespace: those of its children first, then
    /// its own.
    pub fn funs<'b>(&'b self) -> (r: Vec<&'b Fun<'a>>)
        ensures
            ref_views(r@) == funs_in(self@),
        decreases self,
    {
        let mut out: Vec<&'b Fun<'a>> = Vec::new();
        let mut i: usize = 0;
        assert(ref_views(out@) =~= funs_among(self@.children, 0));
        while i < self.children.len()
            invariant
                i <= self.children.len(),
                ref_views(out@) == funs_among(self@.children, i as nat),
            decreases self.children.len() - i,
        {
            let ghost head = out@;
            let mut sub = self.children[i].funs();
            let ghost tail = sub@;
            out.append(&mut sub);
            assert(ref_views(out@) =~= ref_views(head) + ref_views(tail));
            i += 1;
        }
        let ghost nested = out@;
        let mut j: usize = 0;
        while j < self.funs.len()
            invariant
                j <= self.funs.len(),
                ref_views(out@) == ref_views(nested) + fun_views(self.funs@).take(j as int),
            decreases self.funs.len() - j,
        {
            let ghost head = out@;
            out.push(&self.funs[j]);
            assert(ref_views(out@) =~= ref_views(head).push(self.funs@[j as int]@));
            assert(fun_views(self.funs@).take(j + 1) =~= fun_views(self.funs@).take(j as int).push(
                self.funs@[j as int]@,
            ));
            j += 1;
        }
        assert(fun_views(self.funs@).take(self.funs@.len() as int) == fun_views(self.funs@));
        out
    }

    /// Merges `rhs` into this namespace: its children are merged into the
    /// children of the same name or appended, and its functions overwrite
    /// the functions of the same name or are appended.
    pub fn merge(&mut self, rhs: Namespace<'a>)
        requires
            old(self).wf(),
            rhs.wf(),
        ensures
            final(self).wf(),
            final(self)@ == merge_ns(old(self)@, rhs@),
        decreases rhs, 0nat,
    {
        let ghost before = self@;
        let ghost incoming = rhs@;
        let Namespace { decl: _, children, child_slots: _, funs, fun_slots: _ } = rhs;
        let ghost kids = children@;
        let ghost rfuns = funs@;
        assert(incoming.children == ns_views(kids));
        assert(incoming.funs == fun_views(rfuns));
        for v in it: children.into_iter()
            invariant
                it.seq() == kids,
                all_wf(kids),
                forall|i: int| 0 <= i < kids.len() ==> decreases_to!(rhs => #[trigger] kids[i]),
                self.wf(),
                self@.decl == before.decl,
                self@.funs == before.funs,
                self@.children == merge_children(
                    before.children,
                    ns_views(kids).take(it.index() as int),
                ),
        {
            let ghost i = it.index() as int;
            assert(ns_views(kids).take(i + 1).drop_last() == ns_views(kids).take(i));
            assert(ns_views(kids).take(i + 1).last() == v@);
            assert(kids[i].wf());
            assert(decreases_to!(rhs => kids[i]));
            upsert(&mut self.children, &mut self.child_slots, v);
        }
        assert(ns_views(kids).take(kids.len() as int) == ns_views(kids));
        for f in it: funs.into_iter()
            invariant
                it.seq() == rfuns,
                self.wf(),
                self@.decl == before.decl,
                self@.children == merge_children(before.children, incoming.children),
                self@.funs == put_all(
                    before.funs,
                    fun_name(),
                    fun_views(rfuns).take(it.index() as int),
                ),
        {
            let ghost i = it.index() as int;
            assert(fun_views(rfuns).take(i + 1).drop_last() == fun_views(rfuns).take(i));
            assert(fun_views(rfuns).take(i + 1).last() == f@);
            place_fun(&mut self.funs, &mut self.fun_slots, f);
        }
        assert(fun_views(rfuns).take(rfuns.len() as int) == fun_views(rfuns));
    }
}

/// Merges `c` into the namespace of its name among `children`, or appends
/// it where there is none.
fn upsert<'a>(
    children: &mut Vec<Namespace<'a>>,
    slots: &mut IndexMap<String, usize>,
    c: Namespace<'a>,
)
    requires
        distinct(ns_views(old(children)@), ns_name()),
        index_entries(*old(slots)) == directory(ns_views(old(children)@), ns_name()),
        all_wf(old(children)@),
        c.wf(),
    ensures
        distinct(ns_views(final(children)@), ns_name()),
        index_entries(*final(slots)) == directory(ns_views(final(children)@), ns_name()),
        all_wf(final(children)@),
        ns_views(final(children)@) == upsert_child(ns_views(old(children)@), c@),
    decreases c, 1nat,
{
    let ghost before = ns_views(children@);
    let ghost kids = children@;
    assert(children@.len() == children.len());
    proof {
        lemma_directory(before, ns_name(), c@.name());
    }
    match slots_get(slots, c.name()) {
        Some(i) => {
            assert(kids[i as int].wf());
            assert(before[i as int] == kids[i as int]@);
            children[i].merge(c);
            proof {
                let merged = merge_ns(before[i as int], c@);
                assert(ns_views(children@) =~= before.update(i as int, merged));
                crate::dict::lemma_update_same_name(before, ns_name(), i as int, merged);
                lemma_directory_update(before, ns_name(), i as int, merged);
                assert forall|j: int| 0 <= j < children@.len() implies (#[trigger] children@[j]).wf() by {
                    if j != i {
                        assert(kids[j].wf());
                    }
                }
            }
        },
        None => {
            let key = String::from_str(c.name());
            children.push(c);
            let at = children.len() - 1;
            slots_insert(slots, key, at);
            proof {
                assert(ns_views(children@) =~= before.push(c@));
                crate::dict::lemma_push_new_name(before, ns_name(), c@);
                lemma_directory_push(before, ns_name(), c@);
                assert forall|j: int| 0 <= j < children@.len() implies (#[trigger] children@[j]).wf() by {
                    if j < at {
                        assert(kids[j].wf());
                    }
                }
            }
        },
    }
}

/// Puts `f` in the place of the function of its name among `funs`, or
/// appends it where there is none.
fn place_fun<'a>(funs: &mut Vec<Fun<'a>>, slots: &mut IndexMap<String, usize>, f: Fun<'a>)
    requires
        distinct(fun_views(old(funs)@), fun_name()),
        index_entries(*old(slots)) == directory(fun_views(old(funs)@), fun_name()),
    ensures
        distinct(fun_views(final(funs)@), fun_name()),
        index_entries(*final(slots)) == directory(fun_views(final(funs)@), fun_name()),
        fun_views(final(funs)@) == put(fun_views(old(funs)@), fun_name(), f@),
{
    let ghost before = fun_views(funs@);
    assert(funs@.len() == funs.len());
    proof {
        lemma_directory(before, fun_name(), f@.decl.name.text@);
    }
    match slots_get(slots, f.decl().name.text.as_str()) {
        Some(i) => {
            funs[i] = f;
            proof {
                assert(fun_views(funs@) =~= before.update(i as int, f@));
                crate::dict::lemma_update_same_name(before, fun_name(), i as int, f@);
                lemma_directory_update(before, fun_name(), i as int, f@);
            }
        },
        None => {
            let key = f.decl().name.text.clone();
            funs.push(f);
            let at = funs.len() - 1;
            slots_insert(slots, key, at);
            proof {
                assert(fun_views(funs@) =~= before.push(f@));
                crate::dict::lemma_push_new_name(before, fun_name(), f@);
                lemma_directory_push(before, fun_name(), f@);
            }
        },
    }
}

/// Puts `c` in the place of the namespace of its name among `children`, or
/// appends it where there is none.
fn place_child<'a>(
    children: &mut Vec<Namespace<'a>>,
    slots: &mut IndexMap<String, usize>,
    c: Namespace<'a>,
)
    requires
        distinct(ns_views(old(children)@), ns_name()),
        index_entries(*old(slots)) == directory(ns_views(old(children)@), ns_name()),
        all_wf(old(children)@),
        c.wf(),
    ensures
        distinct(ns_views(final(children)@), ns_name()),
        index_entries(*final(slots)) == directory(ns_views(final(children)@), ns_name()),
        all_wf(final(children)@),
        ns_views(final(children)@) == put(ns_views(old(children)@), ns_name(), c@),
{
    let ghost before = ns_views(children@);
    let ghost kids = children@;
    assert(children@.len() == children.len());
    proof {
        lemma_directory(before, ns_name(), c@.name());
    }
    match slots_get(slots, c.name()) {
        Some(i) => {
            children[i] = c;
            proof {
                assert(ns_views(children@) =~= before.update(i as int, c@));
                crate::dict::lemma_update_same_name(before, ns_name(), i as int, c@);
                lemma_directory_update(before, ns_name(), i as int, c@);
                assert forall|j: int| 0 <= j < children@.len() implies (#[trigger] children@[j]).wf() by {
                    if j != i {
                        assert(kids[j].wf());
                    }
                }
            }
        },
        None => {
            let key = String::from_str(c.name());
            children.push(c);
            let at = children.len() - 1;
            slots_insert(slots, key, at);
            proof {
                assert(ns_views(children@) =~= before.push(c@));
                crate::dict::lemma_push_new_name(before, ns_name(), c@);
                lemma_directory_push(before, ns_name(), c@);
                assert forall|j: int| 0 <= j < children@.len() implies (#[trigger] children@[j]).wf() by {
                    if j < at {
                        assert(kids[j].wf());
                    }
                }
            }
        },
    }
}

/// The forest under construction: the top-level namespaces met so far.
pub struct Context<'a> {
    namespaces: Vec<Namespace<'a>>,
    slots: IndexMap<String, usize>,
}

impl<'a> View for Context<'a> {
    type V = Seq<NamespaceView>;

    closed spec fn view(&self) -> Seq<NamespaceView> {
        ns_views(self.namespaces@)
    }
}

impl<'a> Context<'a> {
    /// Names are unique among the roots, the map leads from every name to
    /// its place, and every root is well formed.
    pub closed spec fn wf(&self) -> bool {
        &&& distinct(ns_views(self.namespaces@), ns_name())
        &&& index_entries(self.slots) == directory(ns_views(self.namespaces@), ns_name())
        &&& all_wf(self.namespaces@)
    }

    /// A well-formed context is a well-formed forest.
    pub proof fn lemma_wf_view(&self)
        requires
            self.wf(),
        ensures
            forest_wf(self@),
    {
        assert forall|i: int| 0 <= i < self@.len() implies (#[trigger] self@[i]).wf() by {
            assert(self.namespaces@[i].wf());
            self.namespaces@[i].lemma_wf_view();
        }
    }

    /// An empty forest.
    pub fn new() -> (c: Context<'a>)
        ensures
            c.wf(),
            c@ == Seq::<NamespaceView>::empty(),
    {
        let c = Context { namespaces: Vec::new(), slots: slots_new() };
        assert(ns_views(c.namespaces@) =~= Seq::empty());
        assert(directory(ns_views(c.namespaces@), ns_name()) =~= Seq::empty());
        c
    }

    /// The forest of `modules`: every top-level namespace of every module,
    /// resolved and merged in order.
    pub fn from_modules(modules: &'a Vec<Module>) -> (c: Context<'a>)
        ensures
            c.wf(),
            c@ == forest_of(modules@),
    {
        let mut c = Context::new();
        let mut i: usize = 0;
        while i < modules.len()
            invariant
                i <= modules.len(),
                c.wf(),
                c@ == forest_of(modules@.take(i as int)),
            decreases modules.len() - i,
        {
            let ghost start = c@;
            let decls = &modules[i].namespaces;
            let mut j: usize = 0;
            while j < decls.len()
                invariant
                    j <= decls.len(),
                    c.wf(),
                    c@ == absorb(start, decls@.take(j as int)),
                decreases decls.len() - j,
            {
                assert(decls@.take(j + 1).drop_last() == decls@.take(j as int));
                c.visit_toplevel_ns(&decls[j]);
                j += 1;
            }
            assert(decls@.take(decls@.len() as int) == decls@);
            assert(modules@.take(i + 1).drop_last() == modules@.take(i as int));
            i += 1;
        }
        assert(modules@.take(modules@.len() as int) == modules@);
        c
    }

    /// The top-level namespaces, in order.
    pub fn roots(&self) -> (r: &Vec<Namespace<'a>>)
        ensures
            r@.len() == self@.len(),
            forall|i: int| 0 <= i < r@.len() ==> (#[trigger] r@[i])@ == self@[i],
            self.wf() ==> forall|i: int| 0 <= i < r@.len() ==> (#[trigger] r@[i]).wf(),
    {
        &self.namespaces
    }

    /// Every function of the forest, root by root; within a namespace the
    /// functions of its children come first.
    pub fn all_funs<'b>(&'b self) -> (r: Vec<&'b Fun<'a>>)
        ensures
            ref_views(r@) == funs_among(self@, self@.len()),
    {
        let mut out: Vec<&'b Fun<'a>> = Vec::new();
        let mut i: usize = 0;
        assert(ref_views(out@) =~= funs_among(self@, 0));
        while i < self.namespaces.len()
            invariant
                i <= self.namespaces.len(),
                ref_views(out@) == funs_among(self@, i as nat),
            decreases self.namespaces.len() - i,
        {
            let ghost head = out@;
            let mut sub = self.namespaces[i].funs();
            let ghost tail = sub@;
            out.append(&mut sub);
            assert(ref_views(out@) =~= ref_views(head) + ref_views(tail));
            i += 1;
        }
        out
    }

    /// The functions of the forest that are of message class `kind`, in the
    /// order of `all_funs`.
    pub fn funs<'b>(&'b self, kind: FunKind) -> (r: Vec<&'b Fun<'a>>)
        ensures
            ref_views(r@) == of_kind(funs_among(self@, self@.len()), kind),
    {
        let all = self.all_funs();
        let mut out: Vec<&'b Fun<'a>> = Vec::new();
        let mut i: usize = 0;
        assert(ref_views(out@) =~= of_kind(ref_views(all@).take(0), kind));
        while i < all.len()
            invariant
                i <= all.len(),
                ref_views(out@) == of_kind(ref_views(all@).take(i as int), kind),
            decreases all.len() - i,
        {
            let ghost head = out@;
            assert(ref_views(all@).take(i + 1).drop_last() == ref_views(all@).take(i as int));
            if all[i].kind() == kind {
                out.push(all[i]);
                assert(ref_views(out@) =~= ref_views(head).push((*all@[i as int])@));
            }
            i += 1;
        }
        assert(ref_views(all@).take(all@.len() as int) == ref_views(all@));
        out
    }

    /// Resolves the top-level namespace `decl` and merges it into the root
    /// of its name, or appends it where there is none.
    pub fn visit_toplevel_ns(&mut self, decl: &'a NamespaceDecl)
        requires
            old(self).wf(),
        ensures
            final(self).wf(),
            final(self)@ == upsert_child(old(self)@, built(Seq::empty(), *decl)),
    {
        let mut ns = Namespace::new(decl);
        Self::visit_ns("", &mut ns);
        proof {
            reveal_strlit("");
            assert(""@ =~= Seq::<char>::empty());
        }
        upsert(&mut self.namespaces, &mut self.slots, ns);
    }

    /// Puts into `ns` what its declaration holds: every declared function
    /// under its dotted path, and every nested namespace, filled the same
    /// way. `prefix` is the dotted name of the enclosing namespace followed
    /// by a period, or empty at the top.
    pub fn visit_ns(prefix: &str, ns: &mut Namespace<'a>)
        requires
            old(ns).wf(),
        ensures
            final(ns).wf(),
            final(ns)@ == grown(prefix@, old(ns)@),
        decreases old(ns)@.decl,
    {
        let ghost before = ns@;
        let decl = ns.decl;
        let mut inner = String::from_str(prefix);
        inner.append(ns.name());
        inner.append(".");
        proof {
            reveal_strlit(".");
            assert("."@ =~= seq!['.']);
            assert(inner@ == inner_prefix(prefix@, before.decl.name.text@));
        }
        let ghost all_funs = funs_of(inner@, decl.functions@);
        let mut i: usize = 0;
        while i < decl.functions.len()
            invariant
                i <= decl.functions.len(),
                ns.wf(),
                *decl == before.decl,
                ns@.decl == before.decl,
                ns@.children == before.children,
                all_funs == funs_of(inner@, decl.functions@),
                ns@.funs == put_all(before.funs, fun_name(), all_funs.take(i as int)),
            decreases decl.functions.len() - i,
        {
            let d = &decl.functions[i];
            let mut full_name = inner.clone();
            full_name.append(d.name.text.as_str());
            let ff = Fun::new(d, full_name);
            assert(ff@ == all_funs[i as int]);
            assert(all_funs.take(i + 1).drop_last() == all_funs.take(i as int));
            place_fun(&mut ns.funs, &mut ns.fun_slots, ff);
            i += 1;
        }
        assert(all_funs.take(all_funs.len() as int) == all_funs);
        let mut j: usize = 0;
        while j < decl.namespaces.len()
            invariant
                j <= decl.namespaces.len(),
                ns.wf(),
                *decl == before.decl,
                ns@.decl == before.decl,
                ns@.funs == grown(prefix@, before).funs,
                inner@ == inner_prefix(prefix@, before.decl.name.text@),
                ns@.children == built_children(before.children, inner@, decl.namespaces@, j as nat),
                before == old(ns)@,
            decreases decl.namespaces.len() - j,
        {
            let d = &decl.namespaces[j];
            let mut child = Namespace::new(d);
            proof {
                assert(decreases_to!(*decl => decl.namespaces));
                assert(decreases_to!(decl.namespaces => decl.namespaces@));
                assert(decreases_to!(decl.namespaces@ => decl.namespaces@[j as int]));
                assert(decreases_to!(old(ns)@.decl => child@.decl));
            }
            Self::visit_ns(inner.as_str(), &mut child);
            assert(child@ == built(inner@, *d));
            place_child(&mut ns.children, &mut ns.child_slots, child);
            j += 1;
        }
    }
}

} // verus!
