//! Lexical environments and their cycle-safe garbage collector.
//!
//! Every scope lives in one arena, the [`EnvHeap`]; an [`Env`] is a handle
//! (an index) into it.  Closures stored back into scopes they capture make
//! the scope graph cyclic, so unreachable scopes are reclaimed by an explicit
//! mark-sweep pass over the arena rather than by reference counting.

use vstd::prelude::*;

use crate::expr::{expr_env_refs, expr_ok, expr_valid, push_expr_env_refs, tc_free, Expr};
use crate::proc::{NativeFunc, Proc};

verus! {

/// A handle to one scope in an [`EnvHeap`].
#[derive(Clone, Copy, Debug, PartialEq, Eq, Structural)]
pub struct Env {
    pub id: usize,
}

/// One scope: its bindings, its parent, and the collector's bookkeeping.
///
/// `vars` is an association list with pairwise-distinct keys; `live` records
/// whether the scope is still registered with the collector (sweeping clears
/// a scope's bindings and unregisters it).
#[derive(Debug)]
pub struct EnvRecord {
    pub parent: Option<Env>,
    pub vars: Vec<(String, Expr)>,
    pub marked: bool,
    pub live: bool,
}

/// The mathematical image of one scope.
#[verifier::ext_equal]
pub struct RecModel {
    pub parent: Option<int>,
    pub vars: Map<Seq<char>, Expr>,
    pub marked: bool,
    pub live: bool,
}

/// The arena that owns every scope ever created.  It doubles as the
/// collector's registry: a swept scope stays in place, emptied and marked
/// not-`live`, so handles held by surviving values remain meaningful.
#[derive(Debug)]
pub struct EnvHeap {
    pub records: Vec<EnvRecord>,
}

/// The map image of an association list: later entries would shadow earlier
/// ones, though well-formed records keep their keys pairwise distinct.
pub open spec fn kvs_model(kvs: Seq<(String, Expr)>) -> Map<Seq<char>, Expr>
    decreases kvs.len(),
{
    if kvs.len() == 0 {
        Map::empty()
    } else {
        kvs_model(kvs.drop_last()).insert(kvs.last().0@, kvs.last().1)
    }
}

/// Pairwise-distinct keys in an association list.
pub open spec fn keys_unique(kvs: Seq<(String, Expr)>) -> bool {
    forall|i: int, j: int| 0 <= i < j < kvs.len() ==> kvs[i].0@ != kvs[j].0@
}

impl View for EnvRecord {
    type V = RecModel;

    open spec fn view(&self) -> RecModel {
        RecModel {
            parent: match self.parent {
                Option::Some(e) => Option::Some(e.id as int),
                Option::None => Option::None,
            },
            vars: kvs_model(self.vars@),
            marked: self.marked,
            live: self.live,
        }
    }
}

impl View for EnvHeap {
    type V = Seq<RecModel>;

    open spec fn view(&self) -> Seq<RecModel> {
        Seq::new(self.records@.len(), |i: int| self.records@[i]@)
    }
}

/// Every binding of the map references only environments below `n` and
/// holds no trampoline marker.
pub open spec fn vars_valid(m: Map<Seq<char>, Expr>, n: int) -> bool {
    forall|k: Seq<char>| #[trigger] m.contains_key(k) ==> expr_ok(m[k], n)
}

/// One scope is well-formed at index `i` of a heap of length `n`: its parent
/// was created before it, and its bindings reference only valid indices.
pub open spec fn rec_wf(r: RecModel, i: int, n: int) -> bool {
    &&& (r.parent matches Option::Some(p) ==> 0 <= p < i)
    &&& vars_valid(r.vars, n)
}

/// The whole-heap well-formedness that every operation preserves.
pub open spec fn heap_wf(hv: Seq<RecModel>) -> bool {
    forall|i: int| 0 <= i < hv.len() ==> rec_wf(#[trigger] hv[i], i, hv.len() as int)
}

impl EnvHeap {
    /// Well-formedness of the arena: the mathematical heap is well-formed
    /// and each association list keeps its keys pairwise distinct.
    pub open spec fn wf(&self) -> bool {
        &&& heap_wf(self@)
        &&& forall|i: int| 0 <= i < self.records@.len() ==> keys_unique(
            #[trigger] self.records@[i].vars@,
        )
    }

    /// An arena with no scopes yet.
    pub fn new() -> (r: EnvHeap)
        ensures
            r@ == Seq::<RecModel>::empty(),
            r.wf(),
    {
        let r = EnvHeap { records: Vec::new() };
        proof {
            assert(r@ =~= Seq::<RecModel>::empty());
        }
        r
    }
}

// ------------------------------------------------------------------
// Association-list lemmas.
// ------------------------------------------------------------------

/// A key is in the map image exactly when some entry carries it, and under
/// unique keys the map value is that entry's value.
pub proof fn lemma_kvs_model(kvs: Seq<(String, Expr)>, k: Seq<char>)
    ensures
        kvs_model(kvs).contains_key(k) <==> (exists|i: int|
            0 <= i < kvs.len() && kvs[i].0@ == k),
        keys_unique(kvs) ==> forall|i: int|
            0 <= i < kvs.len() && kvs[i].0@ == k ==> kvs_model(kvs)[k] == #[trigger] kvs[i].1,
    decreases kvs.len(),
{
    if kvs.len() > 0 {
        let prefix = kvs.drop_last();
        lemma_kvs_model(prefix, k);
        assert(forall|i: int| 0 <= i < prefix.len() ==> prefix[i] == kvs[i]);
        if kvs.last().0@ == k {
            assert(kvs[kvs.len() - 1].0@ == k);
        } else {
            if kvs_model(kvs).contains_key(k) {
                let i = choose|i: int| 0 <= i < prefix.len() && prefix[i].0@ == k;
                assert(kvs[i].0@ == k);
            }
            if exists|i: int| 0 <= i < kvs.len() && kvs[i].0@ == k {
                let i = choose|i: int| 0 <= i < kvs.len() && kvs[i].0@ == k;
                assert(i < kvs.len() - 1);
                assert(prefix[i].0@ == k);
            }
        }
        if keys_unique(kvs) {
            assert(keys_unique(prefix));
        }
    }
}

/// Replacing the value at entry `i` updates the map image at that entry's
/// key and nothing else.
pub proof fn lemma_kvs_update(kvs: Seq<(String, Expr)>, i: int, v: Expr)
    requires
        0 <= i < kvs.len(),
        keys_unique(kvs),
    ensures
        kvs_model(kvs.update(i, (kvs[i].0, v))) == kvs_model(kvs).insert(kvs[i].0@, v),
        keys_unique(kvs.update(i, (kvs[i].0, v))),
    decreases kvs.len(),
{
    let kvs2 = kvs.update(i, (kvs[i].0, v));
    assert(keys_unique(kvs2));
    if i == kvs.len() - 1 {
        assert(kvs2.drop_last() =~= kvs.drop_last());
        assert(kvs_model(kvs2) =~= kvs_model(kvs).insert(kvs[i].0@, v));
    } else {
        let prefix = kvs.drop_last();
        assert(keys_unique(prefix));
        lemma_kvs_update(prefix, i, v);
        assert(kvs2.drop_last() =~= prefix.update(i, (prefix[i].0, v)));
        assert(kvs2.last() == kvs.last());
        lemma_kvs_model(prefix, kvs[i].0@);
        assert(kvs[i].0@ != kvs.last().0@);
        assert(kvs_model(kvs2) =~= kvs_model(kvs).insert(kvs[i].0@, v));
    }
}

/// Appending an entry with a fresh key inserts it into the map image and
/// keeps the keys pairwise distinct.
pub proof fn lemma_kvs_push(kvs: Seq<(String, Expr)>, key: String, v: Expr)
    requires
        keys_unique(kvs),
        forall|t: int| 0 <= t < kvs.len() ==> kvs[t].0@ != key@,
    ensures
        kvs_model(kvs.push((key, v))) == kvs_model(kvs).insert(key@, v),
        keys_unique(kvs.push((key, v))),
{
    let kvs2 = kvs.push((key, v));
    assert(kvs2.drop_last() =~= kvs);
    assert(kvs_model(kvs2) == kvs_model(kvs).insert(key@, v));
    assert(keys_unique(kvs2));
}

// ------------------------------------------------------------------
// Worklists of scope indices.
// ------------------------------------------------------------------

/// The set of indices held in a worklist.
pub open spec fn elems(s: Seq<usize>) -> Set<int> {
    Set::new(|j: int| exists|t: int| 0 <= t < s.len() && s[t] as int == j)
}

/// Appending to a worklist adds exactly that index to its set.
pub proof fn lemma_elems_push(s: Seq<usize>, x: usize)
    ensures
        elems(s.push(x)) == elems(s).insert(x as int),
{
    assert forall|j: int| elems(s.push(x)).contains(j) implies elems(s).insert(
        x as int,
    ).contains(j) by {
        let t = choose|t: int| 0 <= t < s.push(x).len() && s.push(x)[t] as int == j;
        if t < s.len() {
            assert(s[t] as int == j);
        }
    }
    assert forall|j: int| elems(s).insert(x as int).contains(j) implies elems(
        s.push(x),
    ).contains(j) by {
        if elems(s).contains(j) {
            let t = choose|t: int| 0 <= t < s.len() && s[t] as int == j;
            assert(s.push(x)[t] as int == j);
        } else {
            assert(s.push(x)[s.len() as int] as int == j);
        }
    }
    assert(elems(s.push(x)) =~= elems(s).insert(x as int));
}

/// Removing the last entry keeps every other held index in the set.
pub proof fn lemma_elems_pop(s: Seq<usize>)
    requires
        s.len() > 0,
    ensures
        forall|j: int|
            elems(s).contains(j) && j != s.last() as int ==> elems(s.drop_last()).contains(j),
        forall|j: int| elems(s.drop_last()).contains(j) ==> elems(s).contains(j),
{
    assert forall|j: int|
        elems(s).contains(j) && j != s.last() as int implies elems(s.drop_last()).contains(j) by {
        let t = choose|t: int| 0 <= t < s.len() && s[t] as int == j;
        assert(t < s.len() - 1);
        assert(s.drop_last()[t] as int == j);
    }
    assert forall|j: int| elems(s.drop_last()).contains(j) implies elems(s).contains(j) by {
        let t = choose|t: int| 0 <= t < s.drop_last().len() && s.drop_last()[t] as int == j;
        assert(s[t] as int == j);
    }
}

// ------------------------------------------------------------------
// Walking the parent chain.
// ------------------------------------------------------------------

/// The scope (if any) that owns the first binding of `name` on the walk
/// from `id` outward through parents.
pub open spec fn chain_resolve(hv: Seq<RecModel>, id: int, name: Seq<char>) -> Option<int>
    decreases id,
{
    if 0 <= id < hv.len() {
        if hv[id].vars.contains_key(name) {
            Option::Some(id)
        } else {
            match hv[id].parent {
                Option::Some(p) => if 0 <= p < id {
                    chain_resolve(hv, p, name)
                } else {
                    Option::None
                },
                Option::None => Option::None,
            }
        }
    } else {
        Option::None
    }
}

/// Whether `name` is bound anywhere on the walk from `id` outward.
pub open spec fn chain_has(hv: Seq<RecModel>, id: int, name: Seq<char>) -> bool {
    chain_resolve(hv, id, name) is Some
}

/// The value of the first binding of `name` on the walk from `id` outward.
pub open spec fn chain_lookup(hv: Seq<RecModel>, id: int, name: Seq<char>) -> Option<Expr> {
    match chain_resolve(hv, id, name) {
        Option::Some(j) => Option::Some(hv[j].vars[name]),
        Option::None => Option::None,
    }
}

/// A resolved scope is a valid index at or below the start and holds the
/// binding.
pub proof fn lemma_chain_resolve(hv: Seq<RecModel>, id: int, name: Seq<char>)
    ensures
        chain_resolve(hv, id, name) matches Option::Some(j) ==> 0 <= j <= id && j < hv.len()
            && hv[j].vars.contains_key(name),
    decreases id,
{
    if 0 <= id < hv.len() && !hv[id].vars.contains_key(name) {
        match hv[id].parent {
            Option::Some(p) => {
                if 0 <= p < id {
                    lemma_chain_resolve(hv, p, name);
                }
            },
            Option::None => {},
        }
    }
}


/// What the walk hands back is a well-formed value of the heap.
pub proof fn lemma_chain_lookup_ok(hv: Seq<RecModel>, id: int, name: Seq<char>)
    requires
        heap_wf(hv),
    ensures
        chain_lookup(hv, id, name) matches Option::Some(v) ==> expr_ok(v, hv.len() as int),
{
    lemma_chain_resolve(hv, id, name);
    if chain_lookup(hv, id, name) is Some {
        let j = chain_resolve(hv, id, name).unwrap();
        assert(rec_wf(hv[j], j, hv.len() as int));
    }
}

/// A record with the same bindings and one more entry written at `name`.
pub open spec fn rec_define(r: RecModel, name: Seq<char>, value: Expr) -> RecModel {
    RecModel { parent: r.parent, vars: r.vars.insert(name, value), marked: r.marked, live: r.live }
}

/// The heap after `set!` semantics: the first binding of `name` on the walk
/// from `id` is replaced by `value`; an unbound name changes nothing.
pub open spec fn spec_chain_update(
    hv: Seq<RecModel>,
    id: int,
    name: Seq<char>,
    value: Expr,
) -> Seq<RecModel> {
    match chain_resolve(hv, id, name) {
        Option::Some(j) => hv.update(j, rec_define(hv[j], name, value)),
        Option::None => hv,
    }
}


// ------------------------------------------------------------------
// Reachability: the collector's ground truth.
// ------------------------------------------------------------------

/// The collector's edges out of one scope, as a function of its parent and
/// bindings alone: the parent, plus every environment referenced from a
/// binding's value (a closure's captured scope, and everything a deferred
/// tail call holds).
pub open spec fn edges_of(parent: Option<int>, vars: Map<Seq<char>, Expr>) -> Set<int> {
    (match parent {
        Option::Some(p) => Set::empty().insert(p),
        Option::None => Set::empty(),
    }).union(vars_refs(vars))
}

/// Every environment referenced from some binding's value.
pub open spec fn vars_refs(m: Map<Seq<char>, Expr>) -> Set<int> {
    Set::new(
        |j: int|
            exists|k: Seq<char>| #[trigger] m.contains_key(k) && expr_env_refs(m[k]).contains(j),
    )
}

/// The edges out of one scope record.
pub open spec fn rec_edges(r: RecModel) -> Set<int> {
    edges_of(r.parent, r.vars)
}

/// The accumulated references of an association list's values.
pub open spec fn kvs_refs(kvs: Seq<(String, Expr)>) -> Set<int>
    decreases kvs.len(),
{
    if kvs.len() == 0 {
        Set::empty()
    } else {
        kvs_refs(kvs.drop_last()).union(expr_env_refs(kvs.last().1))
    }
}

/// Inserting a fresh key adds exactly the new value's references.
pub proof fn lemma_vars_refs_insert(m: Map<Seq<char>, Expr>, k: Seq<char>, v: Expr)
    requires
        !m.contains_key(k),
    ensures
        vars_refs(m.insert(k, v)) == vars_refs(m).union(expr_env_refs(v)),
{
    let m2 = m.insert(k, v);
    assert forall|j: int| vars_refs(m2).contains(j) implies vars_refs(m).union(
        expr_env_refs(v),
    ).contains(j) by {
        let k2 = choose|k2: Seq<char>|
            #[trigger] m2.contains_key(k2) && expr_env_refs(m2[k2]).contains(j);
        if k2 != k {
            assert(m.contains_key(k2) && expr_env_refs(m[k2]).contains(j));
        }
    }
    assert forall|j: int| vars_refs(m).union(expr_env_refs(v)).contains(j) implies vars_refs(
        m2,
    ).contains(j) by {
        if vars_refs(m).contains(j) {
            let k2 = choose|k2: Seq<char>|
                #[trigger] m.contains_key(k2) && expr_env_refs(m[k2]).contains(j);
            assert(m2.contains_key(k2) && expr_env_refs(m2[k2]).contains(j));
        } else {
            assert(m2.contains_key(k) && expr_env_refs(m2[k]).contains(j));
        }
    }
    assert(vars_refs(m2) =~= vars_refs(m).union(expr_env_refs(v)));
}

/// Under unique keys, the accumulated value references are exactly the map
/// image's references.
pub proof fn lemma_kvs_refs(kvs: Seq<(String, Expr)>)
    requires
        keys_unique(kvs),
    ensures
        kvs_refs(kvs) == vars_refs(kvs_model(kvs)),
    decreases kvs.len(),
{
    if kvs.len() == 0 {
        assert forall|j: int| !vars_refs(kvs_model(kvs)).contains(j) by {
            if vars_refs(kvs_model(kvs)).contains(j) {
                let k = choose|k: Seq<char>|
                    #[trigger] kvs_model(kvs).contains_key(k) && expr_env_refs(
                        kvs_model(kvs)[k],
                    ).contains(j);
            }
        }
        assert(kvs_refs(kvs) =~= vars_refs(kvs_model(kvs)));
    } else {
        let prefix = kvs.drop_last();
        assert(keys_unique(prefix));
        lemma_kvs_refs(prefix);
        lemma_kvs_model(prefix, kvs.last().0@);
        assert(!kvs_model(prefix).contains_key(kvs.last().0@));
        lemma_vars_refs_insert(kvs_model(prefix), kvs.last().0@, kvs.last().1);
    }
}

/// A set is closed when it contains every edge target of its members.
pub open spec fn heap_closed(hv: Seq<RecModel>, s: Set<int>) -> bool {
    forall|i: int| #[trigger] s.contains(i) && 0 <= i < hv.len() ==> rec_edges(hv[i]).subset_of(s)
}

/// A scope is reachable when every closed set containing the root contains
/// it: the least fixed point of marking, phrased impredicatively.
pub open spec fn env_reachable(hv: Seq<RecModel>, root: int, j: int) -> bool {
    forall|s: Set<int>| s.contains(root) && heap_closed(hv, s) ==> #[trigger] s.contains(j)
}

/// The root reaches itself.
pub proof fn lemma_reachable_root(hv: Seq<RecModel>, root: int)
    ensures
        env_reachable(hv, root, root),
{
}

/// Reachability follows edges.
pub proof fn lemma_reachable_step(hv: Seq<RecModel>, root: int, i: int, j: int)
    requires
        env_reachable(hv, root, i),
        0 <= i < hv.len(),
        rec_edges(hv[i]).contains(j),
    ensures
        env_reachable(hv, root, j),
{
    assert forall|s: Set<int>| s.contains(root) && heap_closed(hv, s) implies s.contains(j) by {
        assert(s.contains(i));
        assert(rec_edges(hv[i]).subset_of(s));
    }
}

/// The integers below `n`.
pub open spec fn range_set(n: int) -> Set<int> {
    Set::new(|j: int| 0 <= j < n)
}

/// In a well-formed heap every edge points at a valid index.
pub proof fn lemma_wf_edges_bounded(hv: Seq<RecModel>)
    requires
        heap_wf(hv),
    ensures
        forall|i: int|
            0 <= i < hv.len() ==> rec_edges(#[trigger] hv[i]).subset_of(
                range_set(hv.len() as int),
            ),
{
    assert forall|i: int| 0 <= i < hv.len() implies rec_edges(#[trigger] hv[i]).subset_of(
        range_set(hv.len() as int),
    ) by {
        assert(rec_wf(hv[i], i, hv.len() as int));
        assert forall|j: int| rec_edges(hv[i]).contains(j) implies 0 <= j < hv.len() by {
            if vars_refs(hv[i].vars).contains(j) {
                let k = choose|k: Seq<char>|
                    #[trigger] hv[i].vars.contains_key(k) && expr_env_refs(
                        hv[i].vars[k],
                    ).contains(j);
                assert(expr_valid(hv[i].vars[k], hv.len() as int));
            }
        }
    }
}

/// In a well-formed heap, everything reachable from a valid root is a valid
/// index.
pub proof fn lemma_reachable_in_range(hv: Seq<RecModel>, root: int, j: int)
    requires
        heap_wf(hv),
        0 <= root < hv.len(),
        env_reachable(hv, root, j),
    ensures
        0 <= j < hv.len(),
{
    lemma_wf_edges_bounded(hv);
    let s = range_set(hv.len() as int);
    assert(heap_closed(hv, s));
    assert(s.contains(j));
}

/// Changing only records that are unreachable (and keeping every reachable
/// record's edges) preserves the reachable set.  This covers both the mark
/// phase, which touches only flags, and the sweep, which rewrites only
/// unreachable scopes.
pub proof fn lemma_reachable_preserved(hv1: Seq<RecModel>, hv2: Seq<RecModel>, root: int)
    requires
        heap_wf(hv1),
        0 <= root < hv1.len(),
        hv2.len() == hv1.len(),
        forall|i: int|
            0 <= i < hv1.len() && env_reachable(hv1, root, i) ==> rec_edges(#[trigger] hv2[i])
                == rec_edges(hv1[i]),
    ensures
        forall|j: int| env_reachable(hv2, root, j) <==> env_reachable(hv1, root, j),
{
    let r = Set::new(|i: int| 0 <= i < hv1.len() && env_reachable(hv1, root, i));
    lemma_reachable_root(hv1, root);
    assert(r.contains(root));
    assert forall|i: int| #[trigger] r.contains(i) && 0 <= i < hv1.len() implies rec_edges(
        hv1[i],
    ).subset_of(r) by {
        assert forall|j: int| rec_edges(hv1[i]).contains(j) implies r.contains(j) by {
            lemma_reachable_step(hv1, root, i, j);
            lemma_reachable_in_range(hv1, root, j);
        }
    }
    assert(heap_closed(hv1, r));
    assert(heap_closed(hv2, r));
    assert forall|j: int| env_reachable(hv2, root, j) implies env_reachable(hv1, root, j) by {
        assert(r.contains(j));
    }
    assert forall|j: int| env_reachable(hv1, root, j) implies env_reachable(hv2, root, j) by {
        assert forall|s: Set<int>|
            s.contains(root) && heap_closed(hv2, s) implies s.contains(j) by {
            let t = s.intersect(r);
            assert(t.contains(root));
            assert forall|i: int|
                #[trigger] t.contains(i) && 0 <= i < hv1.len() implies rec_edges(
                hv1[i],
            ).subset_of(t) by {
                assert(rec_edges(hv2[i]) == rec_edges(hv1[i]));
                assert(rec_edges(hv2[i]).subset_of(s));
                assert(rec_edges(hv1[i]).subset_of(r));
            }
            assert(heap_closed(hv1, t));
            assert(t.contains(j));
        }
    }
}

// ------------------------------------------------------------------
// Counting scopes.
// ------------------------------------------------------------------

/// How many of the first `n` scopes are unmarked.
pub open spec fn unmarked_count(hv: Seq<RecModel>, n: int) -> nat
    decreases n,
{
    if n <= 0 {
        0
    } else {
        unmarked_count(hv, n - 1) + (if !hv[n - 1].marked {
            1nat
        } else {
            0nat
        })
    }
}

/// Marking one unmarked scope lowers the unmarked count by one.
pub proof fn lemma_unmarked_count_mark(hv1: Seq<RecModel>, hv2: Seq<RecModel>, i: int, n: int)
    requires
        0 <= i < n,
        forall|t: int| 0 <= t < n && t != i ==> hv2[t].marked == hv1[t].marked,
        !hv1[i].marked,
        hv2[i].marked,
    ensures
        unmarked_count(hv2, n) + 1 == unmarked_count(hv1, n),
    decreases n,
{
    if i == n - 1 {
        lemma_unmarked_count_same(hv1, hv2, n - 1);
    } else {
        lemma_unmarked_count_mark(hv1, hv2, i, n - 1);
    }
}

/// Equal marks give equal unmarked counts.
pub proof fn lemma_unmarked_count_same(hv1: Seq<RecModel>, hv2: Seq<RecModel>, n: int)
    requires
        forall|t: int| 0 <= t < n ==> hv2[t].marked == hv1[t].marked,
    ensures
        unmarked_count(hv2, n) == unmarked_count(hv1, n),
    decreases n,
{
    if n > 0 {
        lemma_unmarked_count_same(hv1, hv2, n - 1);
    }
}

/// How many of the first `n` scopes are still registered but unmarked.
pub open spec fn live_unmarked_count(hv: Seq<RecModel>, n: int) -> nat
    decreases n,
{
    if n <= 0 {
        0
    } else {
        live_unmarked_count(hv, n - 1) + (if hv[n - 1].live && !hv[n - 1].marked {
            1nat
        } else {
            0nat
        })
    }
}

/// How many of the first `n` scopes are still registered yet unreachable.
pub open spec fn unreachable_live_count(hv: Seq<RecModel>, root: int, n: int) -> nat
    decreases n,
{
    if n <= 0 {
        0
    } else {
        unreachable_live_count(hv, root, n - 1) + (if hv[n - 1].live && !env_reachable(
            hv,
            root,
            n - 1,
        ) {
            1nat
        } else {
            0nat
        })
    }
}

/// Two heaps that agree pointwise on liveness and reachability have the same
/// unreachable counts.
pub proof fn lemma_unreachable_live_count_congruence(
    hv1: Seq<RecModel>,
    hv2: Seq<RecModel>,
    root1: int,
    root2: int,
    n: int,
)
    requires
        forall|i: int| 0 <= i < n ==> hv2[i].live == hv1[i].live,
        forall|i: int|
            0 <= i < n ==> (env_reachable(hv2, root2, i) <==> env_reachable(hv1, root1, i)),
    ensures
        unreachable_live_count(hv2, root2, n) == unreachable_live_count(hv1, root1, n),
    decreases n,
{
    if n > 0 {
        lemma_unreachable_live_count_congruence(hv1, hv2, root1, root2, n - 1);
    }
}

/// When marks coincide with reachability, counting live unmarked scopes
/// counts the live unreachable ones.
pub proof fn lemma_live_unmarked_is_unreachable(hv: Seq<RecModel>, root: int, n: int)
    requires
        forall|i: int| 0 <= i < n ==> (hv[i].marked <==> env_reachable(hv, root, i)),
    ensures
        live_unmarked_count(hv, n) == unreachable_live_count(hv, root, n),
    decreases n,
{
    if n > 0 {
        lemma_live_unmarked_is_unreachable(hv, root, n - 1);
    }
}

// ------------------------------------------------------------------
// The executable scope operations.
// ------------------------------------------------------------------

/// Finds the entry carrying `key`, if any.
fn kvs_find(kvs: &Vec<(String, Expr)>, key: &String) -> (r: Option<usize>)
    ensures
        match r {
            Option::Some(i) => i < kvs@.len() && kvs@[i as int].0@ == key@,
            Option::None => forall|t: int| 0 <= t < kvs@.len() ==> kvs@[t].0@ != key@,
        },
{
    let mut i: usize = 0;
    while i < kvs.len()
        invariant
            i <= kvs@.len(),
            forall|t: int| 0 <= t < i ==> kvs@[t].0@ != key@,
        decreases kvs@.len() - i,
    {
        if kvs[i].0 == *key {
            return Option::Some(i);
        }
        i = i + 1;
    }
    Option::None
}

impl Env {
    /// Creates a fresh scope with no parent.
    pub fn new(heap: &mut EnvHeap) -> (r: Env)
        requires
            old(heap).wf(),
        ensures
            final(heap).wf(),
            r.id == old(heap)@.len(),
            final(heap)@ == old(heap)@.push(
                RecModel {
                    parent: Option::None,
                    vars: Map::empty(),
                    marked: false,
                    live: true,
                },
            ),
    {
        let id = heap.records.len();
        heap.records.push(
            EnvRecord { parent: Option::None, vars: Vec::new(), marked: false, live: true },
        );
        proof {
            assert(kvs_model(Seq::<(String, Expr)>::empty()) =~= Map::<Seq<char>, Expr>::empty());
            assert(heap@ =~= old(heap)@.push(
                RecModel {
                    parent: Option::None,
                    vars: Map::empty(),
                    marked: false,
                    live: true,
                },
            ));
            assert forall|i: int| 0 <= i < heap@.len() implies rec_wf(
                #[trigger] heap@[i],
                i,
                heap@.len() as int,
            ) by {
                if i < old(heap)@.len() {
                    assert(rec_wf(old(heap)@[i], i, old(heap)@.len() as int));
                }
            }
        }
        Env { id }
    }

    /// Creates a new child scope whose parent is this scope.
    pub fn derive(&self, heap: &mut EnvHeap) -> (r: Env)
        requires
            old(heap).wf(),
            self.id < old(heap)@.len(),
        ensures
            final(heap).wf(),
            r.id == old(heap)@.len(),
            final(heap)@ == old(heap)@.push(
                RecModel {
                    parent: Option::Some(self.id as int),
                    vars: Map::empty(),
                    marked: false,
                    live: true,
                },
            ),
    {
        let id = heap.records.len();
        heap.records.push(
            EnvRecord {
                parent: Option::Some(*self),
                vars: Vec::new(),
                marked: false,
                live: true,
            },
        );
        proof {
            assert(kvs_model(Seq::<(String, Expr)>::empty()) =~= Map::<Seq<char>, Expr>::empty());
            assert(heap@ =~= old(heap)@.push(
                RecModel {
                    parent: Option::Some(self.id as int),
                    vars: Map::empty(),
                    marked: false,
                    live: true,
                },
            ));
            assert forall|i: int| 0 <= i < heap@.len() implies rec_wf(
                #[trigger] heap@[i],
                i,
                heap@.len() as int,
            ) by {
                if i < old(heap)@.len() {
                    assert(rec_wf(old(heap)@[i], i, old(heap)@.len() as int));
                }
            }
        }
        Env { id }
    }

    /// Inserts or overwrites a binding in this scope only.
    pub fn define(&self, heap: &mut EnvHeap, name: &str, value: Expr)
        requires
            old(heap).wf(),
            self.id < old(heap)@.len(),
            expr_ok(value, old(heap)@.len() as int),
        ensures
            final(heap).wf(),
            final(heap)@ == old(heap)@.update(
                self.id as int,
                rec_define(old(heap)@[self.id as int], name@, value),
            ),
    {
        let id = self.id;
        let key = String::from_str(name);
        let found = kvs_find(&heap.records[id].vars, &key);
        let ghost kvs0 = heap.records@[id as int].vars@;
        match found {
            Option::Some(i) => {
                heap.records[id].vars[i].1 = value;
                proof {
                    assert(heap.records@[id as int].vars@ =~= kvs0.update(
                        i as int,
                        (kvs0[i as int].0, value),
                    ));
                    lemma_kvs_update(kvs0, i as int, value);
                }
            },
            Option::None => {
                heap.records[id].vars.push((key, value));
                proof {
                    assert(heap.records@[id as int].vars@ =~= kvs0.push((key, value)));
                    lemma_kvs_push(kvs0, key, value);
                }
            },
        }
        proof {
            assert(heap@ =~= old(heap)@.update(
                self.id as int,
                rec_define(old(heap)@[self.id as int], name@, value),
            ));
            assert forall|i: int| 0 <= i < heap@.len() implies rec_wf(
                #[trigger] heap@[i],
                i,
                heap@.len() as int,
            ) by {
                assert(rec_wf(old(heap)@[i], i, old(heap)@.len() as int));
                if i == id {
                    let m0 = old(heap)@[i].vars;
                    assert forall|k: Seq<char>|
                        #[trigger] heap@[i].vars.contains_key(k) implies expr_ok(
                        heap@[i].vars[k],
                        heap@.len() as int,
                    ) by {
                        if k != name@ {
                            assert(m0.contains_key(k));
                        }
                    }
                }
            }
        }
    }

    /// Reads the first binding of `name` on the walk from this scope outward.
    pub fn lookup(&self, heap: &EnvHeap, name: &str) -> (r: Option<Expr>)
        requires
            heap.wf(),
            self.id < heap@.len(),
        ensures
            r == chain_lookup(heap@, self.id as int, name@),
    {
        let key = String::from_str(name);
        let mut cur: usize = self.id;
        loop
            invariant
                heap.wf(),
                key@ == name@,
                cur < heap@.len(),
                chain_resolve(heap@, self.id as int, name@) == chain_resolve(
                    heap@,
                    cur as int,
                    name@,
                ),
            ensures
                cur < heap@.len(),
                chain_resolve(heap@, self.id as int, name@) == chain_resolve(
                    heap@,
                    cur as int,
                    name@,
                ),
                heap@[cur as int].vars.contains_key(name@) ==> chain_resolve(
                    heap@,
                    cur as int,
                    name@,
                ) == Option::Some(cur as int),
                !heap@[cur as int].vars.contains_key(name@) ==> chain_resolve(
                    heap@,
                    cur as int,
                    name@,
                ) is None,
            decreases cur,
        {
            let found = kvs_find(&heap.records[cur].vars, &key);
            proof {
                assert(heap@[cur as int] == heap.records@[cur as int]@);
                lemma_kvs_model(heap.records@[cur as int].vars@, name@);
            }
            match found {
                Option::Some(_) => {
                    assert(heap@[cur as int].vars.contains_key(name@));
                    break;
                },
                Option::None => {
                    assert(!heap@[cur as int].vars.contains_key(name@));
                    match &heap.records[cur].parent {
                        Option::Some(p) => {
                            assert(heap@[cur as int].parent == Option::Some(p.id as int));
                            cur = p.id;
                        },
                        Option::None => {
                            break;
                        },
                    }
                },
            }
        }
        let found = kvs_find(&heap.records[cur].vars, &key);
        proof {
            assert(heap@[cur as int] == heap.records@[cur as int]@);
            lemma_kvs_model(heap.records@[cur as int].vars@, name@);
        }
        match found {
            Option::Some(i) => {
                let v = heap.records[cur].vars[i].1.duplicate();
                Option::Some(v)
            },
            Option::None => Option::None,
        }
    }

    /// Walks from this scope outward and replaces the first binding of
    /// `name`; reports whether the name was bound anywhere on the chain.
    pub fn update(&self, heap: &mut EnvHeap, name: &str, value: Expr) -> (r: bool)
        requires
            old(heap).wf(),
            self.id < old(heap)@.len(),
            expr_ok(value, old(heap)@.len() as int),
        ensures
            final(heap).wf(),
            r == chain_has(old(heap)@, self.id as int, name@),
            final(heap)@ == spec_chain_update(old(heap)@, self.id as int, name@, value),
    {
        let key = String::from_str(name);
        let mut cur: usize = self.id;
        loop
            invariant
                old(heap).wf(),
                *heap == *old(heap),
                key@ == name@,
                cur < heap@.len(),
                chain_resolve(heap@, self.id as int, name@) == chain_resolve(
                    heap@,
                    cur as int,
                    name@,
                ),
            ensures
                *heap == *old(heap),
                cur < heap@.len(),
                chain_resolve(heap@, self.id as int, name@) == chain_resolve(
                    heap@,
                    cur as int,
                    name@,
                ),
                heap@[cur as int].vars.contains_key(name@) ==> chain_resolve(
                    heap@,
                    cur as int,
                    name@,
                ) == Option::Some(cur as int),
                !heap@[cur as int].vars.contains_key(name@) ==> chain_resolve(
                    heap@,
                    cur as int,
                    name@,
                ) is None,
            decreases cur,
        {
            let found = kvs_find(&heap.records[cur].vars, &key);
            proof {
                assert(heap@[cur as int] == heap.records@[cur as int]@);
                lemma_kvs_model(heap.records@[cur as int].vars@, name@);
            }
            match found {
                Option::Some(_) => {
                    assert(heap@[cur as int].vars.contains_key(name@));
                    break;
                },
                Option::None => {
                    assert(!heap@[cur as int].vars.contains_key(name@));
                    match &heap.records[cur].parent {
                        Option::Some(p) => {
                            assert(heap@[cur as int].parent == Option::Some(p.id as int));
                            cur = p.id;
                        },
                        Option::None => {
                            break;
                        },
                    }
                },
            }
        }
        let found = kvs_find(&heap.records[cur].vars, &key);
        proof {
            assert(heap@[cur as int] == heap.records@[cur as int]@);
            lemma_kvs_model(heap.records@[cur as int].vars@, name@);
        }
        match found {
            Option::Some(i) => {
                let ghost kvs0 = heap.records@[cur as int].vars@;
                heap.records[cur].vars[i].1 = value;
                proof {
                    assert(heap.records@[cur as int].vars@ =~= kvs0.update(
                        i as int,
                        (kvs0[i as int].0, value),
                    ));
                    lemma_kvs_update(kvs0, i as int, value);
                    assert(heap@ =~= spec_chain_update(old(heap)@, self.id as int, name@, value));
                    assert forall|t: int| 0 <= t < heap@.len() implies rec_wf(
                        #[trigger] heap@[t],
                        t,
                        heap@.len() as int,
                    ) by {
                        assert(rec_wf(old(heap)@[t], t, old(heap)@.len() as int));
                        if t == cur as int {
                            let m0 = old(heap)@[t].vars;
                            assert forall|k: Seq<char>|
                                #[trigger] heap@[t].vars.contains_key(k) implies expr_ok(
                                heap@[t].vars[k],
                                heap@.len() as int,
                            ) by {
                                if k != name@ {
                                    assert(m0.contains_key(k));
                                }
                            }
                        }
                    }
                }
                true
            },
            Option::None => {
                proof {
                    assert(heap@ =~= spec_chain_update(old(heap)@, self.id as int, name@, value));
                }
                false
            },
        }
    }
}


/// Two scope records that differ at most in the mark flag.
pub open spec fn same_except_marked(a: RecModel, b: RecModel) -> bool {
    a.parent == b.parent && a.vars == b.vars && a.live == b.live
}

impl EnvHeap {
    /// Collection step 1: reset every scope to unmarked.
    pub fn gc_prepare(&mut self)
        requires
            old(self).wf(),
        ensures
            final(self).wf(),
            final(self)@.len() == old(self)@.len(),
            forall|i: int|
                0 <= i < old(self)@.len() ==> final(self)@[i] == (RecModel {
                    parent: old(self)@[i].parent,
                    vars: old(self)@[i].vars,
                    marked: false,
                    live: old(self)@[i].live,
                }),
    {
        let n = self.records.len();
        let mut i: usize = 0;
        while i < n
            invariant
                old(self).wf(),
                self.records@.len() == n,
                n == old(self)@.len(),
                i <= n,
                forall|t: int|
                    0 <= t < i ==> self@[t] == (RecModel {
                        parent: old(self)@[t].parent,
                        vars: old(self)@[t].vars,
                        marked: false,
                        live: old(self)@[t].live,
                    }),
                forall|t: int| i <= t < n ==> self.records@[t] == old(self).records@[t],
                forall|t: int| 0 <= t < n ==> same_except_marked(self@[t], old(self)@[t]),
                forall|t: int| 0 <= t < n ==> keys_unique(#[trigger] self.records@[t].vars@),
            decreases n - i,
        {
            self.records[i].marked = false;
            i = i + 1;
        }
        proof {
            assert forall|t: int| 0 <= t < self@.len() implies rec_wf(
                #[trigger] self@[t],
                t,
                self@.len() as int,
            ) by {
                assert(rec_wf(old(self)@[t], t, old(self)@.len() as int));
            }
        }
    }

    /// Collection step 2: starting from the root, mark exactly the scopes
    /// that are reachable through parent links and through environments
    /// captured by values stored in bindings.
    pub fn gc_mark(&mut self, root: Env)
        requires
            old(self).wf(),
            root.id < old(self)@.len(),
            forall|i: int| 0 <= i < old(self)@.len() ==> !old(self)@[i].marked,
        ensures
            final(self).wf(),
            final(self)@.len() == old(self)@.len(),
            forall|i: int|
                0 <= i < old(self)@.len() ==> same_except_marked(
                    final(self)@[i],
                    old(self)@[i],
                ),
            forall|i: int|
                0 <= i < old(self)@.len() ==> (final(self)@[i].marked <==> env_reachable(
                    old(self)@,
                    root.id as int,
                    i,
                )),
    {
        let ghost orig: Seq<RecModel> = self@;
        let ghost r: int = root.id as int;
        let mut stack: Vec<usize> = Vec::new();
        proof {
            assert forall|j: int| !elems(stack@).contains(j) by {
                if elems(stack@).contains(j) {
                    let t = choose|t: int| 0 <= t < stack@.len() && stack@[t] as int == j;
                }
            }
            lemma_elems_push(stack@, root.id);
            lemma_reachable_root(orig, r);
            lemma_wf_edges_bounded(orig);
        }
        stack.push(root.id);
        loop
            invariant
                self.wf(),
                heap_wf(orig),
                self@.len() == orig.len(),
                0 <= r < orig.len(),
                forall|i: int| 0 <= i < orig.len() ==> same_except_marked(self@[i], orig[i]),
                forall|i: int|
                    0 <= i < orig.len() && self@[i].marked ==> env_reachable(orig, r, i),
                forall|j: int|
                    #[trigger] elems(stack@).contains(j) ==> 0 <= j < orig.len()
                        && env_reachable(orig, r, j),
                forall|i: int, j: int|
                    0 <= i < orig.len() && self@[i].marked && rec_edges(orig[i]).contains(j)
                        ==> 0 <= j < orig.len() && (self@[j].marked || elems(
                        stack@,
                    ).contains(j)),
                self@[r].marked || elems(stack@).contains(r),
            ensures
                self.wf(),
                self@.len() == orig.len(),
                stack@.len() == 0,
                forall|i: int| 0 <= i < orig.len() ==> same_except_marked(self@[i], orig[i]),
                forall|i: int|
                    0 <= i < orig.len() && self@[i].marked ==> env_reachable(orig, r, i),
                forall|i: int, j: int|
                    0 <= i < orig.len() && self@[i].marked && rec_edges(orig[i]).contains(j)
                        ==> 0 <= j < orig.len() && self@[j].marked,
                self@[r].marked,
            decreases unmarked_count(self@, self@.len() as int), stack@.len(),
        {
            let ghost stack0: Seq<usize> = stack@;
            let popped = stack.pop();
            match popped {
                Option::None => {
                    proof {
                        assert forall|j: int| !elems(stack@).contains(j) by {
                            if elems(stack@).contains(j) {
                                let t = choose|t: int|
                                    0 <= t < stack@.len() && stack@[t] as int == j;
                            }
                        }
                    }
                    break;
                },
                Option::Some(e) => {
                    proof {
                        lemma_wf_edges_bounded(orig);
                        lemma_elems_pop(stack0);
                        assert(stack0.last() == e);
                        assert(elems(stack0).contains(e as int));
                        assert(e < orig.len());
                    }
                    if !self.records[e].marked {
                        let ghost hv_before: Seq<RecModel> = self@;
                        self.records[e].marked = true;
                        proof {
                            assert(self@ =~= hv_before.update(
                                e as int,
                                RecModel {
                                    parent: hv_before[e as int].parent,
                                    vars: hv_before[e as int].vars,
                                    marked: true,
                                    live: hv_before[e as int].live,
                                },
                            ));
                            lemma_unmarked_count_mark(
                                hv_before,
                                self@,
                                e as int,
                                self@.len() as int,
                            );
                            assert forall|t: int|
                                0 <= t < self@.len() implies rec_wf(
                                #[trigger] self@[t],
                                t,
                                self@.len() as int,
                            ) by {
                                assert(rec_wf(hv_before[t], t, hv_before.len() as int));
                            }
                        }
                        let ghost count_after_mark: nat = unmarked_count(
                            self@,
                            self@.len() as int,
                        );
                        let parent = self.records[e].parent;
                        match parent {
                            Option::Some(p) => {
                                proof {
                                    lemma_elems_push(stack@, p.id);
                                    assert(orig[e as int].parent == Option::Some(p.id as int));
                                    assert(rec_edges(orig[e as int]).contains(p.id as int));
                                    lemma_reachable_step(orig, r, e as int, p.id as int);
                                }
                                stack.push(p.id);
                            },
                            Option::None => {},
                        }
                        let ghost stack1: Seq<usize> = stack@;
                        proof {
                            assert(self@[e as int] == self.records@[e as int]@);
                            assert forall|j: int|
                                #[trigger] elems(stack1).contains(j) implies 0 <= j < orig.len()
                                && env_reachable(orig, r, j) by {
                                match orig[e as int].parent {
                                    Option::Some(pp) => {
                                        if j == pp {
                                            lemma_reachable_step(orig, r, e as int, pp);
                                        } else {
                                            assert(elems(stack0.drop_last()).contains(j));
                                            assert(elems(stack0).contains(j));
                                        }
                                    },
                                    Option::None => {
                                        assert(elems(stack0.drop_last()).contains(j));
                                        assert(elems(stack0).contains(j));
                                    },
                                }
                            }
                        }
                        let ghost kvs: Seq<(String, Expr)> = self.records@[e as int].vars@;
                        let n_vars = self.records[e].vars.len();
                        let ghost smid: EnvHeap = *self;
                        let mut t: usize = 0;
                        while t < n_vars
                            invariant
                                *self == smid,
                                t <= n_vars,
                                e < smid.records@.len(),
                                n_vars == smid.records@[e as int].vars@.len(),
                                kvs == smid.records@[e as int].vars@,
                                elems(stack@) == elems(stack1).union(
                                    kvs_refs(kvs.subrange(0, t as int)),
                                ),
                            decreases n_vars - t,
                        {
                            proof {
                                assert(kvs.subrange(0, t + 1).drop_last() =~= kvs.subrange(
                                    0,
                                    t as int,
                                ));
                                assert(kvs.subrange(0, t + 1).last() == kvs[t as int]);
                            }
                            push_expr_env_refs(&self.records[e].vars[t].1, &mut stack);
                            t = t + 1;
                        }
                        proof {
                            assert(kvs.subrange(0, kvs.len() as int) =~= kvs);
                            assert(self@[e as int] == self.records@[e as int]@);
                            assert(kvs_model(kvs) == self@[e as int].vars);
                            assert(keys_unique(kvs));
                            lemma_kvs_refs(kvs);
                            assert(self@[e as int].vars == orig[e as int].vars);
                            assert(rec_edges(orig[e as int]) == edges_of(
                                orig[e as int].parent,
                                orig[e as int].vars,
                            ));
                            assert(elems(stack@) == elems(stack1).union(kvs_refs(kvs)));
                            assert(kvs_refs(kvs) == vars_refs(orig[e as int].vars));
                            assert(forall|j: int|
                                #[trigger] elems(stack0).contains(j) ==> 0 <= j < orig.len()
                                    && env_reachable(orig, r, j));
                            assert(forall|j: int|
                                elems(stack0.drop_last()).contains(j) ==> elems(
                                    stack0,
                                ).contains(j));
                            // every index now on the stack is a valid, reachable scope
                            assert forall|j: int|
                                #[trigger] elems(stack@).contains(j) implies 0 <= j
                                < orig.len() && env_reachable(orig, r, j) by {
                                if elems(stack1).contains(j) {
                                } else {
                                    assert(vars_refs(orig[e as int].vars).contains(j));
                                    assert(rec_edges(orig[e as int]).contains(j));
                                    lemma_reachable_step(orig, r, e as int, j);
                                    assert(rec_edges(orig[e as int]).subset_of(
                                        range_set(orig.len() as int),
                                    ));
                                }
                            }
                            // the frontier invariant holds again
                            assert forall|i: int, j: int|
                                0 <= i < orig.len() && self@[i].marked && rec_edges(
                                    orig[i],
                                ).contains(j) implies 0 <= j < orig.len() && (self@[j].marked
                                || elems(stack@).contains(j)) by {
                                assert(rec_edges(orig[i]).subset_of(range_set(orig.len() as int)));
                                if i == e as int {
                                    if vars_refs(orig[i].vars).contains(j) {
                                        assert(elems(stack@).contains(j));
                                    } else {
                                        assert(orig[i].parent == Option::Some(j));
                                        assert(elems(stack1).contains(j));
                                        assert(elems(stack@).contains(j));
                                    }
                                } else {
                                    assert(hv_before[i].marked);
                                    if !self@[j].marked {
                                        assert(elems(stack0).contains(j));
                                        if j != e as int {
                                            assert(elems(stack0.drop_last()).contains(j));
                                            assert(elems(stack1).contains(j));
                                            assert(elems(stack@).contains(j));
                                        }
                                    }
                                }
                            }
                            // the root is still marked or queued
                            if !self@[r].marked {
                                assert(elems(stack0).contains(r));
                                assert(r != e as int);
                                assert(elems(stack0.drop_last()).contains(r));
                                assert(elems(stack@).contains(r));
                            }
                            // termination: one fewer scope is unmarked
                            assert(unmarked_count(self@, self@.len() as int) == count_after_mark);
                        }
                    } else {
                        proof {
                            lemma_unmarked_count_same(self@, self@, self@.len() as int);
                            assert forall|j: int|
                                #[trigger] elems(stack@).contains(j) implies 0 <= j < orig.len()
                                && env_reachable(orig, r, j) by {
                                assert(elems(stack0).contains(j));
                            }
                            assert forall|i: int, j: int|
                                0 <= i < orig.len() && self@[i].marked && rec_edges(
                                    orig[i],
                                ).contains(j) implies 0 <= j < orig.len() && (self@[j].marked
                                || elems(stack@).contains(j)) by {
                                if !self@[j].marked {
                                    assert(elems(stack0).contains(j));
                                    assert(j != e as int);
                                    assert(elems(stack0.drop_last()).contains(j));
                                }
                            }
                            if !self@[r].marked {
                                assert(elems(stack0).contains(r));
                                assert(r != e as int);
                                assert(elems(stack0.drop_last()).contains(r));
                            }
                        }
                    }
                },
            }
        }
        proof {
            let hv = self@;
            let ms = Set::new(|i: int| 0 <= i < hv.len() && hv[i].marked);
            assert(ms.contains(r));
            assert forall|i: int|
                #[trigger] ms.contains(i) && 0 <= i < orig.len() implies rec_edges(
                orig[i],
            ).subset_of(ms) by {
                assert forall|j: int| rec_edges(orig[i]).contains(j) implies ms.contains(j) by {
                    assert(hv[i].marked);
                    assert(0 <= j < orig.len() && hv[j].marked);
                }
            }
            assert(heap_closed(orig, ms));
            assert forall|i: int|
                0 <= i < orig.len() && env_reachable(orig, r, i) implies self@[i].marked by {
                assert(ms.contains(i));
            }
        }
    }

    /// Collection step 3: clear and unregister every live scope that the
    /// mark phase did not reach, severing any cycle it anchors.
    pub fn gc_sweep(&mut self)
        requires
            old(self).wf(),
        ensures
            final(self).wf(),
            final(self)@.len() == old(self)@.len(),
            forall|i: int|
                0 <= i < old(self)@.len() ==> final(self)@[i] == (if old(self)@[i].live && !old(
                    self,
                )@[i].marked {
                    RecModel {
                        parent: old(self)@[i].parent,
                        vars: Map::empty(),
                        marked: old(self)@[i].marked,
                        live: false,
                    }
                } else {
                    old(self)@[i]
                }),
    {
        let n = self.records.len();
        let mut i: usize = 0;
        while i < n
            invariant
                old(self).wf(),
                self.records@.len() == n,
                n == old(self)@.len(),
                i <= n,
                forall|t: int|
                    0 <= t < i ==> self@[t].parent == old(self)@[t].parent && self@[t].marked
                        == old(self)@[t].marked,
                forall|t: int|
                    0 <= t < i && old(self)@[t].live && !old(self)@[t].marked ==> self@[t].vars
                        == Map::<Seq<char>, Expr>::empty() && !self@[t].live,
                forall|t: int|
                    0 <= t < i && !(old(self)@[t].live && !old(self)@[t].marked) ==> self@[t].vars
                        == old(self)@[t].vars && self@[t].live == old(self)@[t].live,
                forall|t: int| i <= t < n ==> self.records@[t] == old(self).records@[t],
                forall|t: int| 0 <= t < n ==> keys_unique(#[trigger] self.records@[t].vars@),
            decreases n - i,
        {
            proof {
                assert(self@[i as int] == self.records@[i as int]@);
                assert(old(self)@[i as int] == old(self).records@[i as int]@);
            }
            if self.records[i].live && !self.records[i].marked {
                self.records[i].vars = Vec::new();
                self.records[i].live = false;
                proof {
                    assert(kvs_model(Seq::<(String, Expr)>::empty())
                        =~= Map::<Seq<char>, Expr>::empty());
                    assert(self@[i as int] == self.records@[i as int]@);
                }
            }
            i = i + 1;
        }
        proof {
            assert forall|t: int| 0 <= t < self@.len() implies rec_wf(
                #[trigger] self@[t],
                t,
                self@.len() as int,
            ) by {
                assert(rec_wf(old(self)@[t], t, old(self)@.len() as int));
            }
            assert forall|t: int|
                0 <= t < old(self)@.len() implies self@[t] == (if old(self)@[t].live && !old(
                self,
            )@[t].marked {
                RecModel {
                    parent: old(self)@[t].parent,
                    vars: Map::empty(),
                    marked: old(self)@[t].marked,
                    live: false,
                }
            } else {
                old(self)@[t]
            }) by {
                if old(self)@[t].live && !old(self)@[t].marked {
                    assert(self@[t] =~= (RecModel {
                        parent: old(self)@[t].parent,
                        vars: Map::empty(),
                        marked: old(self)@[t].marked,
                        live: false,
                    }));
                } else {
                    assert(self@[t] =~= old(self)@[t]);
                }
            }
        }
    }

    /// Counts the scopes that are still registered but were not marked.
    pub fn count_unmarked_live(&self) -> (r: usize)
        ensures
            r == live_unmarked_count(self@, self@.len() as int),
    {
        let n = self.records.len();
        let mut count: usize = 0;
        let mut i: usize = 0;
        while i < n
            invariant
                n == self@.len(),
                i <= n,
                count <= i,
                count == live_unmarked_count(self@, i as int),
            decreases n - i,
        {
            if self.records[i].live && !self.records[i].marked {
                count = count + 1;
            }
            i = i + 1;
        }
        count
    }
}


/// A live census with nothing live unreachable counts zero.
pub proof fn lemma_unreachable_live_count_zero(hv: Seq<RecModel>, root: int, n: int)
    requires
        forall|i: int| 0 <= i < n && hv[i].live ==> env_reachable(hv, root, i),
    ensures
        unreachable_live_count(hv, root, n) == 0,
    decreases n,
{
    if n > 0 {
        lemma_unreachable_live_count_zero(hv, root, n - 1);
    }
}

impl EnvHeap {
    /// The full collection pass: reset marks, mark everything reachable from
    /// `root`, and sweep the rest.  Afterwards exactly the reachable scopes
    /// are still registered, none of their bindings has changed, and a
    /// recount of unreachable live scopes comes to zero.
    pub fn collect(&mut self, root: Env)
        requires
            old(self).wf(),
            root.id < old(self)@.len(),
        ensures
            final(self).wf(),
            final(self)@.len() == old(self)@.len(),
            forall|i: int| #![trigger old(self)@[i]]
                0 <= i < old(self)@.len() ==> (final(self)@[i].live <==> (old(self)@[i].live
                    && env_reachable(old(self)@, root.id as int, i))),
            forall|i: int| #![trigger old(self)@[i]]
                0 <= i < old(self)@.len() && env_reachable(old(self)@, root.id as int, i)
                    ==> final(self)@[i].parent == old(self)@[i].parent && final(self)@[i].vars
                    == old(self)@[i].vars && final(self)@[i].live == old(self)@[i].live,
            forall|i: int| #![trigger old(self)@[i]]
                0 <= i < old(self)@.len() && old(self)@[i].live && !env_reachable(
                    old(self)@,
                    root.id as int,
                    i,
                ) ==> final(self)@[i].vars == Map::<Seq<char>, Expr>::empty()
                    && !final(self)@[i].live,
            forall|i: int|
                0 <= i < old(self)@.len() ==> (env_reachable(final(self)@, root.id as int, i)
                    <==> env_reachable(old(self)@, root.id as int, i)),
            unreachable_live_count(final(self)@, root.id as int, final(self)@.len() as int) == 0,
    {
        let ghost hv0: Seq<RecModel> = self@;
        let ghost r: int = root.id as int;
        self.gc_prepare();
        let ghost hv1: Seq<RecModel> = self@;
        proof {
            assert forall|i: int|
                0 <= i < hv0.len() && env_reachable(hv0, r, i) implies rec_edges(#[trigger] hv1[i])
                == rec_edges(hv0[i]) by {}
            lemma_reachable_preserved(hv0, hv1, r);
        }
        self.gc_mark(root);
        let ghost hv2: Seq<RecModel> = self@;
        proof {
            assert forall|i: int|
                0 <= i < hv0.len() && env_reachable(hv0, r, i) implies rec_edges(#[trigger] hv2[i])
                == rec_edges(hv1[i]) by {}
            lemma_reachable_preserved(hv1, hv2, r);
        }
        self.gc_sweep();
        let ghost hv3: Seq<RecModel> = self@;
        proof {
            assert forall|i: int|
                0 <= i < hv2.len() && env_reachable(hv2, r, i) implies rec_edges(#[trigger] hv3[i])
                == rec_edges(hv2[i]) by {
                assert(hv2[i].marked);
                assert(hv3[i] == hv2[i]);
            }
            lemma_reachable_preserved(hv2, hv3, r);
            assert forall|i: int|
                0 <= i < hv3.len() && hv3[i].live implies env_reachable(hv3, r, i) by {
                assert(hv2[i].marked);
            }
            lemma_unreachable_live_count_zero(hv3, r, hv3.len() as int);
        }
    }

    /// The dry-run diagnostic: reset marks, mark, and count the scopes that
    /// are still registered yet unreachable, sweeping nothing.
    pub fn count_unreachable(&mut self, root: Env) -> (r: usize)
        requires
            old(self).wf(),
            root.id < old(self)@.len(),
        ensures
            final(self).wf(),
            final(self)@.len() == old(self)@.len(),
            forall|i: int|
                0 <= i < old(self)@.len() ==> same_except_marked(final(self)@[i], old(self)@[i]),
            r == unreachable_live_count(
                old(self)@,
                root.id as int,
                old(self)@.len() as int,
            ),
    {
        let ghost hv0: Seq<RecModel> = self@;
        let ghost rt: int = root.id as int;
        self.gc_prepare();
        let ghost hv1: Seq<RecModel> = self@;
        proof {
            assert forall|i: int|
                0 <= i < hv0.len() && env_reachable(hv0, rt, i) implies rec_edges(
                #[trigger] hv1[i],
            ) == rec_edges(hv0[i]) by {}
            lemma_reachable_preserved(hv0, hv1, rt);
        }
        self.gc_mark(root);
        let ghost hv2: Seq<RecModel> = self@;
        proof {
            assert forall|i: int|
                0 <= i < hv0.len() && env_reachable(hv0, rt, i) implies rec_edges(
                #[trigger] hv2[i],
            ) == rec_edges(hv1[i]) by {}
            lemma_reachable_preserved(hv1, hv2, rt);
            assert forall|i: int|
                0 <= i < hv2.len() implies (hv2[i].marked <==> env_reachable(hv2, rt, i)) by {}
            lemma_live_unmarked_is_unreachable(hv2, rt, hv2.len() as int);
            lemma_unreachable_live_count_congruence(hv0, hv2, rt, rt, hv0.len() as int);
        }
        self.count_unmarked_live()
    }
}

/// A native-procedure value bound under `name`.
pub open spec fn is_native(v: Expr, name: Seq<char>, func: NativeFunc) -> bool {
    v matches Expr::Proc(Proc::Native { name: n, func: f }, sp) && n@ == name && f == func
        && sp is None
}

/// The map binds `name` to the given native procedure.
pub open spec fn has_native(m: Map<Seq<char>, Expr>, name: Seq<char>, func: NativeFunc) -> bool {
    m.contains_key(name) && is_native(m[name], name, func)
}

/// Binds one native procedure in `env`, touching nothing else.
fn define_native(env: Env, heap: &mut EnvHeap, name: &str, func: NativeFunc)
    requires
        old(heap).wf(),
        env.id < old(heap)@.len(),
    ensures
        final(heap).wf(),
        final(heap)@.len() == old(heap)@.len(),
        forall|i: int|
            0 <= i < old(heap)@.len() && i != env.id as int ==> final(heap)@[i] == old(heap)@[i],
        final(heap)@[env.id as int].parent == old(heap)@[env.id as int].parent,
        final(heap)@[env.id as int].live == old(heap)@[env.id as int].live,
        final(heap)@[env.id as int].marked == old(heap)@[env.id as int].marked,
        has_native(final(heap)@[env.id as int].vars, name@, func),
        forall|k: Seq<char>|
            k != name@
                ==> (#[trigger] final(heap)@[env.id as int].vars.contains_key(k))
                == old(heap)@[env.id as int].vars.contains_key(k),
        forall|k: Seq<char>|
            k != name@ && old(heap)@[env.id as int].vars.contains_key(k)
                ==> (#[trigger] final(heap)@[env.id as int].vars[k])
                == old(heap)@[env.id as int].vars[k],
{
    let v = Expr::Proc(Proc::Native { name: String::from_str(name), func }, Option::None);
    proof {
        assert(is_native(v, name@, func));
        assert(expr_ok(v, old(heap)@.len() as int));
    }
    env.define(heap, name, v);
}

impl Env {
    /// Creates a scope preloaded with every native procedure of the core
    /// language: the list primitives, the defining forms, the quote family,
    /// and the numeric leaves.
    #[verifier::rlimit(60)]
    pub fn new_root_env(heap: &mut EnvHeap) -> (r: Env)
        requires
            old(heap).wf(),
        ensures
            final(heap).wf(),
            r.id == old(heap)@.len(),
            final(heap)@.len() == old(heap)@.len() + 1,
            forall|i: int| 0 <= i < old(heap)@.len() ==> final(heap)@[i] == old(heap)@[i],
            final(heap)@[r.id as int].parent is None,
            final(heap)@[r.id as int].live,
            has_native(final(heap)@[r.id as int].vars, "atom?"@, NativeFunc::Atom),
            has_native(final(heap)@[r.id as int].vars, "car"@, NativeFunc::Car),
            has_native(final(heap)@[r.id as int].vars, "cdr"@, NativeFunc::Cdr),
            has_native(final(heap)@[r.id as int].vars, "cons"@, NativeFunc::ConsFn),
            has_native(final(heap)@[r.id as int].vars, "cond"@, NativeFunc::Cond),
            has_native(final(heap)@[r.id as int].vars, "define"@, NativeFunc::Define),
            has_native(final(heap)@[r.id as int].vars, "defmacro"@, NativeFunc::Defmacro),
            has_native(final(heap)@[r.id as int].vars, "eq?"@, NativeFunc::Eq),
            has_native(final(heap)@[r.id as int].vars, "eval"@, NativeFunc::EvalFn),
            has_native(final(heap)@[r.id as int].vars, "lambda"@, NativeFunc::Lambda),
            has_native(final(heap)@[r.id as int].vars, "set!"@, NativeFunc::SetBang),
            has_native(final(heap)@[r.id as int].vars, "quote"@, NativeFunc::Quote),
            has_native(final(heap)@[r.id as int].vars, "quasiquote"@, NativeFunc::Quasiquote),
            has_native(final(heap)@[r.id as int].vars, "+"@, NativeFunc::NumAdd),
            has_native(final(heap)@[r.id as int].vars, "-"@, NativeFunc::NumMinus),
            has_native(final(heap)@[r.id as int].vars, "*"@, NativeFunc::NumMultiply),
            has_native(final(heap)@[r.id as int].vars, "/"@, NativeFunc::NumDivide),
            has_native(final(heap)@[r.id as int].vars, "num?"@, NativeFunc::IsNum),
    {
        let env = Env::new(heap);
        proof {
            reveal_strlit("atom?");
            reveal_strlit("car");
            reveal_strlit("cdr");
            reveal_strlit("cons");
            reveal_strlit("cond");
            reveal_strlit("define");
            reveal_strlit("defmacro");
            reveal_strlit("eq?");
            reveal_strlit("eval");
            reveal_strlit("lambda");
            reveal_strlit("set!");
            reveal_strlit("quote");
            reveal_strlit("quasiquote");
            reveal_strlit("+");
            reveal_strlit("-");
            reveal_strlit("*");
            reveal_strlit("/");
            reveal_strlit("num?");
            assert("atom?"@.len() == 5);
            assert("car"@.len() == 3);
            assert("cdr"@.len() == 3);
            assert("cons"@.len() == 4);
            assert("cond"@.len() == 4);
            assert("define"@.len() == 6);
            assert("defmacro"@.len() == 8);
            assert("eq?"@.len() == 3);
            assert("eval"@.len() == 4);
            assert("lambda"@.len() == 6);
            assert("set!"@.len() == 4);
            assert("quote"@.len() == 5);
            assert("quasiquote"@.len() == 10);
            assert("+"@.len() == 1);
            assert("-"@.len() == 1);
            assert("*"@.len() == 1);
            assert("/"@.len() == 1);
            assert("num?"@.len() == 4);
            assert("atom?"@[0] != "quote"@[0]);
            assert("atom?"@ != "quote"@);
            assert("car"@[1] != "cdr"@[1]);
            assert("car"@ != "cdr"@);
            assert("car"@[0] != "eq?"@[0]);
            assert("car"@ != "eq?"@);
            assert("cdr"@[0] != "eq?"@[0]);
            assert("cdr"@ != "eq?"@);
            assert("cons"@[3] != "cond"@[3]);
            assert("cons"@ != "cond"@);
            assert("cons"@[0] != "eval"@[0]);
            assert("cons"@ != "eval"@);
            assert("cons"@[0] != "set!"@[0]);
            assert("cons"@ != "set!"@);
            assert("cons"@[0] != "num?"@[0]);
            assert("cons"@ != "num?"@);
            assert("cond"@[0] != "eval"@[0]);
            assert("cond"@ != "eval"@);
            assert("cond"@[0] != "set!"@[0]);
            assert("cond"@ != "set!"@);
            assert("cond"@[0] != "num?"@[0]);
            assert("cond"@ != "num?"@);
            assert("define"@[0] != "lambda"@[0]);
            assert("define"@ != "lambda"@);
            assert("eval"@[0] != "set!"@[0]);
            assert("eval"@ != "set!"@);
            assert("eval"@[0] != "num?"@[0]);
            assert("eval"@ != "num?"@);
            assert("set!"@[0] != "num?"@[0]);
            assert("set!"@ != "num?"@);
            assert("+"@[0] != "-"@[0]);
            assert("+"@ != "-"@);
            assert("+"@[0] != "*"@[0]);
            assert("+"@ != "*"@);
            assert("+"@[0] != "/"@[0]);
            assert("+"@ != "/"@);
            assert("-"@[0] != "*"@[0]);
            assert("-"@ != "*"@);
            assert("-"@[0] != "/"@[0]);
            assert("-"@ != "/"@);
            assert("*"@[0] != "/"@[0]);
            assert("*"@ != "/"@);
        }
        define_native(env, heap, "atom?", NativeFunc::Atom);
        proof {
            assert(has_native(heap@[env.id as int].vars, "atom?"@, NativeFunc::Atom));
        }
        define_native(env, heap, "car", NativeFunc::Car);
        proof {
            assert(has_native(heap@[env.id as int].vars, "atom?"@, NativeFunc::Atom));
            assert(has_native(heap@[env.id as int].vars, "car"@, NativeFunc::Car));
        }
        define_native(env, heap, "cdr", NativeFunc::Cdr);
        proof {
            assert(has_native(heap@[env.id as int].vars, "atom?"@, NativeFunc::Atom));
            assert(has_native(heap@[env.id as int].vars, "car"@, NativeFunc::Car));
            assert(has_native(heap@[env.id as int].vars, "cdr"@, NativeFunc::Cdr));
        }
        define_native(env, heap, "cons", NativeFunc::ConsFn);
        proof {
            assert(has_native(heap@[env.id as int].vars, "atom?"@, NativeFunc::Atom));
            assert(has_native(heap@[env.id as int].vars, "car"@, NativeFunc::Car));
            assert(has_native(heap@[env.id as int].vars, "cdr"@, NativeFunc::Cdr));
            assert(has_native(heap@[env.id as int].vars, "cons"@, NativeFunc::ConsFn));
        }
        define_native(env, heap, "cond", NativeFunc::Cond);
        proof {
            assert(has_native(heap@[env.id as int].vars, "atom?"@, NativeFunc::Atom));
            assert(has_native(heap@[env.id as int].vars, "car"@, NativeFunc::Car));
            assert(has_native(heap@[env.id as int].vars, "cdr"@, NativeFunc::Cdr));
            assert(has_native(heap@[env.id as int].vars, "cons"@, NativeFunc::ConsFn));
            assert(has_native(heap@[env.id as int].vars, "cond"@, NativeFunc::Cond));
        }
        define_native(env, heap, "define", NativeFunc::Define);
        proof {
            assert(has_native(heap@[env.id as int].vars, "atom?"@, NativeFunc::Atom));
            assert(has_native(heap@[env.id as int].vars, "car"@, NativeFunc::Car));
            assert(has_native(heap@[env.id as int].vars, "cdr"@, NativeFunc::Cdr));
            assert(has_native(heap@[env.id as int].vars, "cons"@, NativeFunc::ConsFn));
            assert(has_native(heap@[env.id as int].vars, "cond"@, NativeFunc::Cond));
            assert(has_native(heap@[env.id as int].vars, "define"@, NativeFunc::Define));
        }
        define_native(env, heap, "defmacro", NativeFunc::Defmacro);
        proof {
            assert(has_native(heap@[env.id as int].vars, "atom?"@, NativeFunc::Atom));
            assert(has_native(heap@[env.id as int].vars, "car"@, NativeFunc::Car));
            assert(has_native(heap@[env.id as int].vars, "cdr"@, NativeFunc::Cdr));
            assert(has_native(heap@[env.id as int].vars, "cons"@, NativeFunc::ConsFn));
            assert(has_native(heap@[env.id as int].vars, "cond"@, NativeFunc::Cond));
            assert(has_native(heap@[env.id as int].vars, "define"@, NativeFunc::Define));
            assert(has_native(heap@[env.id as int].vars, "defmacro"@, NativeFunc::Defmacro));
        }
        define_native(env, heap, "eq?", NativeFunc::Eq);
        proof {
            assert(has_native(heap@[env.id as int].vars, "atom?"@, NativeFunc::Atom));
            assert(has_native(heap@[env.id as int].vars, "car"@, NativeFunc::Car));
            assert(has_native(heap@[env.id as int].vars, "cdr"@, NativeFunc::Cdr));
            assert(has_native(heap@[env.id as int].vars, "cons"@, NativeFunc::ConsFn));
            assert(has_native(heap@[env.id as int].vars, "cond"@, NativeFunc::Cond));
            assert(has_native(heap@[env.id as int].vars, "define"@, NativeFunc::Define));
            assert(has_native(heap@[env.id as int].vars, "defmacro"@, NativeFunc::Defmacro));
            assert(has_native(heap@[env.id as int].vars, "eq?"@, NativeFunc::Eq));
        }
        define_native(env, heap, "eval", NativeFunc::EvalFn);
        proof {
            assert(has_native(heap@[env.id as int].vars, "atom?"@, NativeFunc::Atom));
            assert(has_native(heap@[env.id as int].vars, "car"@, NativeFunc::Car));
            assert(has_native(heap@[env.id as int].vars, "cdr"@, NativeFunc::Cdr));
            assert(has_native(heap@[env.id as int].vars, "cons"@, NativeFunc::ConsFn));
            assert(has_native(heap@[env.id as int].vars, "cond"@, NativeFunc::Cond));
            assert(has_native(heap@[env.id as int].vars, "define"@, NativeFunc::Define));
            assert(has_native(heap@[env.id as int].vars, "defmacro"@, NativeFunc::Defmacro));
            assert(has_native(heap@[env.id as int].vars, "eq?"@, NativeFunc::Eq));
            assert(has_native(heap@[env.id as int].vars, "eval"@, NativeFunc::EvalFn));
        }
        define_native(env, heap, "lambda", NativeFunc::Lambda);
        proof {
            assert(has_native(heap@[env.id as int].vars, "atom?"@, NativeFunc::Atom));
            assert(has_native(heap@[env.id as int].vars, "car"@, NativeFunc::Car));
            assert(has_native(heap@[env.id as int].vars, "cdr"@, NativeFunc::Cdr));
            assert(has_native(heap@[env.id as int].vars, "cons"@, NativeFunc::ConsFn));
            assert(has_native(heap@[env.id as int].vars, "cond"@, NativeFunc::Cond));
            assert(has_native(heap@[env.id as int].vars, "define"@, NativeFunc::Define));
            assert(has_native(heap@[env.id as int].vars, "defmacro"@, NativeFunc::Defmacro));
            assert(has_native(heap@[env.id as int].vars, "eq?"@, NativeFunc::Eq));
            assert(has_native(heap@[env.id as int].vars, "eval"@, NativeFunc::EvalFn));
            assert(has_native(heap@[env.id as int].vars, "lambda"@, NativeFunc::Lambda));
        }
        define_native(env, heap, "set!", NativeFunc::SetBang);
        proof {
            assert(has_native(heap@[env.id as int].vars, "atom?"@, NativeFunc::Atom));
            assert(has_native(heap@[env.id as int].vars, "car"@, NativeFunc::Car));
            assert(has_native(heap@[env.id as int].vars, "cdr"@, NativeFunc::Cdr));
            assert(has_native(heap@[env.id as int].vars, "cons"@, NativeFunc::ConsFn));
            assert(has_native(heap@[env.id as int].vars, "cond"@, NativeFunc::Cond));
            assert(has_native(heap@[env.id as int].vars, "define"@, NativeFunc::Define));
            assert(has_native(heap@[env.id as int].vars, "defmacro"@, NativeFunc::Defmacro));
            assert(has_native(heap@[env.id as int].vars, "eq?"@, NativeFunc::Eq));
            assert(has_native(heap@[env.id as int].vars, "eval"@, NativeFunc::EvalFn));
            assert(has_native(heap@[env.id as int].vars, "lambda"@, NativeFunc::Lambda));
            assert(has_native(heap@[env.id as int].vars, "set!"@, NativeFunc::SetBang));
        }
        define_native(env, heap, "quote", NativeFunc::Quote);
        proof {
            assert(has_native(heap@[env.id as int].vars, "atom?"@, NativeFunc::Atom));
            assert(has_native(heap@[env.id as int].vars, "car"@, NativeFunc::Car));
            assert(has_native(heap@[env.id as int].vars, "cdr"@, NativeFunc::Cdr));
            assert(has_native(heap@[env.id as int].vars, "cons"@, NativeFunc::ConsFn));
            assert(has_native(heap@[env.id as int].vars, "cond"@, NativeFunc::Cond));
            assert(has_native(heap@[env.id as int].vars, "define"@, NativeFunc::Define));
            assert(has_native(heap@[env.id as int].vars, "defmacro"@, NativeFunc::Defmacro));
            assert(has_native(heap@[env.id as int].vars, "eq?"@, NativeFunc::Eq));
            assert(has_native(heap@[env.id as int].vars, "eval"@, NativeFunc::EvalFn));
            assert(has_native(heap@[env.id as int].vars, "lambda"@, NativeFunc::Lambda));
            assert(has_native(heap@[env.id as int].vars, "set!"@, NativeFunc::SetBang));
            assert(has_native(heap@[env.id as int].vars, "quote"@, NativeFunc::Quote));
        }
        define_native(env, heap, "quasiquote", NativeFunc::Quasiquote);
        proof {
            assert(has_native(heap@[env.id as int].vars, "atom?"@, NativeFunc::Atom));
            assert(has_native(heap@[env.id as int].vars, "car"@, NativeFunc::Car));
            assert(has_native(heap@[env.id as int].vars, "cdr"@, NativeFunc::Cdr));
            assert(has_native(heap@[env.id as int].vars, "cons"@, NativeFunc::ConsFn));
            assert(has_native(heap@[env.id as int].vars, "cond"@, NativeFunc::Cond));
            assert(has_native(heap@[env.id as int].vars, "define"@, NativeFunc::Define));
            assert(has_native(heap@[env.id as int].vars, "defmacro"@, NativeFunc::Defmacro));
            assert(has_native(heap@[env.id as int].vars, "eq?"@, NativeFunc::Eq));
            assert(has_native(heap@[env.id as int].vars, "eval"@, NativeFunc::EvalFn));
            assert(has_native(heap@[env.id as int].vars, "lambda"@, NativeFunc::Lambda));
            assert(has_native(heap@[env.id as int].vars, "set!"@, NativeFunc::SetBang));
            assert(has_native(heap@[env.id as int].vars, "quote"@, NativeFunc::Quote));
            assert(has_native(heap@[env.id as int].vars, "quasiquote"@, NativeFunc::Quasiquote));
        }
        define_native(env, heap, "+", NativeFunc::NumAdd);
        proof {
            assert(has_native(heap@[env.id as int].vars, "atom?"@, NativeFunc::Atom));
            assert(has_native(heap@[env.id as int].vars, "car"@, NativeFunc::Car));
            assert(has_native(heap@[env.id as int].vars, "cdr"@, NativeFunc::Cdr));
            assert(has_native(heap@[env.id as int].vars, "cons"@, NativeFunc::ConsFn));
            assert(has_native(heap@[env.id as int].vars, "cond"@, NativeFunc::Cond));
            assert(has_native(heap@[env.id as int].vars, "define"@, NativeFunc::Define));
            assert(has_native(heap@[env.id as int].vars, "defmacro"@, NativeFunc::Defmacro));
            assert(has_native(heap@[env.id as int].vars, "eq?"@, NativeFunc::Eq));
            assert(has_native(heap@[env.id as int].vars, "eval"@, NativeFunc::EvalFn));
            assert(has_native(heap@[env.id as int].vars, "lambda"@, NativeFunc::Lambda));
            assert(has_native(heap@[env.id as int].vars, "set!"@, NativeFunc::SetBang));
            assert(has_native(heap@[env.id as int].vars, "quote"@, NativeFunc::Quote));
            assert(has_native(heap@[env.id as int].vars, "quasiquote"@, NativeFunc::Quasiquote));
            assert(has_native(heap@[env.id as int].vars, "+"@, NativeFunc::NumAdd));
        }
        define_native(env, heap, "-", NativeFunc::NumMinus);
        proof {
            assert(has_native(heap@[env.id as int].vars, "atom?"@, NativeFunc::Atom));
            assert(has_native(heap@[env.id as int].vars, "car"@, NativeFunc::Car));
            assert(has_native(heap@[env.id as int].vars, "cdr"@, NativeFunc::Cdr));
            assert(has_native(heap@[env.id as int].vars, "cons"@, NativeFunc::ConsFn));
            assert(has_native(heap@[env.id as int].vars, "cond"@, NativeFunc::Cond));
            assert(has_native(heap@[env.id as int].vars, "define"@, NativeFunc::Define));
            assert(has_native(heap@[env.id as int].vars, "defmacro"@, NativeFunc::Defmacro));
            assert(has_native(heap@[env.id as int].vars, "eq?"@, NativeFunc::Eq));
            assert(has_native(heap@[env.id as int].vars, "eval"@, NativeFunc::EvalFn));
            assert(has_native(heap@[env.id as int].vars, "lambda"@, NativeFunc::Lambda));
            assert(has_native(heap@[env.id as int].vars, "set!"@, NativeFunc::SetBang));
            assert(has_native(heap@[env.id as int].vars, "quote"@, NativeFunc::Quote));
            assert(has_native(heap@[env.id as int].vars, "quasiquote"@, NativeFunc::Quasiquote));
            assert(has_native(heap@[env.id as int].vars, "+"@, NativeFunc::NumAdd));
            assert(has_native(heap@[env.id as int].vars, "-"@, NativeFunc::NumMinus));
        }
        define_native(env, heap, "*", NativeFunc::NumMultiply);
        proof {
            assert(has_native(heap@[env.id as int].vars, "atom?"@, NativeFunc::Atom));
            assert(has_native(heap@[env.id as int].vars, "car"@, NativeFunc::Car));
            assert(has_native(heap@[env.id as int].vars, "cdr"@, NativeFunc::Cdr));
            assert(has_native(heap@[env.id as int].vars, "cons"@, NativeFunc::ConsFn));
            assert(has_native(heap@[env.id as int].vars, "cond"@, NativeFunc::Cond));
            assert(has_native(heap@[env.id as int].vars, "define"@, NativeFunc::Define));
            assert(has_native(heap@[env.id as int].vars, "defmacro"@, NativeFunc::Defmacro));
            assert(has_native(heap@[env.id as int].vars, "eq?"@, NativeFunc::Eq));
            assert(has_native(heap@[env.id as int].vars, "eval"@, NativeFunc::EvalFn));
            assert(has_native(heap@[env.id as int].vars, "lambda"@, NativeFunc::Lambda));
            assert(has_native(heap@[env.id as int].vars, "set!"@, NativeFunc::SetBang));
            assert(has_native(heap@[env.id as int].vars, "quote"@, NativeFunc::Quote));
            assert(has_native(heap@[env.id as int].vars, "quasiquote"@, NativeFunc::Quasiquote));
            assert(has_native(heap@[env.id as int].vars, "+"@, NativeFunc::NumAdd));
            assert(has_native(heap@[env.id as int].vars, "-"@, NativeFunc::NumMinus));
            assert(has_native(heap@[env.id as int].vars, "*"@, NativeFunc::NumMultiply));
        }
        define_native(env, heap, "/", NativeFunc::NumDivide);
        proof {
            assert(has_native(heap@[env.id as int].vars, "atom?"@, NativeFunc::Atom));
            assert(has_native(heap@[env.id as int].vars, "car"@, NativeFunc::Car));
            assert(has_native(heap@[env.id as int].vars, "cdr"@, NativeFunc::Cdr));
            assert(has_native(heap@[env.id as int].vars, "cons"@, NativeFunc::ConsFn));
            assert(has_native(heap@[env.id as int].vars, "cond"@, NativeFunc::Cond));
            assert(has_native(heap@[env.id as int].vars, "define"@, NativeFunc::Define));
            assert(has_native(heap@[env.id as int].vars, "defmacro"@, NativeFunc::Defmacro));
            assert(has_native(heap@[env.id as int].vars, "eq?"@, NativeFunc::Eq));
            assert(has_native(heap@[env.id as int].vars, "eval"@, NativeFunc::EvalFn));
            assert(has_native(heap@[env.id as int].vars, "lambda"@, NativeFunc::Lambda));
            assert(has_native(heap@[env.id as int].vars, "set!"@, NativeFunc::SetBang));
            assert(has_native(heap@[env.id as int].vars, "quote"@, NativeFunc::Quote));
            assert(has_native(heap@[env.id as int].vars, "quasiquote"@, NativeFunc::Quasiquote));
            assert(has_native(heap@[env.id as int].vars, "+"@, NativeFunc::NumAdd));
            assert(has_native(heap@[env.id as int].vars, "-"@, NativeFunc::NumMinus));
            assert(has_native(heap@[env.id as int].vars, "*"@, NativeFunc::NumMultiply));
            assert(has_native(heap@[env.id as int].vars, "/"@, NativeFunc::NumDivide));
        }
        define_native(env, heap, "num?", NativeFunc::IsNum);
        proof {
            assert(has_native(heap@[env.id as int].vars, "atom?"@, NativeFunc::Atom));
            assert(has_native(heap@[env.id as int].vars, "car"@, NativeFunc::Car));
            assert(has_native(heap@[env.id as int].vars, "cdr"@, NativeFunc::Cdr));
            assert(has_native(heap@[env.id as int].vars, "cons"@, NativeFunc::ConsFn));
            assert(has_native(heap@[env.id as int].vars, "cond"@, NativeFunc::Cond));
            assert(has_native(heap@[env.id as int].vars, "define"@, NativeFunc::Define));
            assert(has_native(heap@[env.id as int].vars, "defmacro"@, NativeFunc::Defmacro));
            assert(has_native(heap@[env.id as int].vars, "eq?"@, NativeFunc::Eq));
            assert(has_native(heap@[env.id as int].vars, "eval"@, NativeFunc::EvalFn));
            assert(has_native(heap@[env.id as int].vars, "lambda"@, NativeFunc::Lambda));
            assert(has_native(heap@[env.id as int].vars, "set!"@, NativeFunc::SetBang));
            assert(has_native(heap@[env.id as int].vars, "quote"@, NativeFunc::Quote));
            assert(has_native(heap@[env.id as int].vars, "quasiquote"@, NativeFunc::Quasiquote));
            assert(has_native(heap@[env.id as int].vars, "+"@, NativeFunc::NumAdd));
            assert(has_native(heap@[env.id as int].vars, "-"@, NativeFunc::NumMinus));
            assert(has_native(heap@[env.id as int].vars, "*"@, NativeFunc::NumMultiply));
            assert(has_native(heap@[env.id as int].vars, "/"@, NativeFunc::NumDivide));
            assert(has_native(heap@[env.id as int].vars, "num?"@, NativeFunc::IsNum));
        }
        env
    }
}


// ------------------------------------------------------------------
// Laws of the scope chain.
// ------------------------------------------------------------------

/// Law: defining a name and then looking it up yields exactly that value,
/// whatever was bound before.
pub proof fn lemma_define_then_lookup(hv: Seq<RecModel>, id: int, name: Seq<char>, v: Expr)
    requires
        0 <= id < hv.len(),
    ensures
        chain_lookup(hv.update(id, rec_define(hv[id], name, v)), id, name) == Option::Some(v),
{
    let hv2 = hv.update(id, rec_define(hv[id], name, v));
    assert(hv2[id].vars.contains_key(name));
    assert(chain_resolve(hv2, id, name) == Option::Some(id));
}

/// Law: `set!` on a name that is bound nowhere on the chain reports failure
/// and leaves every scope unchanged.
pub proof fn lemma_update_unbound(hv: Seq<RecModel>, id: int, name: Seq<char>, v: Expr)
    requires
        !chain_has(hv, id, name),
    ensures
        spec_chain_update(hv, id, name, v) == hv,
{
}

/// In a fresh scope with no parent, nothing is bound.
pub proof fn lemma_empty_env_unbound(hv: Seq<RecModel>, id: int, name: Seq<char>)
    requires
        0 <= id < hv.len(),
        hv[id].vars == Map::<Seq<char>, Expr>::empty(),
        hv[id].parent is None,
    ensures
        !chain_has(hv, id, name),
{
    assert(!hv[id].vars.contains_key(name));
}

/// Writing a record above `id` never changes what a walk from `id` sees:
/// the chain only descends through older scopes.
pub proof fn lemma_chain_resolve_above(
    hv: Seq<RecModel>,
    id: int,
    name: Seq<char>,
    j: int,
    r2: RecModel,
)
    requires
        id < j < hv.len(),
    ensures
        chain_resolve(hv.update(j, r2), id, name) == chain_resolve(hv, id, name),
        chain_lookup(hv.update(j, r2), id, name) == chain_lookup(hv, id, name),
    decreases id,
{
    let hv2 = hv.update(j, r2);
    if 0 <= id < hv.len() {
        assert(hv2[id] == hv[id]);
        if !hv[id].vars.contains_key(name) {
            match hv[id].parent {
                Option::Some(p) => {
                    if 0 <= p < id {
                        lemma_chain_resolve_above(hv, p, name, j, r2);
                    }
                },
                Option::None => {},
            }
        }
        lemma_chain_resolve(hv, id, name);
        lemma_chain_resolve(hv2, id, name);
    } else {
        if 0 <= id < hv2.len() {
            assert(hv2[id] == hv[id]);
        }
    }
}

/// Law, scope isolation: a binding made in a derived scope is invisible
/// from its parent, or from any scope older than the derived one.
pub proof fn lemma_scope_isolation(
    hv: Seq<RecModel>,
    outer: int,
    child: int,
    name: Seq<char>,
    v: Expr,
)
    requires
        outer < child < hv.len(),
    ensures
        chain_lookup(hv.update(child, rec_define(hv[child], name, v)), outer, name)
            == chain_lookup(hv, outer, name),
{
    lemma_chain_resolve_above(hv, outer, name, child, rec_define(hv[child], name, v));
}

/// Law, scope visibility: a name the derived scope does not bind itself
/// resolves exactly as it does in the parent scope.
pub proof fn lemma_scope_visibility(hv: Seq<RecModel>, child: int, p: int, name: Seq<char>)
    requires
        0 <= child < hv.len(),
        hv[child].parent == Option::Some(p),
        0 <= p < child,
        !hv[child].vars.contains_key(name),
    ensures
        chain_lookup(hv, child, name) == chain_lookup(hv, p, name),
{
}

/// Law, shadowing: a name the derived scope binds itself resolves to its
/// own binding, whatever the parent holds.
pub proof fn lemma_scope_shadowing(hv: Seq<RecModel>, child: int, name: Seq<char>)
    requires
        0 <= child < hv.len(),
        hv[child].vars.contains_key(name),
    ensures
        chain_lookup(hv, child, name) == Option::Some(hv[child].vars[name]),
{
}

} // verus!
