//! Dependency order of differences: a foreign key can only be added after the table it
//! references. Kahn's algorithm over the graph from table changes to foreign-key changes.
use vstd::prelude::*;

use crate::models::{DifferenceModel, ObjectModel, SchemaDifference, SchemaObject, SchemaObjectType};
use crate::strings::{contains_text, text_contains};

verus! {

/// `later` must come after `earlier`: `later` is a foreign-key change whose referenced table
/// occurs in the name of the table change `earlier`.
pub open spec fn depends_on(later: DifferenceModel, earlier: DifferenceModel) -> bool {
    &&& earlier.object_type == SchemaObjectType::Table
    &&& later.object_type == SchemaObjectType::ForeignKey
    &&& match later.source_value {
        Some(ObjectModel::ForeignKey(fk)) => contains_text(earlier.object_name, fk.referenced_table),
        _ => false,
    }
}

/// Positions as integers.
pub open spec fn as_ints(s: Seq<usize>) -> Seq<int> {
    s.map_values(|x: usize| x as int)
}

/// The models of a list of differences, identifiers included.
pub open spec fn models(s: Seq<SchemaDifference>) -> Seq<DifferenceModel> {
    s.map_values(|d: SchemaDifference| d@)
}

/// `p` lists each of `0..n` exactly once.
pub open spec fn is_index_permutation(p: Seq<int>, n: int) -> bool {
    &&& p.len() == n
    &&& forall|k: int| 0 <= k < n ==> 0 <= #[trigger] p[k] < n
    &&& forall|a: int, b: int| 0 <= a < b < n ==> p[a] != p[b]
}

/// `out` holds the elements of `inp`, each once, in some order.
pub open spec fn is_reordering<A>(out: Seq<A>, inp: Seq<A>) -> bool {
    &&& out.len() == inp.len()
    &&& exists|p: Seq<int>|
        #![trigger is_index_permutation(p, inp.len() as int)]
        is_index_permutation(p, inp.len() as int) && forall|k: int|
            0 <= k < out.len() ==> #[trigger] out[k] == inp[p[k]]
}

/// No difference comes before one that it depends on.
pub open spec fn respects_dependencies(s: Seq<DifferenceModel>) -> bool {
    forall|a: int, b: int|
        0 <= a < s.len() && 0 <= b < s.len() && #[trigger] depends_on(s[b], s[a]) ==> a < b
}

/// How many of the first `m` differences that `v` depends on are not yet placed.
pub open spec fn pending(d: Seq<DifferenceModel>, v: int, placed: Seq<bool>, m: nat) -> nat
    decreases m,
{
    if m == 0 {
        0
    } else {
        pending(d, v, placed, (m - 1) as nat) + if depends_on(d[v], d[m - 1]) && !placed[m - 1] {
            1nat
        } else {
            0nat
        }
    }
}

/// The differences among the first `m` that depend on `u`, in increasing order.
pub open spec fn dependents(d: Seq<DifferenceModel>, u: int, m: nat) -> Seq<int>
    decreases m,
{
    if m == 0 {
        Seq::empty()
    } else {
        let rest = dependents(d, u, (m - 1) as nat);
        if depends_on(d[m - 1], d[u]) {
            rest.push(m - 1)
        } else {
            rest
        }
    }
}

/// How many entries are set.
pub open spec fn count_set(s: Seq<bool>) -> nat
    decreases s.len(),
{
    if s.len() == 0 {
        0
    } else {
        count_set(s.drop_last()) + if s.last() {
            1nat
        } else {
            0nat
        }
    }
}

proof fn lemma_count_set_bound(s: Seq<bool>)
    ensures
        count_set(s) <= s.len(),
        count_set(s) == s.len() ==> forall|i: int| 0 <= i < s.len() ==> s[i],
    decreases s.len(),
{
    if s.len() > 0 {
        lemma_count_set_bound(s.drop_last());
        assert forall|i: int| 0 <= i < s.len() && count_set(s) == s.len() implies s[i] by {
            if i < s.len() - 1 {
                assert(s[i] == s.drop_last()[i]);
            }
        }
    }
}

proof fn lemma_count_set_all(s: Seq<bool>)
    requires
        forall|i: int| 0 <= i < s.len() ==> s[i],
    ensures
        count_set(s) == s.len(),
    decreases s.len(),
{
    if s.len() > 0 {
        lemma_count_set_all(s.drop_last());
    }
}

proof fn lemma_count_set_update(s: Seq<bool>, u: int)
    requires
        0 <= u < s.len(),
        !s[u],
    ensures
        count_set(s.update(u, true)) == count_set(s) + 1,
    decreases s.len(),
{
    if u < s.len() - 1 {
        assert(s.update(u, true).drop_last() == s.drop_last().update(u, true));
        lemma_count_set_update(s.drop_last(), u);
    } else {
        assert(s.update(u, true).drop_last() == s.drop_last());
    }
}

proof fn lemma_pending_bound(d: Seq<DifferenceModel>, v: int, placed: Seq<bool>, m: nat)
    ensures
        pending(d, v, placed, m) <= m,
    decreases m,
{
    if m > 0 {
        lemma_pending_bound(d, v, placed, (m - 1) as nat);
    }
}

proof fn lemma_pending_zero(d: Seq<DifferenceModel>, v: int, placed: Seq<bool>, m: nat)
    ensures
        pending(d, v, placed, m) == 0 <==> forall|u: int|
            0 <= u < m && #[trigger] depends_on(d[v], d[u]) ==> placed[u],
    decreases m,
{
    if m > 0 {
        lemma_pending_zero(d, v, placed, (m - 1) as nat);
    }
}

proof fn lemma_pending_place(d: Seq<DifferenceModel>, v: int, placed: Seq<bool>, u: int, m: nat)
    requires
        0 <= u < placed.len(),
        m <= placed.len(),
    ensures
        pending(d, v, placed.update(u, true), m) + (if u < m && depends_on(d[v], d[u])
            && !placed[u] {
            1nat
        } else {
            0nat
        }) == pending(d, v, placed, m),
    decreases m,
{
    if m > 0 {
        lemma_pending_place(d, v, placed, u, (m - 1) as nat);
    }
}

proof fn lemma_dependents_facts(d: Seq<DifferenceModel>, u: int, m: nat)
    ensures
        forall|k: int|
            0 <= k < dependents(d, u, m).len() ==> 0 <= #[trigger] dependents(d, u, m)[k] < m
                && depends_on(d[dependents(d, u, m)[k]], d[u]),
        forall|a: int, b: int|
            0 <= a < b < dependents(d, u, m).len() ==> dependents(d, u, m)[a] < dependents(
                d,
                u,
                m,
            )[b],
        forall|v: int|
            0 <= v < m && depends_on(d[v], d[u]) ==> #[trigger] dependents(d, u, m).contains(v),
    decreases m,
{
    if m > 0 {
        lemma_dependents_facts(d, u, (m - 1) as nat);
        let rest = dependents(d, u, (m - 1) as nat);
        let cur = dependents(d, u, m);
        if depends_on(d[m - 1], d[u]) {
            assert(cur == rest.push(m - 1));
            assert forall|v: int| 0 <= v < m && depends_on(d[v], d[u]) implies #[trigger] cur.contains(
                v,
            ) by {
                if v < m - 1 {
                    assert(rest.contains(v));
                    let k = choose|k: int| 0 <= k < rest.len() && rest[k] == v;
                    assert(cur[k] == v);
                } else {
                    assert(cur[rest.len() as int] == v);
                }
            }
        } else {
            assert(cur == rest);
            assert forall|v: int| 0 <= v < m && depends_on(d[v], d[u]) implies #[trigger] cur.contains(
                v,
            ) by {
                assert(rest.contains(v));
            }
        }
    }
}

proof fn lemma_count_set_none(n: nat)
    ensures
        count_set(Seq::new(n, |i: int| false)) == 0,
    decreases n,
{
    if n > 0 {
        assert(Seq::new(n, |i: int| false).drop_last() == Seq::new((n - 1) as nat, |i: int| false));
        lemma_count_set_none((n - 1) as nat);
    }
}

/// Whether difference `later` depends on difference `earlier`.
fn depends(d: &Vec<SchemaDifference>, later: usize, earlier: usize) -> (r: bool)
    requires
        later < d.len(),
        earlier < d.len(),
    ensures
        r == depends_on(d@[later as int]@, d@[earlier as int]@),
{
    if d[earlier].object_type != SchemaObjectType::Table {
        return false;
    }
    if d[later].object_type != SchemaObjectType::ForeignKey {
        return false;
    }
    match &d[later].source_value {
        Some(SchemaObject::ForeignKey(fk)) => text_contains(
            d[earlier].object_name.as_str(),
            fk.referenced_table.as_str(),
        ),
        _ => false,
    }
}

/// Puts the differences in an order in which every foreign-key change comes after the table
/// changes it depends on. Kahn's algorithm; when some difference cannot be placed (which the
/// proof shows never happens, the graph having no cycle) the list is returned as it came.
pub fn order_by_dependencies(differences: Vec<SchemaDifference>) -> (r: Vec<SchemaDifference>)
    ensures
        is_reordering(models(r@), models(differences@)),
        respects_dependencies(models(r@)),
{
    let n = differences.len();
    let ghost d = models(differences@);
    // Graph: who depends on whom, and how many pending dependencies each has.
    let mut adj: Vec<Vec<usize>> = Vec::new();
    for u in 0..n
        invariant
            n == differences.len(),
            d == models(differences@),
            adj.len() == u,
            forall|w: int| 0 <= w < u ==> #[trigger] as_ints(adj@[w]@) == dependents(d, w, n as nat),
    {
        let mut row: Vec<usize> = Vec::new();
        for v in 0..n
            invariant
                n == differences.len(),
                d == models(differences@),
                u < n,
                as_ints(row@) == dependents(d, u as int, v as nat),
        {
            let ghost before = row@;
            if depends(&differences, v, u) {
                row.push(v);
                assert(as_ints(row@) =~= before.map_values(|x: usize| x as int).push(v as int));
            }
        }
        adj.push(row);
    }
    let ghost none_placed = Seq::new(n as nat, |i: int| false);
    let mut indeg: Vec<usize> = Vec::new();
    for v in 0..n
        invariant
            n == differences.len(),
            d == models(differences@),
            none_placed == Seq::new(n as nat, |i: int| false),
            indeg.len() == v,
            forall|w: int| 0 <= w < v ==> #[trigger] indeg@[w] == pending(d, w, none_placed, n as nat),
    {
        let mut count: usize = 0;
        for u in 0..n
            invariant
                n == differences.len(),
                d == models(differences@),
                none_placed == Seq::new(n as nat, |i: int| false),
                v < n,
                count == pending(d, v as int, none_placed, u as nat),
        {
            proof {
                lemma_pending_bound(d, v as int, none_placed, u as nat);
            }
            if depends(&differences, v, u) {
                count = count + 1;
            }
        }
        indeg.push(count);
    }
    // Kahn's algorithm.
    let mut placed: Vec<bool> = Vec::new();
    for i in 0..n
        invariant
            placed@ == Seq::new(i as nat, |k: int| false),
    {
        placed.push(false);
        assert(placed@ =~= Seq::new((i + 1) as nat, |k: int| false));
    }
    assert(placed@ =~= none_placed);
    proof {
        lemma_count_set_none(n as nat);
    }
    let mut stack: Vec<usize> = Vec::new();
    for v in 0..n
        invariant
            n == differences.len(),
            indeg.len() == n,
            placed@ == none_placed,
            forall|k: int| 0 <= k < stack.len() ==> #[trigger] stack@[k] < v && indeg@[stack@[k] as int] == 0,
            forall|a: int, b: int| 0 <= a < b < stack.len() ==> stack@[a] < stack@[b],
            forall|w: int| 0 <= w < v && indeg@[w] == 0 ==> #[trigger] stack@.contains(w as usize),
    {
        if indeg[v] == 0 {
            let ghost before = stack@;
            stack.push(v);
            assert forall|w: int| 0 <= w < v + 1 && indeg@[w] == 0 implies #[trigger] stack@.contains(w as usize) by {
                if w < v {
                    assert(before.contains(w as usize));
                    let k = choose|k: int| 0 <= k < before.len() && before[k] == w as usize;
                    assert(stack@[k] == w as usize);
                } else {
                    assert(stack@[before.len() as int] == w as usize);
                }
            }
        }
    }
    let mut order: Vec<usize> = Vec::new();
    while stack.len() > 0
        invariant
            n == differences.len(),
            d == models(differences@),
            adj.len() == n,
            forall|w: int| 0 <= w < n ==> #[trigger] as_ints(adj@[w]@) == dependents(d, w, n as nat),
            indeg.len() == n,
            placed.len() == n,
            forall|v: int| 0 <= v < n && !placed@[v] ==> #[trigger] indeg@[v] == pending(d, v, placed@, n as nat),
            forall|k: int| 0 <= k < stack.len() ==> #[trigger] stack@[k] < n && !placed@[stack@[k] as int] && indeg@[stack@[k] as int] == 0,
            forall|a: int, b: int| 0 <= a < b < stack.len() ==> stack@[a] != stack@[b],
            forall|v: int| 0 <= v < n && !placed@[v] && indeg@[v] == 0 ==> #[trigger] stack@.contains(v as usize),
            order.len() == count_set(placed@),
            forall|k: int| 0 <= k < order.len() ==> #[trigger] order@[k] < n && placed@[order@[k] as int],
            forall|a: int, b: int| 0 <= a < b < order.len() ==> order@[a] != order@[b],
            forall|v: int| 0 <= v < n && placed@[v] ==> #[trigger] order@.contains(v as usize),
            forall|k: int, u: int| 0 <= k < order.len() && 0 <= u < n && #[trigger] depends_on(d[order@[k] as int], d[u]) ==> placed@[u],
            forall|a: int, b: int| 0 <= a < order.len() && 0 <= b < order.len() && #[trigger] depends_on(d[order@[b] as int], d[order@[a] as int]) ==> a < b,
        decreases n - order.len(),
    {
        proof {
            lemma_count_set_bound(placed@);
        }
        let ghost pre_stack = stack@;
        let u = stack.pop().unwrap();
        let ghost old_placed = placed@;
        let ghost old_order = order@;
        let ghost old_stack = stack@;
        proof {
            lemma_pending_zero(d, u as int, old_placed, n as nat);
            lemma_count_set_update(old_placed, u as int);
            lemma_dependents_facts(d, u as int, n as nat);
            // Nothing placed depends on `u`, which is not placed yet.
            assert forall|k: int| 0 <= k < old_order.len() implies !depends_on(d[old_order[k] as int], d[u as int]) by {}
        }
        order.push(u);
        placed.set(u, true);
        proof {
            assert forall|v: int| 0 <= v < n && placed@[v] implies #[trigger] order@.contains(v as usize) by {
                if v == u {
                    assert(order@[old_order.len() as int] == u);
                } else {
                    assert(old_placed[v]);
                    assert(old_order.contains(v as usize));
                    let k = choose|k: int| 0 <= k < old_order.len() && old_order[k] == v as usize;
                    assert(order@[k] == v as usize);
                }
            }
            assert forall|v: int| 0 <= v < n && !placed@[v] implies #[trigger] indeg@[v] == pending(d, v, placed@, n as nat) + (if depends_on(d[v], d[u as int]) { 1nat } else { 0nat }) by {
                lemma_pending_place(d, v, old_placed, u as int, n as nat);
            }
        }
        let ghost row = as_ints(adj@[u as int]@);
        proof {
            lemma_dependents_facts(d, u as int, n as nat);
            assert(row == dependents(d, u as int, n as nat));
            assert(row.subrange(0, row.len() as int) =~= row);
            assert forall|v: int| 0 <= v < n implies (row.contains(v) <==> depends_on(d[v], d[u as int])) by {
                if row.contains(v) {
                    let j = choose|j: int| 0 <= j < row.len() && row[j] == v;
                    assert(depends_on(d[row[j]], d[u as int]));
                }
            }
            assert forall|v: int| 0 <= v < n && #[trigger] depends_on(d[v], d[u as int]) implies !placed@[v] || v == u by {
                if placed@[v] && v != u {
                    assert(old_placed[v]);
                    assert(old_order.contains(v as usize));
                    let j = choose|j: int| 0 <= j < old_order.len() && old_order[j] == v as usize;
                    assert(depends_on(d[old_order[j] as int], d[u as int]));
                }
            }
            assert forall|w: int| 0 <= w < n && !placed@[w] && indeg@[w] == 0 && !row.subrange(0, row.len() as int).contains(w) implies #[trigger] stack@.contains(w as usize) by {
                assert(w != u);
                assert(!old_placed[w]);
                assert(!row.contains(w));
                assert(!depends_on(d[w], d[u as int]));
                assert(indeg@[w] == pending(d, w, old_placed, n as nat));
                assert(pre_stack.contains(w as usize));
                let j = choose|j: int| 0 <= j < pre_stack.len() && pre_stack[j] == w as usize;
                assert(j < pre_stack.len() - 1);
                assert(stack@[j] == w as usize);
            }
        }
        let mut k: usize = 0;
        while k < adj[u].len()
            invariant
                n == differences.len(),
                d == models(differences@),
                adj.len() == n,
                forall|w: int| 0 <= w < n ==> #[trigger] as_ints(adj@[w]@) == dependents(d, w, n as nat),
                u < n,
                row == dependents(d, u as int, n as nat),
                row == as_ints(adj@[u as int]@),
                row.len() == adj@[u as int].len(),
                k <= adj@[u as int].len(),
                indeg.len() == n,
                placed.len() == n,
                placed@[u as int],
                forall|v: int| 0 <= v < n && !placed@[v] ==> #[trigger] indeg@[v] == pending(d, v, placed@, n as nat) + (if row.subrange(k as int, row.len() as int).contains(v) { 1nat } else { 0nat }),
                forall|v: int| 0 <= v < n && #[trigger] depends_on(d[v], d[u as int]) ==> !placed@[v] || v == u,
                forall|j: int| 0 <= j < stack.len() ==> #[trigger] stack@[j] < n && !placed@[stack@[j] as int] && indeg@[stack@[j] as int] == 0,
                forall|a: int, b: int| 0 <= a < b < stack.len() ==> stack@[a] != stack@[b],
                forall|v: int| 0 <= v < n && !placed@[v] && indeg@[v] == 0 && !row.subrange(k as int, row.len() as int).contains(v) ==> #[trigger] stack@.contains(v as usize),
            decreases adj@[u as int].len() - k,
        {
            proof {
                lemma_dependents_facts(d, u as int, n as nat);
            }
            let v = adj[u][k];
            assert(row[k as int] == v as int);
            let ghost rest_before = row.subrange(k as int, row.len() as int);
            let ghost rest_after = row.subrange(k + 1, row.len() as int);
            proof {
                assert(rest_before.contains(v as int)) by {
                    assert(rest_before[0] == v as int);
                }
                assert forall|w: int| rest_after.contains(w) implies rest_before.contains(w) && w != v as int by {
                    let j = choose|j: int| 0 <= j < rest_after.len() && rest_after[j] == w;
                    assert(rest_before[j + 1] == w);
                }
                assert forall|w: int| rest_before.contains(w) && w != v as int implies rest_after.contains(w) by {
                    let j = choose|j: int| 0 <= j < rest_before.len() && rest_before[j] == w;
                    assert(j != 0);
                    assert(rest_after[j - 1] == w);
                }
            }
            let deg = indeg[v];
            let ghost stack0 = stack@;
            let ghost indeg0 = indeg@;
            indeg.set(v, deg - 1);
            if deg - 1 == 0 {
                proof {
                    assert(!stack@.contains(v));
                }
                stack.push(v);
            }
            proof {
                assert forall|w: int| 0 <= w < n && !placed@[w] && indeg@[w] == 0 && !rest_after.contains(w) implies #[trigger] stack@.contains(w as usize) by {
                    if w == v as int {
                        assert(stack@[stack0.len() as int] == v);
                    } else {
                        assert(!rest_before.contains(w));
                        assert(indeg0[w] == 0);
                        assert(stack0.contains(w as usize));
                        let j = choose|j: int| 0 <= j < stack0.len() && stack0[j] == w as usize;
                        assert(stack@[j] == w as usize);
                    }
                }
            }
            k = k + 1;
        }
        proof {
            assert(row.subrange(k as int, row.len() as int) =~= Seq::<int>::empty());
        }
    }
    proof {
        lemma_count_set_bound(placed@);
        // Every difference has been placed.
        assert forall|v: int| 0 <= v < n implies placed@[v] by {
            if !placed@[v] {
                lemma_pending_zero(d, v, placed@, n as nat);
                assert(!stack@.contains(v as usize));
                assert(indeg@[v] != 0);
                let u = choose|u: int| 0 <= u < n && depends_on(d[v], d[u]) && !placed@[u];
                lemma_pending_zero(d, u, placed@, n as nat);
                assert(indeg@[u] == 0);
                assert(!stack@.contains(u as usize));
            }
        }
    }
    proof {
        lemma_count_set_all(placed@);
    }
    if order.len() != n {
        return differences;
    }
    let mut out: Vec<SchemaDifference> = Vec::new();
    for k in 0..n
        invariant
            n == differences.len(),
            d == models(differences@),
            order.len() == n,
            forall|j: int| 0 <= j < n ==> #[trigger] order@[j] < n,
            out.len() == k,
            forall|j: int| 0 <= j < k ==> #[trigger] out@[j]@ == d[order@[j] as int],
    {
        out.push(differences[order[k]].clone());
    }
    proof {
        let p = as_ints(order@);
        assert(is_index_permutation(p, n as int));
        assert(models(out@).len() == d.len());
        assert forall|k: int| 0 <= k < models(out@).len() implies #[trigger] models(out@)[k] == d[p[k]] by {}
        assert forall|a: int, b: int| 0 <= a < models(out@).len() && 0 <= b < models(out@).len() && #[trigger] depends_on(models(out@)[b], models(out@)[a]) implies a < b by {
            assert(models(out@)[b] == d[order@[b] as int]);
            assert(models(out@)[a] == d[order@[a] as int]);
        }
    }
    out
}

} // verus!
