use vstd::prelude::*;
use crate::pyp::{
    PypTree, NodeModel, tgs_customers, tgs_tables, tgs_distinct, tgs_has_dish, tgs_dish_idx,
    table_total, model_ok, add_step, add_new_table_step, add_join_step, remove_step,
    remove_at_step, lemma_dish_idx_unique,
};
use crate::seqsum::{
    seg_sum, lemma_seg_sum_last, lemma_seg_sum_lower_bound, lemma_seg_sum_push,
    lemma_seg_sum_update, lemma_seg_sum_remove,
};

verus! {

/// The seating invariant: at every live node of a well-formed tree, the
/// cached `ncustomers` equals the sum of the per-table customer counts over
/// all of the node's restaurants, and the cached `ntables` equals the total
/// number of occupied tables. Every seating operation of the tree keeps
/// `wf`, so this holds after every interleaving of additions and removals.
pub proof fn lemma_seating_invariant(t: PypTree, i: int)
    requires
        t.wf(),
        t.live(i),
    ensures
        t.nodes@[i].ncustomers == tgs_customers(t.nodes@[i].model().tablegroups),
        t.nodes@[i].ntables == tgs_tables(t.nodes@[i].model().tablegroups),
{
    assert(model_ok(t.nodes@[i].model()));
}

/// The state a node passes through while `c` customers of a dish it did not
/// serve before are seated: exactly one new restaurant for that dish, holding
/// the `c` customers, appended behind the untouched original restaurants.
pub open spec fn round_trip_mid(s0: NodeModel, s: NodeModel, dish: u64, c: int) -> bool {
    if c == 0 {
        s == s0
    } else {
        exists|tables: Seq<usize>|
            {
                &&& s.tablegroups == s0.tablegroups.push((dish, tables))
                &&& table_total(tables) == c
                &&& 1 <= tables.len()
                &&& (forall|k: int| 0 <= k < tables.len() ==> 1 <= #[trigger] tables[k])
                &&& s.ncustomers == s0.ncustomers + c
                &&& s.ntables == s0.ntables + tables.len()
                &&& s.stop_count == s0.stop_count
                &&& s.pass_count == s0.pass_count
            }
    }
}

/// Appending a fresh dish keeps the restaurants' dishes distinct.
proof fn lemma_tgs_push_distinct(tgs: Seq<(u64, Seq<usize>)>, dish: u64, tables: Seq<usize>)
    requires
        tgs_distinct(tgs),
        !tgs_has_dish(tgs, dish),
    ensures
        tgs_distinct(tgs.push((dish, tables))),
        tgs_has_dish(tgs.push((dish, tables)), dish),
        tgs_dish_idx(tgs.push((dish, tables)), dish) == tgs.len() as int,
{
    let post = tgs.push((dish, tables));
    assert forall|a: int, b: int| 0 <= a < b < post.len() implies (#[trigger] post[a]).0 != (
    #[trigger] post[b]).0 by {
        if b == tgs.len() as int {
            assert(post[a] == tgs[a]);
            if tgs[a].0 == dish {
                assert(tgs_has_dish(tgs, dish));
                assert(false);
            }
        } else {
            assert(post[a] == tgs[a]);
            assert(post[b] == tgs[b]);
        }
    }
    assert(post[tgs.len() as int].0 == dish);
    assert(tgs_has_dish(post, dish));
    lemma_dish_idx_unique(post, dish, tgs.len() as int);
}

/// One more arriving customer moves the mid-state from `c` to `c + 1`.
proof fn lemma_round_trip_add(s0: NodeModel, pre: NodeModel, post: NodeModel, dish: u64, c: int)
    requires
        tgs_distinct(s0.tablegroups),
        !tgs_has_dish(s0.tablegroups, dish),
        0 <= c,
        round_trip_mid(s0, pre, dish, c),
        add_step(pre, post, dish),
    ensures
        round_trip_mid(s0, post, dish, c + 1),
{
    if c == 0 {
        assert(pre == s0);
        assert(add_new_table_step(pre, post, dish)) by {
            if !add_new_table_step(pre, post, dish) {
                let k = choose|k: int| add_join_step(pre, post, dish, k);
                assert(add_join_step(pre, post, dish, k));
                assert(false);
            }
        }
        assert(post.tablegroups == s0.tablegroups.push((dish, seq![1usize])));
        assert(table_total(seq![1usize]) == 1) by {
            assert(seg_sum(seq![1usize], 1, 1) == 0);
            assert(seg_sum(seq![1usize], 0, 1) == 1);
        }
        assert(forall|k: int| 0 <= k < seq![1usize].len() ==> 1 <= #[trigger] seq![1usize][k]);
        assert(round_trip_mid(s0, post, dish, 1));
    } else {
        let tables = choose|tables: Seq<usize>|
            {
                &&& pre.tablegroups == s0.tablegroups.push((dish, tables))
                &&& table_total(tables) == c
                &&& 1 <= tables.len()
                &&& (forall|k: int| 0 <= k < tables.len() ==> 1 <= #[trigger] tables[k])
                &&& pre.ncustomers == s0.ncustomers + c
                &&& pre.ntables == s0.ntables + tables.len()
                &&& pre.stop_count == s0.stop_count
                &&& pre.pass_count == s0.pass_count
            };
        lemma_tgs_push_distinct(s0.tablegroups, dish, tables);
        let t = tgs_dish_idx(pre.tablegroups, dish);
        assert(t == s0.tablegroups.len() as int);
        assert(pre.tablegroups[t].1 == tables);
        if add_new_table_step(pre, post, dish) {
            let tables2 = tables.push(1);
            assert(post.tablegroups =~= s0.tablegroups.push((dish, tables2))) by {
                assert(post.tablegroups == pre.tablegroups.update(t, (dish, tables2)));
            }
            lemma_seg_sum_push(tables, 1);
            assert(table_total(tables2) == c + 1);
            assert(forall|k: int| 0 <= k < tables2.len() ==> 1 <= #[trigger] tables2[k]);
            assert(round_trip_mid(s0, post, dish, c + 1));
        } else {
            let k = choose|k: int| add_join_step(pre, post, dish, k);
            assert(add_join_step(pre, post, dish, k));
            let tables2 = tables.update(k, (tables[k] + 1) as usize);
            assert(post.tablegroups =~= s0.tablegroups.push((dish, tables2)));
            lemma_seg_sum_update(tables, k, (tables[k] + 1) as usize);
            assert(table_total(tables2) == c + 1);
            assert forall|m: int| 0 <= m < tables2.len() implies 1 <= #[trigger] tables2[m] by {
                if m != k {
                    assert(tables2[m] == tables[m]);
                }
            }
            assert(round_trip_mid(s0, post, dish, c + 1));
        }
    }
}

/// One leaving customer moves the mid-state from `c` to `c - 1`; the last
/// one closes the dish's restaurant and restores the original state.
proof fn lemma_round_trip_remove(s0: NodeModel, pre: NodeModel, post: NodeModel, dish: u64, c: int)
    requires
        tgs_distinct(s0.tablegroups),
        !tgs_has_dish(s0.tablegroups, dish),
        1 <= c,
        round_trip_mid(s0, pre, dish, c),
        remove_step(pre, post, dish),
    ensures
        round_trip_mid(s0, post, dish, c - 1),
{
    let tables = choose|tables: Seq<usize>|
        {
            &&& pre.tablegroups == s0.tablegroups.push((dish, tables))
            &&& table_total(tables) == c
            &&& 1 <= tables.len()
            &&& (forall|k: int| 0 <= k < tables.len() ==> 1 <= #[trigger] tables[k])
            &&& pre.ncustomers == s0.ncustomers + c
            &&& pre.ntables == s0.ntables + tables.len()
            &&& pre.stop_count == s0.stop_count
            &&& pre.pass_count == s0.pass_count
        };
    lemma_tgs_push_distinct(s0.tablegroups, dish, tables);
    let t = tgs_dish_idx(pre.tablegroups, dish);
    assert(t == s0.tablegroups.len() as int);
    assert(pre.tablegroups[t].1 == tables);
    let k = choose|k: int| remove_at_step(pre, post, dish, k);
    assert(remove_at_step(pre, post, dish, k));
    if tables[k] > 1 {
        let tables2 = tables.update(k, (tables[k] - 1) as usize);
        assert(post.tablegroups =~= s0.tablegroups.push((dish, tables2)));
        lemma_seg_sum_update(tables, k, (tables[k] - 1) as usize);
        assert(table_total(tables2) == c - 1);
        assert forall|m: int| 0 <= m < tables2.len() implies 1 <= #[trigger] tables2[m] by {
            if m != k {
                assert(tables2[m] == tables[m]);
            }
        }
        lemma_seg_sum_lower_bound(tables2, 0, tables2.len() as int);
        assert(1 <= c - 1);
        assert(round_trip_mid(s0, post, dish, c - 1));
    } else if tables.len() > 1 {
        let tables2 = tables.remove(k);
        assert(post.tablegroups =~= s0.tablegroups.push((dish, tables2)));
        lemma_seg_sum_remove(tables, k);
        assert(table_total(tables2) == c - 1);
        assert forall|m: int| 0 <= m < tables2.len() implies 1 <= #[trigger] tables2[m] by {
            if m < k {
                assert(tables2[m] == tables[m]);
            } else {
                assert(tables2[m] == tables[m + 1]);
            }
        }
        lemma_seg_sum_lower_bound(tables2, 0, tables2.len() as int);
        assert(1 <= c - 1);
        assert(round_trip_mid(s0, post, dish, c - 1));
    } else {
        assert(tables.len() == 1);
        assert(table_total(tables) == tables[0]) by {
            lemma_seg_sum_last(tables, 0, 0);
        }
        assert(tables[k] == 1 && c == 1);
        assert(post.tablegroups =~= s0.tablegroups) by {
            assert(post.tablegroups == pre.tablegroups.remove(t));
            assert(pre.tablegroups.remove(t) =~= s0.tablegroups);
        }
        assert(post == s0);
        assert(round_trip_mid(s0, post, dish, 0));
    }
}

/// After the first `m` arrivals of the trace, the node is in the mid-state
/// holding `m` customers of the dish.
proof fn lemma_round_trip_adds(
    s0: NodeModel,
    trace: Seq<NodeModel>,
    dish: u64,
    n: nat,
    m: int,
)
    requires
        tgs_distinct(s0.tablegroups),
        !tgs_has_dish(s0.tablegroups, dish),
        trace.len() == 2 * n + 1,
        trace[0] == s0,
        forall|k: int| 0 <= k < n ==> add_step(#[trigger] trace[k], trace[k + 1], dish),
        0 <= m <= n,
    ensures
        round_trip_mid(s0, trace[m], dish, m),
    decreases m,
{
    if m == 0 {
        assert(round_trip_mid(s0, trace[0], dish, 0));
    } else {
        lemma_round_trip_adds(s0, trace, dish, n, m - 1);
        assert(add_step(trace[m - 1], trace[m], dish));
        lemma_round_trip_add(s0, trace[m - 1], trace[m], dish, m - 1);
    }
}

/// After `m` of the departures, the mid-state holds `n - m` customers.
proof fn lemma_round_trip_removes(
    s0: NodeModel,
    trace: Seq<NodeModel>,
    dish: u64,
    n: nat,
    m: int,
)
    requires
        tgs_distinct(s0.tablegroups),
        !tgs_has_dish(s0.tablegroups, dish),
        trace.len() == 2 * n + 1,
        trace[0] == s0,
        forall|k: int| 0 <= k < n ==> add_step(#[trigger] trace[k], trace[k + 1], dish),
        forall|k: int| n <= k < 2 * n ==> remove_step(#[trigger] trace[k], trace[k + 1], dish),
        0 <= m <= n,
    ensures
        round_trip_mid(s0, trace[n + m], dish, n - m),
    decreases m,
{
    if m == 0 {
        lemma_round_trip_adds(s0, trace, dish, n, n as int);
    } else {
        lemma_round_trip_removes(s0, trace, dish, n, m - 1);
        assert(remove_step(trace[n + m - 1], trace[n + m], dish));
        lemma_round_trip_remove(s0, trace[n + m - 1], trace[n + m], dish, n - (m - 1));
    }
}

/// The insert/remove inverse law: take a node that serves no customers of a
/// dish, seat `n` customers of that dish one by one (each joining or opening
/// a table, as the seating rule may choose), then remove `n` customers of
/// the dish one by one (each leaving whichever table the removal rule picks).
/// Whatever the choices were, the node returns exactly to its initial state:
/// the same restaurants, the same `ncustomers` and `ntables`, and the dish's
/// restaurant gone. The tree operations `add_customer_with_choices` and
/// `remove_customer` perform exactly these steps at every node they touch,
/// so a touched node whose dish was fresh returns to its prior state, and one
/// that also lost its children is detachable by `remove_from_parent`.
pub proof fn lemma_insert_remove_inverse(
    s0: NodeModel,
    trace: Seq<NodeModel>,
    dish: u64,
    n: nat,
)
    requires
        model_ok(s0),
        !tgs_has_dish(s0.tablegroups, dish),
        trace.len() == 2 * n + 1,
        trace[0] == s0,
        forall|k: int| 0 <= k < n ==> add_step(#[trigger] trace[k], trace[k + 1], dish),
        forall|k: int| n <= k < 2 * n ==> remove_step(#[trigger] trace[k], trace[k + 1], dish),
    ensures
        trace.last() == s0,
{
    lemma_round_trip_removes(s0, trace, dish, n, n as int);
    assert(round_trip_mid(s0, trace[2 * n as int], dish, 0));
}

} // verus!
