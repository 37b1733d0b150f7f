use vstd::prelude::*;
use vstd::pervasive::VecAdditionalExecFns;
use crate::seqsum::{
    seg_sum, lemma_seg_sum_split, lemma_seg_sum_last, lemma_seg_sum_nonneg,
    lemma_seg_sum_lower_bound, lemma_seg_sum_push, lemma_seg_sum_update, lemma_seg_sum_remove,
};
use crate::rng::sample_weighted_index;

verus! {

/// One dish's restaurant at a node: the ordered list of per-table customer
/// counts for that dish.
pub struct Restaurant {
    pub dish: u64,
    pub tables: Vec<usize>,
}

/// One node of a Pitman-Yor process tree. Nodes live in an arena and refer to
/// each other by index; `parent` is absent exactly at the root.
pub struct PypNode {
    pub live: bool,
    pub parent: Option<usize>,
    pub children: Vec<(u64, usize)>,
    pub tablegroups: Vec<Restaurant>,
    pub ntables: usize,
    pub ncustomers: usize,
    pub stop_count: usize,
    pub pass_count: usize,
    pub depth: usize,
    pub context: u64,
}

/// A hierarchical Pitman-Yor tree held in an arena: node 0 is the root, freed
/// slots are kept on a free list and reused.
pub struct PypTree {
    pub nodes: Vec<PypNode>,
    pub free: Vec<usize>,
}

/// The seating state of one node, abstracted from the arena: each restaurant
/// is a dish paired with its per-table customer counts.
#[verifier::ext_equal]
pub struct NodeModel {
    pub tablegroups: Seq<(u64, Seq<usize>)>,
    pub ncustomers: int,
    pub ntables: int,
    pub stop_count: int,
    pub pass_count: int,
}

/// Customers seated in one restaurant.
pub open spec fn table_total(tables: Seq<usize>) -> int {
    seg_sum(tables, 0, tables.len() as int)
}

/// Customers seated at a node, over all of its restaurants.
pub open spec fn tgs_customers(tgs: Seq<(u64, Seq<usize>)>) -> int
    decreases tgs.len(),
{
    if tgs.len() == 0 {
        0
    } else {
        tgs_customers(tgs.drop_last()) + table_total(tgs.last().1)
    }
}

/// Tables open at a node, over all of its restaurants.
pub open spec fn tgs_tables(tgs: Seq<(u64, Seq<usize>)>) -> int
    decreases tgs.len(),
{
    if tgs.len() == 0 {
        0
    } else {
        tgs_tables(tgs.drop_last()) + tgs.last().1.len()
    }
}

pub open spec fn tgs_has_dish(tgs: Seq<(u64, Seq<usize>)>, dish: u64) -> bool {
    exists|i: int| 0 <= i < tgs.len() && (#[trigger] tgs[i]).0 == dish
}

/// The index of the dish's restaurant; meaningful only when the dish is
/// served and the dishes are distinct.
pub open spec fn tgs_dish_idx(tgs: Seq<(u64, Seq<usize>)>, dish: u64) -> int {
    choose|i: int| 0 <= i < tgs.len() && (#[trigger] tgs[i]).0 == dish
}

pub open spec fn tgs_distinct(tgs: Seq<(u64, Seq<usize>)>) -> bool {
    forall|i: int, j: int|
        0 <= i < j < tgs.len() ==> (#[trigger] tgs[i]).0 != (#[trigger] tgs[j]).0
}

/// Customers seated for one dish.
pub open spec fn dish_customers(tgs: Seq<(u64, Seq<usize>)>, dish: u64) -> int {
    if tgs_has_dish(tgs, dish) {
        table_total(tgs[tgs_dish_idx(tgs, dish)].1)
    } else {
        0
    }
}

/// Tables open for one dish.
pub open spec fn dish_tables(tgs: Seq<(u64, Seq<usize>)>, dish: u64) -> int {
    if tgs_has_dish(tgs, dish) {
        tgs[tgs_dish_idx(tgs, dish)].1.len() as int
    } else {
        0
    }
}

/// The seating invariant of one node: the cached totals agree with the
/// per-table counts, dishes are distinct, and every restaurant keeps at least
/// one table with every table seating at least one customer.
pub open spec fn model_ok(m: NodeModel) -> bool {
    &&& m.ncustomers == tgs_customers(m.tablegroups)
    &&& m.ntables == tgs_tables(m.tablegroups)
    &&& tgs_distinct(m.tablegroups)
    &&& forall|i: int| 0 <= i < m.tablegroups.len() ==> 1 <= (#[trigger] m.tablegroups[i]).1.len()
    &&& forall|i: int, k: int|
        0 <= i < m.tablegroups.len() && 0 <= k < m.tablegroups[i].1.len() ==> 1 <= #[trigger] m
            .tablegroups[i].1[k]
}

impl PypNode {
    /// The seating state of this node.
    pub open spec fn model(self) -> NodeModel {
        NodeModel {
            tablegroups: Seq::new(
                self.tablegroups@.len(),
                |i: int| (self.tablegroups@[i].dish, self.tablegroups@[i].tables@),
            ),
            ncustomers: self.ncustomers as int,
            ntables: self.ntables as int,
            stop_count: self.stop_count as int,
            pass_count: self.pass_count as int,
        }
    }

    /// The fields a seating step never touches.
    pub open spec fn same_shape(self, other: PypNode) -> bool {
        &&& self.live == other.live
        &&& self.parent == other.parent
        &&& self.children == other.children
        &&& self.depth == other.depth
        &&& self.context == other.context
    }
}

/// A customer of `dish` joins the existing table `k`.
pub open spec fn add_join_step(pre: NodeModel, post: NodeModel, dish: u64, k: int) -> bool {
    let t = tgs_dish_idx(pre.tablegroups, dish);
    let tables = pre.tablegroups[t].1;
    &&& tgs_has_dish(pre.tablegroups, dish)
    &&& 0 <= k < tables.len()
    &&& tables[k] < usize::MAX
    &&& pre.ncustomers < usize::MAX
    &&& post == NodeModel {
        tablegroups: pre.tablegroups.update(
            t,
            (dish, tables.update(k, (tables[k] + 1) as usize)),
        ),
        ncustomers: pre.ncustomers + 1,
        ntables: pre.ntables,
        stop_count: pre.stop_count,
        pass_count: pre.pass_count,
    }
}

/// A customer of `dish` opens a new table, joining the dish's restaurant or
/// founding it.
pub open spec fn add_new_table_step(pre: NodeModel, post: NodeModel, dish: u64) -> bool {
    &&& pre.ncustomers < usize::MAX
    &&& pre.ntables < usize::MAX
    &&& if tgs_has_dish(pre.tablegroups, dish) {
        let t = tgs_dish_idx(pre.tablegroups, dish);
        post == NodeModel {
            tablegroups: pre.tablegroups.update(t, (dish, pre.tablegroups[t].1.push(1))),
            ncustomers: pre.ncustomers + 1,
            ntables: pre.ntables + 1,
            stop_count: pre.stop_count,
            pass_count: pre.pass_count,
        }
    } else {
        post == NodeModel {
            tablegroups: pre.tablegroups.push((dish, seq![1usize])),
            ncustomers: pre.ncustomers + 1,
            ntables: pre.ntables + 1,
            stop_count: pre.stop_count,
            pass_count: pre.pass_count,
        }
    }
}

/// One customer of `dish` arrives, at whichever table.
pub open spec fn add_step(pre: NodeModel, post: NodeModel, dish: u64) -> bool {
    ||| add_new_table_step(pre, post, dish)
    ||| exists|k: int| add_join_step(pre, post, dish, k)
}

/// One customer of `dish` leaves table `k`; an emptied table closes, and an
/// emptied restaurant is dropped.
pub open spec fn remove_at_step(pre: NodeModel, post: NodeModel, dish: u64, k: int) -> bool {
    let t = tgs_dish_idx(pre.tablegroups, dish);
    let tables = pre.tablegroups[t].1;
    &&& tgs_has_dish(pre.tablegroups, dish)
    &&& 0 <= k < tables.len()
    &&& 1 <= tables[k]
    &&& if tables[k] > 1 {
        post == NodeModel {
            tablegroups: pre.tablegroups.update(
                t,
                (dish, tables.update(k, (tables[k] - 1) as usize)),
            ),
            ncustomers: pre.ncustomers - 1,
            ntables: pre.ntables,
            stop_count: pre.stop_count,
            pass_count: pre.pass_count,
        }
    } else if tables.len() > 1 {
        post == NodeModel {
            tablegroups: pre.tablegroups.update(t, (dish, tables.remove(k))),
            ncustomers: pre.ncustomers - 1,
            ntables: pre.ntables - 1,
            stop_count: pre.stop_count,
            pass_count: pre.pass_count,
        }
    } else {
        post == NodeModel {
            tablegroups: pre.tablegroups.remove(t),
            ncustomers: pre.ncustomers - 1,
            ntables: pre.ntables - 1,
            stop_count: pre.stop_count,
            pass_count: pre.pass_count,
        }
    }
}

/// One customer of `dish` leaves, from whichever table.
pub open spec fn remove_step(pre: NodeModel, post: NodeModel, dish: u64) -> bool {
    exists|k: int| remove_at_step(pre, post, dish, k)
}

/// Whether removing a customer from table `k` of `dish` closes that table.
pub open spec fn unseat_closes_table(pre: NodeModel, dish: u64, k: int) -> bool {
    pre.tablegroups[tgs_dish_idx(pre.tablegroups, dish)].1[k] == 1
}

/// Joining table `k` of `dish` is possible without overflowing a counter.
pub open spec fn can_join(m: NodeModel, dish: u64, k: int) -> bool {
    &&& tgs_has_dish(m.tablegroups, dish)
    &&& 0 <= k < m.tablegroups[tgs_dish_idx(m.tablegroups, dish)].1.len()
    &&& m.tablegroups[tgs_dish_idx(m.tablegroups, dish)].1[k] < usize::MAX
    &&& m.ncustomers < usize::MAX
}

/// Opening a new table for `dish` is possible without overflowing a counter.
pub open spec fn can_open(m: NodeModel) -> bool {
    m.ncustomers < usize::MAX && m.ntables < usize::MAX
}

/// `k` names a table of `dish` that a customer can leave.
pub open spec fn can_unseat(m: NodeModel, dish: u64, k: int) -> bool {
    &&& tgs_has_dish(m.tablegroups, dish)
    &&& 0 <= k < m.tablegroups[tgs_dish_idx(m.tablegroups, dish)].1.len()
}

// ------------------------------------------------------------------
// Lemmas about the totals.
// ------------------------------------------------------------------
pub proof fn lemma_tgs_push(tgs: Seq<(u64, Seq<usize>)>, e: (u64, Seq<usize>))
    ensures
        tgs_customers(tgs.push(e)) == tgs_customers(tgs) + table_total(e.1),
        tgs_tables(tgs.push(e)) == tgs_tables(tgs) + e.1.len(),
{
    assert(tgs.push(e).drop_last() =~= tgs);
    assert(tgs.push(e).last() == e);
}

pub proof fn lemma_tgs_update(tgs: Seq<(u64, Seq<usize>)>, t: int, e: (u64, Seq<usize>))
    requires
        0 <= t < tgs.len(),
    ensures
        tgs_customers(tgs.update(t, e)) == tgs_customers(tgs) - table_total(tgs[t].1)
            + table_total(e.1),
        tgs_tables(tgs.update(t, e)) == tgs_tables(tgs) - tgs[t].1.len() + e.1.len(),
    decreases tgs.len(),
{
    let u = tgs.update(t, e);
    if t == tgs.len() - 1 {
        assert(u.drop_last() =~= tgs.drop_last());
        assert(u.last() == e);
        assert(tgs.last() == tgs[t]);
    } else {
        assert(u.drop_last() =~= tgs.drop_last().update(t, e));
        assert(u.last() == tgs.last());
        assert(tgs.drop_last()[t] == tgs[t]);
        lemma_tgs_update(tgs.drop_last(), t, e);
    }
}

pub proof fn lemma_tgs_remove(tgs: Seq<(u64, Seq<usize>)>, t: int)
    requires
        0 <= t < tgs.len(),
    ensures
        tgs_customers(tgs.remove(t)) == tgs_customers(tgs) - table_total(tgs[t].1),
        tgs_tables(tgs.remove(t)) == tgs_tables(tgs) - tgs[t].1.len(),
    decreases tgs.len(),
{
    let u = tgs.remove(t);
    if t == tgs.len() - 1 {
        assert(u =~= tgs.drop_last());
        assert(tgs.last() == tgs[t]);
    } else {
        assert(u.drop_last() =~= tgs.drop_last().remove(t));
        assert(u.last() == tgs.last());
        assert(tgs.drop_last()[t] == tgs[t]);
        lemma_tgs_remove(tgs.drop_last(), t);
    }
}

pub proof fn lemma_table_total_nonneg(tables: Seq<usize>)
    ensures
        table_total(tables) >= 0,
{
    lemma_seg_sum_nonneg(tables, 0, tables.len() as int);
}

pub proof fn lemma_tgs_customers_nonneg(tgs: Seq<(u64, Seq<usize>)>)
    ensures
        tgs_customers(tgs) >= 0,
    decreases tgs.len(),
{
    if tgs.len() > 0 {
        lemma_tgs_customers_nonneg(tgs.drop_last());
        lemma_table_total_nonneg(tgs.last().1);
    }
}

pub proof fn lemma_tgs_tables_nonneg(tgs: Seq<(u64, Seq<usize>)>)
    ensures
        tgs_tables(tgs) >= 0,
    decreases tgs.len(),
{
    if tgs.len() > 0 {
        lemma_tgs_tables_nonneg(tgs.drop_last());
    }
}

/// The customers of one restaurant never exceed the node total.
pub proof fn lemma_restaurant_le_total(tgs: Seq<(u64, Seq<usize>)>, t: int)
    requires
        0 <= t < tgs.len(),
    ensures
        table_total(tgs[t].1) <= tgs_customers(tgs),
        tgs[t].1.len() <= tgs_tables(tgs),
    decreases tgs.len(),
{
    if t == tgs.len() - 1 {
        lemma_tgs_customers_nonneg(tgs.drop_last());
        lemma_tgs_tables_nonneg(tgs.drop_last());
        assert(tgs.last() == tgs[t]);
    } else {
        lemma_restaurant_le_total(tgs.drop_last(), t);
        assert(tgs.drop_last()[t] == tgs[t]);
        lemma_table_total_nonneg(tgs.last().1);
    }
}

/// Under distinct dishes, any witness index for a dish is the chosen one.
pub proof fn lemma_dish_idx_unique(tgs: Seq<(u64, Seq<usize>)>, dish: u64, i: int)
    requires
        tgs_distinct(tgs),
        0 <= i < tgs.len(),
        tgs[i].0 == dish,
    ensures
        tgs_has_dish(tgs, dish),
        tgs_dish_idx(tgs, dish) == i,
{
    assert(tgs_has_dish(tgs, dish));
    let w = tgs_dish_idx(tgs, dish);
    if w != i {
        if w < i {
            assert(tgs[w].0 != tgs[i].0);
        } else {
            assert(tgs[i].0 != tgs[w].0);
        }
    }
}

/// Under distinct child dishes, any witness entry for a dish is the chosen one.
pub proof fn lemma_child_idx_unique(children: Seq<(u64, usize)>, dish: u64, i: int)
    requires
        ch_distinct(children),
        0 <= i < children.len(),
        children[i].0 == dish,
    ensures
        ch_has(children, dish),
        ch_idx(children, dish) == i,
        child_of(children, dish) == children[i].1 as int,
{
    assert(ch_has(children, dish));
    let w = ch_idx(children, dish);
    if w != i {
        if w < i {
            assert(children[w].0 != children[i].0);
        } else {
            assert(children[i].0 != children[w].0);
        }
    }
}

pub open spec fn ch_has(children: Seq<(u64, usize)>, dish: u64) -> bool {
    exists|i: int| 0 <= i < children.len() && (#[trigger] children[i]).0 == dish
}

pub open spec fn ch_idx(children: Seq<(u64, usize)>, dish: u64) -> int {
    choose|i: int| 0 <= i < children.len() && (#[trigger] children[i]).0 == dish
}

/// The arena index of the child reached over `dish`; meaningful only when
/// such a child exists and the child dishes are distinct.
pub open spec fn child_of(children: Seq<(u64, usize)>, dish: u64) -> int {
    children[ch_idx(children, dish)].1 as int
}

pub open spec fn ch_distinct(children: Seq<(u64, usize)>) -> bool {
    forall|i: int, j: int|
        0 <= i < j < children.len() ==> (#[trigger] children[i]).0 != (#[trigger] children[j]).0
}

impl PypTree {
    pub open spec fn live(self, i: int) -> bool {
        0 <= i < self.nodes@.len() && self.nodes@[i].live
    }

    /// The parent and child links at node `i` are consistent: the parent is
    /// live, one level shallower, and lists this node under its context
    /// symbol; every child is live, one level deeper, and points back here.
    pub open spec fn node_links_ok(self, i: int) -> bool {
        let n = self.nodes@[i];
        &&& match n.parent {
            Option::None => i == 0,
            Option::Some(p) => {
                &&& i != 0
                &&& self.live(p as int)
                &&& self.nodes@[p as int].depth + 1 == n.depth
                &&& ch_has(self.nodes@[p as int].children@, n.context)
                &&& child_of(self.nodes@[p as int].children@, n.context) == i
            },
        }
        &&& ch_distinct(n.children@)
        &&& forall|j: int|
            0 <= j < n.children@.len() ==> {
                &&& self.live((#[trigger] n.children@[j]).1 as int)
                &&& n.children@[j].1 != 0
                &&& n.children@[j].1 != i
                &&& self.nodes@[n.children@[j].1 as int].parent == Option::Some(i as usize)
                &&& self.nodes@[n.children@[j].1 as int].context == n.children@[j].0
                &&& self.nodes@[n.children@[j].1 as int].depth == n.depth + 1
            }
    }

    /// The whole tree is well formed: the root is live at depth zero, every
    /// live node satisfies the seating invariant and has consistent links,
    /// and the free list holds exactly distinct dead non-root slots.
    pub open spec fn wf(self) -> bool {
        &&& 1 <= self.nodes@.len()
        &&& self.nodes@.len() <= usize::MAX
        &&& self.live(0)
        &&& self.nodes@[0].parent is None
        &&& self.nodes@[0].depth == 0
        &&& forall|i: int| #[trigger] self.live(i) ==> model_ok(self.nodes@[i].model())
        &&& forall|i: int| #[trigger] self.live(i) ==> self.node_links_ok(i)
        &&& forall|i: int|
            0 <= i < self.free@.len() ==> 0 < (#[trigger] self.free@[i]) < self.nodes@.len()
                && !self.nodes@[self.free@[i] as int].live
        &&& forall|i: int, j: int|
            0 <= i < j < self.free@.len() ==> (#[trigger] self.free@[i]) != (
            #[trigger] self.free@[j])
    }

    /// The seating state of node `i`.
    pub open spec fn model_at(self, i: int) -> NodeModel {
        self.nodes@[i].model()
    }

    /// Customers of `dish` at node `i`.
    pub open spec fn spec_dish_customers(self, i: int, dish: u64) -> int {
        dish_customers(self.nodes@[i].model().tablegroups, dish)
    }

    /// Tables serving `dish` at node `i`.
    pub open spec fn spec_dish_tables(self, i: int, dish: u64) -> int {
        dish_tables(self.nodes@[i].model().tablegroups, dish)
    }

    /// Everything outside node `i` is as in `other`; the free list and the
    /// arena size as well.
    pub open spec fn same_except(self, other: PypTree, i: int) -> bool {
        &&& self.nodes@.len() == other.nodes@.len()
        &&& self.free@ == other.free@
        &&& forall|j: int|
            0 <= j < self.nodes@.len() && j != i ==> self.nodes@[j] == other.nodes@[j]
    }

    /// A fresh tree: a single live root node carrying the given context
    /// symbol and no customers.
    pub fn new(context: u64) -> (r: PypTree)
        ensures
            r.wf(),
            r.nodes@.len() == 1,
            r.free@.len() == 0,
            r.nodes@[0].tablegroups@.len() == 0,
            r.nodes@[0].children@.len() == 0,
            r.nodes@[0].ncustomers == 0,
            r.nodes@[0].ntables == 0,
            r.nodes@[0].stop_count == 0,
            r.nodes@[0].pass_count == 0,
            r.nodes@[0].context == context,
            r.nodes@[0].depth == 0,
    {
        let root = PypNode {
            live: true,
            parent: Option::None,
            children: Vec::new(),
            tablegroups: Vec::new(),
            ntables: 0,
            ncustomers: 0,
            stop_count: 0,
            pass_count: 0,
            depth: 0,
            context,
        };
        let mut nodes: Vec<PypNode> = Vec::new();
        nodes.push(root);
        let r = PypTree { nodes, free: Vec::new() };
        proof {
            assert(r.nodes@[0].model().tablegroups =~= Seq::<(u64, Seq<usize>)>::empty());
            assert(tgs_customers(r.nodes@[0].model().tablegroups) == 0);
            assert(tgs_tables(r.nodes@[0].model().tablegroups) == 0);
            assert forall|i: int| #[trigger] r.live(i) implies model_ok(r.nodes@[i].model())
                && r.node_links_ok(i) by {
                assert(i == 0);
            }
        }
        r
    }

    /// Looks up the child of node `i` reached over `dish`.
    pub fn find_child(&self, i: usize, dish: u64) -> (r: Option<usize>)
        requires
            self.wf(),
            self.live(i as int),
        ensures
            match r {
                Option::Some(c) => ch_has(self.nodes@[i as int].children@, dish) && c as int
                    == child_of(self.nodes@[i as int].children@, dish) && self.live(c as int),
                Option::None => !ch_has(self.nodes@[i as int].children@, dish),
            },
    {
        let children = &self.nodes[i].children;
        let n = children.len();
        let mut j: usize = 0;
        while j < n
            invariant
                0 <= j <= n == self.nodes@[i as int].children@.len(),
                self.wf(),
                self.live(i as int),
                children == self.nodes@[i as int].children,
                forall|m: int| 0 <= m < j ==> (#[trigger] children@[m]).0 != dish,
            decreases n - j,
        {
            if children[j].0 == dish {
                proof {
                    assert(self.node_links_ok(i as int));
                    lemma_child_idx_unique(self.nodes@[i as int].children@, dish, j as int);
                }
                return Option::Some(children[j].1);
            }
            j += 1;
        }
        Option::None
    }

    /// Whether node `i` serves `dish`, and at which restaurant index.
    fn find_dish(&self, i: usize, dish: u64) -> (r: Option<usize>)
        requires
            self.wf(),
            self.live(i as int),
        ensures
            match r {
                Option::Some(t) => tgs_has_dish(self.model_at(i as int).tablegroups, dish) && t
                    as int == tgs_dish_idx(self.model_at(i as int).tablegroups, dish) && t
                    < self.nodes@[i as int].tablegroups@.len(),
                Option::None => !tgs_has_dish(self.model_at(i as int).tablegroups, dish),
            },
    {
        let tgs = &self.nodes[i].tablegroups;
        let n = tgs.len();
        let mut j: usize = 0;
        while j < n
            invariant
                0 <= j <= n == self.nodes@[i as int].tablegroups@.len(),
                self.wf(),
                self.live(i as int),
                tgs == self.nodes@[i as int].tablegroups,
                forall|m: int| 0 <= m < j ==> (#[trigger] tgs@[m]).dish != dish,
            decreases n - j,
        {
            if tgs[j].dish == dish {
                proof {
                    assert(model_ok(self.model_at(i as int)));
                    lemma_dish_idx_unique(self.model_at(i as int).tablegroups, dish, j as int);
                }
                return Option::Some(j);
            }
            j += 1;
        }
        proof {
            assert forall|m: int| 0 <= m < self.model_at(i as int).tablegroups.len() implies (
            #[trigger] self.model_at(i as int).tablegroups[m]).0 != dish by {
                assert(self.nodes@[i as int].tablegroups@[m].dish != dish);
            }
        }
        Option::None
    }

    /// The per-table customer counts of `dish` at node `i`; empty when the
    /// dish is not served there.
    pub fn tables_of_dish(&self, i: usize, dish: u64) -> (r: Vec<usize>)
        requires
            self.wf(),
            self.live(i as int),
        ensures
            tgs_has_dish(self.model_at(i as int).tablegroups, dish) ==> r@ == self.model_at(
                i as int,
            ).tablegroups[tgs_dish_idx(self.model_at(i as int).tablegroups, dish)].1,
            !tgs_has_dish(self.model_at(i as int).tablegroups, dish) ==> r@.len() == 0,
    {
        match self.find_dish(i, dish) {
            Option::Some(t) => self.nodes[i].tablegroups[t].tables.clone(),
            Option::None => Vec::new(),
        }
    }

    /// How many customers of `dish` are seated at node `i`.
    pub fn get_num_customers_for_dish(&self, i: usize, dish: u64) -> (r: usize)
        requires
            self.wf(),
            self.live(i as int),
        ensures
            r == self.spec_dish_customers(i as int, dish),
    {
        match self.find_dish(i, dish) {
            Option::Some(t) => {
                proof {
                    lemma_restaurant_le_total(self.model_at(i as int).tablegroups, t as int);
                }
                let tables = &self.nodes[i].tablegroups[t].tables;
                let n = tables.len();
                let mut acc: usize = 0;
                let mut k: usize = 0;
                while k < n
                    invariant
                        0 <= k <= n == tables@.len(),
                        acc == seg_sum(tables@, 0, k as int),
                        seg_sum(tables@, 0, n as int) <= usize::MAX,
                    decreases n - k,
                {
                    proof {
                        lemma_seg_sum_last(tables@, 0, k as int);
                        lemma_seg_sum_split(tables@, 0, k as int + 1, n as int);
                        lemma_seg_sum_nonneg(tables@, k as int + 1, n as int);
                        lemma_seg_sum_nonneg(tables@, 0, k as int);
                    }
                    acc += tables[k];
                    k += 1;
                }
                acc
            },
            Option::None => 0,
        }
    }

    /// How many tables serve `dish` at node `i`.
    pub fn get_num_tables_serving_dish(&self, i: usize, dish: u64) -> (r: usize)
        requires
            self.wf(),
            self.live(i as int),
        ensures
            r == self.spec_dish_tables(i as int, dish),
    {
        match self.find_dish(i, dish) {
            Option::Some(t) => self.nodes[i].tablegroups[t].tables.len(),
            Option::None => 0,
        }
    }

    /// A node is ready to be detached when it has a parent and neither
    /// children nor customers.
    pub fn need_to_remove_from_parent(&self, i: usize) -> (r: bool)
        requires
            self.wf(),
            self.live(i as int),
        ensures
            r == {
                &&& self.nodes@[i as int].parent is Some
                &&& self.nodes@[i as int].children@.len() == 0
                &&& self.nodes@[i as int].tablegroups@.len() == 0
            },
    {
        match self.nodes[i].parent {
            Option::None => false,
            Option::Some(_) => self.nodes[i].children.len() == 0 && self.nodes[i]
                .tablegroups
                .len() == 0,
        }
    }
}

/// An element of a table sequence never exceeds the whole sum.
pub proof fn lemma_table_elem_le_total(s: Seq<usize>, k: int)
    requires
        0 <= k < s.len(),
    ensures
        s[k] <= table_total(s),
{
    lemma_seg_sum_split(s, 0, k, s.len() as int);
    lemma_seg_sum_split(s, k, k + 1, s.len() as int);
    lemma_seg_sum_nonneg(s, 0, k);
    lemma_seg_sum_nonneg(s, k + 1, s.len() as int);
    assert(seg_sum(s, k, k + 1) == s[k] + seg_sum(s, k + 1, k + 1));
    assert(seg_sum(s, k + 1, k + 1) == 0);
}

/// Changing only the seating state of one live node, while keeping its model
/// invariant, keeps the whole tree well formed.
pub proof fn lemma_wf_after_seating_change(pre: PypTree, post: PypTree, i: int)
    requires
        pre.wf(),
        pre.live(i),
        post.same_except(pre, i),
        post.nodes@[i].same_shape(pre.nodes@[i]),
        model_ok(post.nodes@[i].model()),
    ensures
        post.wf(),
{
    assert forall|j: int| 0 <= j < post.nodes@.len() implies {
        &&& (#[trigger] post.nodes@[j]).live == pre.nodes@[j].live
        &&& post.nodes@[j].parent == pre.nodes@[j].parent
        &&& post.nodes@[j].children == pre.nodes@[j].children
        &&& post.nodes@[j].depth == pre.nodes@[j].depth
        &&& post.nodes@[j].context == pre.nodes@[j].context
    } by {
        if j != i {
            assert(post.nodes@[j] == pre.nodes@[j]);
        }
    }
    assert forall|j: int| #[trigger] post.live(j) implies model_ok(post.nodes@[j].model())
        && post.node_links_ok(j) by {
        assert(pre.live(j));
        if j != i {
            assert(post.nodes@[j] == pre.nodes@[j]);
            assert(post.nodes@[j].model() == pre.nodes@[j].model());
        }
        assert(model_ok(post.nodes@[j].model()));
        assert(pre.node_links_ok(j));
        let n_pre = pre.nodes@[j];
        let n_post = post.nodes@[j];
        assert(n_post.parent == n_pre.parent);
        match n_pre.parent {
            Option::None => {},
            Option::Some(p) => {
                assert(post.live(p as int));
                assert(post.nodes@[p as int].children@ == pre.nodes@[p as int].children@);
            },
        }
        assert forall|m: int| 0 <= m < n_post.children@.len() implies {
            &&& post.live((#[trigger] n_post.children@[m]).1 as int)
            &&& n_post.children@[m].1 != 0
            &&& n_post.children@[m].1 != j
            &&& post.nodes@[n_post.children@[m].1 as int].parent == Option::Some(j as usize)
            &&& post.nodes@[n_post.children@[m].1 as int].context == n_post.children@[m].0
            &&& post.nodes@[n_post.children@[m].1 as int].depth == n_post.depth + 1
        } by {
            assert(n_post.children@[m] == n_pre.children@[m]);
        }
    }
}

fn blank_node() -> (r: PypNode)
    ensures
        !r.live,
{
    PypNode {
        live: false,
        parent: Option::None,
        children: Vec::new(),
        tablegroups: Vec::new(),
        ntables: 0,
        ncustomers: 0,
        stop_count: 0,
        pass_count: 0,
        depth: 0,
        context: 0,
    }
}

impl PypTree {
    pub fn get_parent(&self, i: usize) -> (r: Option<usize>)
        requires
            i < self.nodes@.len(),
        ensures
            r == self.nodes@[i as int].parent,
    {
        self.nodes[i].parent
    }

    pub fn get_depth(&self, i: usize) -> (r: usize)
        requires
            i < self.nodes@.len(),
        ensures
            r == self.nodes@[i as int].depth,
    {
        self.nodes[i].depth
    }

    pub fn get_ncustomers(&self, i: usize) -> (r: usize)
        requires
            i < self.nodes@.len(),
        ensures
            r == self.nodes@[i as int].ncustomers,
    {
        self.nodes[i].ncustomers
    }

    pub fn get_ntables(&self, i: usize) -> (r: usize)
        requires
            i < self.nodes@.len(),
        ensures
            r == self.nodes@[i as int].ntables,
    {
        self.nodes[i].ntables
    }

    pub fn get_stop_count(&self, i: usize) -> (r: usize)
        requires
            i < self.nodes@.len(),
        ensures
            r == self.nodes@[i as int].stop_count,
    {
        self.nodes[i].stop_count
    }

    pub fn get_pass_count(&self, i: usize) -> (r: usize)
        requires
            i < self.nodes@.len(),
        ensures
            r == self.nodes@[i as int].pass_count,
    {
        self.nodes[i].pass_count
    }

    pub fn num_nodes(&self) -> (r: usize)
        ensures
            r == self.nodes@.len(),
    {
        self.nodes.len()
    }

    /// Seats one more customer of `dish` at the existing table `k` of node
    /// `i`. Returns whether the seating was possible; on failure nothing
    /// changes.
    pub fn seat_at_existing_table(&mut self, i: usize, dish: u64, k: usize) -> (r: bool)
        requires
            old(self).wf(),
            old(self).live(i as int),
        ensures
            final(self).wf(),
            final(self).live(i as int),
            r == can_join(old(self).model_at(i as int), dish, k as int),
            r ==> final(self).same_except(*old(self), i as int) && final(self).nodes@[i as int]
                .same_shape(old(self).nodes@[i as int]) && add_join_step(
                old(self).model_at(i as int),
                final(self).model_at(i as int),
                dish,
                k as int,
            ),
            !r ==> *final(self) == *old(self),
    {
        let ghost pre = *self;
        let ghost m0 = self.model_at(i as int);
        let t_opt = self.find_dish(i, dish);
        match t_opt {
            Option::None => false,
            Option::Some(t) => {
                if k >= self.nodes[i].tablegroups[t].tables.len() {
                    return false;
                }
                let count = self.nodes[i].tablegroups[t].tables[k];
                if count == usize::MAX {
                    return false;
                }
                if self.nodes[i].ncustomers == usize::MAX {
                    return false;
                }
                let ghost old_tables = m0.tablegroups[t as int].1;
                let mut node = blank_node();
                self.nodes.set_and_swap(i, &mut node);
                let mut rest = Restaurant { dish: 0, tables: Vec::new() };
                node.tablegroups.set_and_swap(t, &mut rest);
                rest.tables.set(k, count + 1);
                node.tablegroups.set_and_swap(t, &mut rest);
                node.ncustomers = node.ncustomers + 1;
                self.nodes.set_and_swap(i, &mut node);
                proof {
                    assert(self.nodes@ =~= pre.nodes@.update(i as int, self.nodes@[i as int]));
                    let m1 = self.model_at(i as int);
                    assert(m1.tablegroups =~= m0.tablegroups.update(
                        t as int,
                        (dish, old_tables.update(k as int, (count + 1) as usize)),
                    ));
                    lemma_seg_sum_update(old_tables, k as int, (count + 1) as usize);
                    lemma_tgs_update(
                        m0.tablegroups,
                        t as int,
                        (dish, old_tables.update(k as int, (count + 1) as usize)),
                    );
                    assert(model_ok(m1));
                    lemma_wf_after_seating_change(pre, *self, i as int);
                    assert(add_join_step(m0, m1, dish, k as int));
                }
                true
            },
        }
    }

    /// Seats one more customer of `dish` at a brand-new table of node `i`,
    /// founding the dish's restaurant when it is absent. Returns whether the
    /// seating was possible; on failure nothing changes.
    pub fn seat_at_new_table(&mut self, i: usize, dish: u64) -> (r: bool)
        requires
            old(self).wf(),
            old(self).live(i as int),
        ensures
            final(self).wf(),
            final(self).live(i as int),
            r == can_open(old(self).model_at(i as int)),
            r ==> final(self).same_except(*old(self), i as int) && final(self).nodes@[i as int]
                .same_shape(old(self).nodes@[i as int]) && add_new_table_step(
                old(self).model_at(i as int),
                final(self).model_at(i as int),
                dish,
            ),
            !r ==> *final(self) == *old(self),
    {
        let ghost pre = *self;
        let ghost m0 = self.model_at(i as int);
        if self.nodes[i].ncustomers == usize::MAX {
            return false;
        }
        if self.nodes[i].ntables == usize::MAX {
            return false;
        }
        let t_opt = self.find_dish(i, dish);
        let mut node = blank_node();
        self.nodes.set_and_swap(i, &mut node);
        match t_opt {
            Option::Some(t) => {
                let ghost old_tables = m0.tablegroups[t as int].1;
                let mut rest = Restaurant { dish: 0, tables: Vec::new() };
                node.tablegroups.set_and_swap(t, &mut rest);
                rest.tables.push(1);
                node.tablegroups.set_and_swap(t, &mut rest);
                node.ncustomers = node.ncustomers + 1;
                node.ntables = node.ntables + 1;
                self.nodes.set_and_swap(i, &mut node);
                proof {
                    assert(self.nodes@ =~= pre.nodes@.update(i as int, self.nodes@[i as int]));
                    let m1 = self.model_at(i as int);
                    assert(m1.tablegroups =~= m0.tablegroups.update(
                        t as int,
                        (dish, old_tables.push(1)),
                    ));
                    lemma_seg_sum_push(old_tables, 1);
                    lemma_tgs_update(m0.tablegroups, t as int, (dish, old_tables.push(1)));
                    assert(model_ok(m1)) by {
                        assert forall|a: int, b: int|
                            0 <= a < m1.tablegroups.len() && 0 <= b
                                < m1.tablegroups[a].1.len() implies 1 <= #[trigger] m1
                            .tablegroups[a].1[b] by {
                            if a == t as int {
                                if b < old_tables.len() {
                                    assert(m1.tablegroups[a].1[b] == old_tables[b]);
                                    assert(1 <= m0.tablegroups[a].1[b]);
                                }
                            } else {
                                assert(m1.tablegroups[a] == m0.tablegroups[a]);
                                assert(1 <= m0.tablegroups[a].1[b]);
                            }
                        }
                    }
                    lemma_wf_after_seating_change(pre, *self, i as int);
                    assert(add_new_table_step(m0, m1, dish));
                }
                true
            },
            Option::None => {
                let mut tv: Vec<usize> = Vec::new();
                tv.push(1);
                node.tablegroups.push(Restaurant { dish, tables: tv });
                node.ncustomers = node.ncustomers + 1;
                node.ntables = node.ntables + 1;
                self.nodes.set_and_swap(i, &mut node);
                proof {
                    assert(self.nodes@ =~= pre.nodes@.update(i as int, self.nodes@[i as int]));
                    let m1 = self.model_at(i as int);
                    assert(m1.tablegroups =~= m0.tablegroups.push((dish, seq![1usize])));
                    lemma_tgs_push(m0.tablegroups, (dish, seq![1usize]));
                    assert(table_total(seq![1usize]) == 1) by {
                        assert(seg_sum(seq![1usize], 1, 1) == 0);
                        assert(seg_sum(seq![1usize], 0, 1) == 1);
                    }
                    assert(model_ok(m1)) by {
                        assert(tgs_distinct(m1.tablegroups));
                        assert forall|a: int, b: int|
                            0 <= a < m1.tablegroups.len() && 0 <= b
                                < m1.tablegroups[a].1.len() implies 1 <= #[trigger] m1
                            .tablegroups[a].1[b] by {
                            if a < m0.tablegroups.len() {
                                assert(m1.tablegroups[a] == m0.tablegroups[a]);
                                assert(1 <= m0.tablegroups[a].1[b]);
                            } else {
                                assert(m1.tablegroups[a].1 =~= seq![1usize]);
                            }
                        }
                    }
                    lemma_wf_after_seating_change(pre, *self, i as int);
                    assert(add_new_table_step(m0, m1, dish));
                }
                true
            },
        }
    }

    /// Removes one customer of `dish` from table `k` of node `i`. The first
    /// flag reports whether the removal was possible, the second whether the
    /// table closed; on failure nothing changes.
    pub fn unseat_from_table(&mut self, i: usize, dish: u64, k: usize) -> (r: (bool, bool))
        requires
            old(self).wf(),
            old(self).live(i as int),
        ensures
            final(self).wf(),
            final(self).live(i as int),
            r.0 == can_unseat(old(self).model_at(i as int), dish, k as int),
            r.0 ==> final(self).same_except(*old(self), i as int) && final(self).nodes@[i as int]
                .same_shape(old(self).nodes@[i as int]) && remove_at_step(
                old(self).model_at(i as int),
                final(self).model_at(i as int),
                dish,
                k as int,
            ) && r.1 == unseat_closes_table(old(self).model_at(i as int), dish, k as int),
            !r.0 ==> *final(self) == *old(self) && !r.1,
    {
        let ghost pre = *self;
        let ghost m0 = self.model_at(i as int);
        let t_opt = self.find_dish(i, dish);
        match t_opt {
            Option::None => (false, false),
            Option::Some(t) => {
                if k >= self.nodes[i].tablegroups[t].tables.len() {
                    return (false, false);
                }
                let count = self.nodes[i].tablegroups[t].tables[k];
                let ghost old_tables = m0.tablegroups[t as int].1;
                proof {
                    assert(model_ok(m0));
                    assert(1 <= count);
                    lemma_table_elem_le_total(old_tables, k as int);
                    lemma_restaurant_le_total(m0.tablegroups, t as int);
                }
                let mut node = blank_node();
                self.nodes.set_and_swap(i, &mut node);
                let closed: bool;
                if count > 1 {
                    let mut rest = Restaurant { dish: 0, tables: Vec::new() };
                    node.tablegroups.set_and_swap(t, &mut rest);
                    rest.tables.set(k, count - 1);
                    node.tablegroups.set_and_swap(t, &mut rest);
                    node.ncustomers = node.ncustomers - 1;
                    closed = false;
                } else if node.tablegroups[t].tables.len() > 1 {
                    let mut rest = Restaurant { dish: 0, tables: Vec::new() };
                    node.tablegroups.set_and_swap(t, &mut rest);
                    rest.tables.remove(k);
                    node.tablegroups.set_and_swap(t, &mut rest);
                    node.ncustomers = node.ncustomers - 1;
                    node.ntables = node.ntables - 1;
                    closed = true;
                } else {
                    node.tablegroups.remove(t);
                    node.ncustomers = node.ncustomers - 1;
                    node.ntables = node.ntables - 1;
                    closed = true;
                }
                self.nodes.set_and_swap(i, &mut node);
                proof {
                    assert(self.nodes@ =~= pre.nodes@.update(i as int, self.nodes@[i as int]));
                    let m1 = self.model_at(i as int);
                    if count > 1 {
                        assert(m1.tablegroups =~= m0.tablegroups.update(
                            t as int,
                            (dish, old_tables.update(k as int, (count - 1) as usize)),
                        ));
                        lemma_seg_sum_update(old_tables, k as int, (count - 1) as usize);
                        lemma_tgs_update(
                            m0.tablegroups,
                            t as int,
                            (dish, old_tables.update(k as int, (count - 1) as usize)),
                        );
                    } else if old_tables.len() > 1 {
                        assert(m1.tablegroups =~= m0.tablegroups.update(
                            t as int,
                            (dish, old_tables.remove(k as int)),
                        ));
                        lemma_seg_sum_remove(old_tables, k as int);
                        lemma_tgs_update(
                            m0.tablegroups,
                            t as int,
                            (dish, old_tables.remove(k as int)),
                        );
                    } else {
                        assert(m1.tablegroups =~= m0.tablegroups.remove(t as int));
                        assert(table_total(old_tables) == count) by {
                            lemma_seg_sum_last(old_tables, 0, 0);
                        }
                        lemma_tgs_remove(m0.tablegroups, t as int);
                    }
                    assert(model_ok(m1)) by {
                        assert forall|a: int, b: int|
                            0 <= a < m1.tablegroups.len() && 0 <= b
                                < m1.tablegroups[a].1.len() implies 1 <= #[trigger] m1
                            .tablegroups[a].1[b] by {
                            if count > 1 {
                                if a == t as int && b != k as int {
                                    assert(m1.tablegroups[a].1[b] == old_tables[b]);
                                    assert(1 <= m0.tablegroups[a].1[b]);
                                } else if a != t as int {
                                    assert(m1.tablegroups[a] == m0.tablegroups[a]);
                                    assert(1 <= m0.tablegroups[a].1[b]);
                                }
                            } else if old_tables.len() > 1 {
                                if a == t as int {
                                    if b < k as int {
                                        assert(m1.tablegroups[a].1[b] == old_tables[b]);
                                        assert(1 <= m0.tablegroups[a].1[b]);
                                    } else {
                                        assert(m1.tablegroups[a].1[b] == old_tables[b + 1]);
                                        assert(1 <= m0.tablegroups[a].1[b + 1]);
                                    }
                                } else {
                                    assert(m1.tablegroups[a] == m0.tablegroups[a]);
                                    assert(1 <= m0.tablegroups[a].1[b]);
                                }
                            } else {
                                if a < t as int {
                                    assert(m1.tablegroups[a] == m0.tablegroups[a]);
                                    assert(1 <= m0.tablegroups[a].1[b]);
                                } else {
                                    assert(m1.tablegroups[a] == m0.tablegroups[a + 1]);
                                    assert(1 <= m0.tablegroups[a + 1].1[b]);
                                }
                            }
                        }
                        assert(tgs_distinct(m1.tablegroups)) by {
                            assert forall|a: int, b: int|
                                0 <= a < b < m1.tablegroups.len() implies (
                            #[trigger] m1.tablegroups[a]).0 != (#[trigger] m1.tablegroups[b]).0 by {
                                if count > 1 || old_tables.len() > 1 {
                                    assert(m1.tablegroups[a].0 == m0.tablegroups[a].0);
                                    assert(m1.tablegroups[b].0 == m0.tablegroups[b].0);
                                } else {
                                    let a0 = if a < t as int { a } else { a + 1 };
                                    let b0 = if b < t as int { b } else { b + 1 };
                                    assert(m1.tablegroups[a].0 == m0.tablegroups[a0].0);
                                    assert(m1.tablegroups[b].0 == m0.tablegroups[b0].0);
                                }
                            }
                        }
                    }
                    lemma_wf_after_seating_change(pre, *self, i as int);
                    assert(remove_at_step(m0, m1, dish, k as int));
                }
                (true, closed)
            },
        }
    }
}


/// `j` lies on the parent chain of `i` (including `i` itself).
pub open spec fn on_chain(t: PypTree, i: int, j: int) -> bool
    decreases (if 0 <= i < t.nodes@.len() {
        t.nodes@[i].depth as int
    } else {
        0
    }),
{
    if !(0 <= i < t.nodes@.len()) {
        false
    } else if j == i {
        true
    } else {
        match t.nodes@[i].parent {
            Option::None => false,
            Option::Some(p) => 0 <= p < t.nodes@.len() && t.nodes@[p as int].depth
                < t.nodes@[i].depth && on_chain(t, p as int, j),
        }
    }
}

/// Every node on the parent chain of `i` serves `dish`.
pub open spec fn dish_on_chain(t: PypTree, i: int, dish: u64) -> bool
    decreases (if 0 <= i < t.nodes@.len() {
        t.nodes@[i].depth as int
    } else {
        0
    }),
{
    if !(0 <= i < t.nodes@.len()) {
        false
    } else {
        &&& tgs_has_dish(t.nodes@[i].model().tablegroups, dish)
        &&& match t.nodes@[i].parent {
            Option::None => true,
            Option::Some(p) => 0 <= p < t.nodes@.len() && t.nodes@[p as int].depth
                < t.nodes@[i].depth && dish_on_chain(t, p as int, dish),
        }
    }
}

/// Every node on the parent chain of `i` can still count one more customer
/// and one more table.
pub open spec fn chain_headroom(t: PypTree, i: int) -> bool
    decreases (if 0 <= i < t.nodes@.len() {
        t.nodes@[i].depth as int
    } else {
        0
    }),
{
    if !(0 <= i < t.nodes@.len()) {
        false
    } else {
        &&& t.nodes@[i].ncustomers < usize::MAX
        &&& t.nodes@[i].ntables < usize::MAX
        &&& match t.nodes@[i].parent {
            Option::None => true,
            Option::Some(p) => 0 <= p < t.nodes@.len() && t.nodes@[p as int].depth
                < t.nodes@[i].depth && chain_headroom(t, p as int),
        }
    }
}

/// The pass counts along the parent chain of `i` can all be raised.
pub open spec fn pass_inc_ok(t: PypTree, i: int) -> bool
    decreases (if 0 <= i < t.nodes@.len() {
        t.nodes@[i].depth as int
    } else {
        0
    }),
{
    if !(0 <= i < t.nodes@.len()) {
        false
    } else {
        &&& t.nodes@[i].pass_count < usize::MAX
        &&& match t.nodes@[i].parent {
            Option::None => true,
            Option::Some(p) => 0 <= p < t.nodes@.len() && t.nodes@[p as int].depth
                < t.nodes@[i].depth && pass_inc_ok(t, p as int),
        }
    }
}

/// The pass counts along the parent chain of `i` can all be lowered.
pub open spec fn pass_dec_ok(t: PypTree, i: int) -> bool
    decreases (if 0 <= i < t.nodes@.len() {
        t.nodes@[i].depth as int
    } else {
        0
    }),
{
    if !(0 <= i < t.nodes@.len()) {
        false
    } else {
        &&& 1 <= t.nodes@[i].pass_count
        &&& match t.nodes@[i].parent {
            Option::None => true,
            Option::Some(p) => 0 <= p < t.nodes@.len() && t.nodes@[p as int].depth
                < t.nodes@[i].depth && pass_dec_ok(t, p as int),
        }
    }
}

/// The stop count at `i` can be raised, and the pass counts above it too.
pub open spec fn stop_inc_ok(t: PypTree, i: int) -> bool {
    &&& 0 <= i < t.nodes@.len()
    &&& t.nodes@[i].stop_count < usize::MAX
    &&& match t.nodes@[i].parent {
        Option::None => true,
        Option::Some(p) => 0 <= p < t.nodes@.len() && pass_inc_ok(t, p as int),
    }
}

/// The stop count at `i` can be lowered, and the pass counts above it too.
pub open spec fn stop_dec_ok(t: PypTree, i: int) -> bool {
    &&& 0 <= i < t.nodes@.len()
    &&& 1 <= t.nodes@[i].stop_count
    &&& match t.nodes@[i].parent {
        Option::None => true,
        Option::Some(p) => 0 <= p < t.nodes@.len() && pass_dec_ok(t, p as int),
    }
}

/// The hierarchical cascade of one arriving customer, read along the parent
/// chain of `i`: a node that opened a table (its table count rose) sent one
/// customer of the same dish to its parent — opening a table is itself a
/// customer there — while a node that did not leaves its parent untouched.
pub open spec fn add_cascade_links(pre: PypTree, post: PypTree, i: int, dish: u64) -> bool {
    forall|j: int|
        #[trigger] on_chain(pre, i, j) && 0 <= j < pre.nodes@.len()
            && pre.nodes@[j].parent is Some ==> {
            let p = pre.nodes@[j].parent->Some_0 as int;
            &&& (post.nodes@[j].model().ntables > pre.nodes@[j].model().ntables ==> pre.nodes@[p]
                .same_shape(post.nodes@[p]) && add_step(
                pre.nodes@[p].model(),
                post.nodes@[p].model(),
                dish,
            ))
            &&& (post.nodes@[j].model().ntables == pre.nodes@[j].model().ntables
                ==> post.nodes@[p] == pre.nodes@[p])
        }
}

/// The hierarchical cascade of one leaving customer: a node whose table
/// closed (its table count fell) removed one customer of the same dish from
/// its parent; a node whose table count stands leaves its parent untouched.
pub open spec fn remove_cascade_links(pre: PypTree, post: PypTree, i: int, dish: u64) -> bool {
    forall|j: int|
        #[trigger] on_chain(pre, i, j) && 0 <= j < pre.nodes@.len()
            && pre.nodes@[j].parent is Some ==> {
            let p = pre.nodes@[j].parent->Some_0 as int;
            &&& (post.nodes@[j].model().ntables < pre.nodes@[j].model().ntables ==> pre.nodes@[p]
                .same_shape(post.nodes@[p]) && remove_step(
                pre.nodes@[p].model(),
                post.nodes@[p].model(),
                dish,
            ))
            &&& (post.nodes@[j].model().ntables == pre.nodes@[j].model().ntables
                ==> post.nodes@[p] == pre.nodes@[p])
        }
}

/// Node `b` differs from `a` only in its pass count, changed by `delta`.
pub open spec fn pass_shifted(a: PypNode, b: PypNode, delta: int) -> bool {
    &&& b.live == a.live
    &&& b.parent == a.parent
    &&& b.children == a.children
    &&& b.tablegroups == a.tablegroups
    &&& b.ntables == a.ntables
    &&& b.ncustomers == a.ncustomers
    &&& b.stop_count == a.stop_count
    &&& b.pass_count == a.pass_count + delta
    &&& b.depth == a.depth
    &&& b.context == a.context
}

/// Anything on the parent chain sits at most as deep as the start.
pub proof fn lemma_on_chain_depth(t: PypTree, i: int, j: int)
    requires
        on_chain(t, i, j),
    ensures
        0 <= j < t.nodes@.len(),
        t.nodes@[j].depth <= t.nodes@[i].depth,
    decreases t.nodes@[i].depth,
{
    if j != i {
        match t.nodes@[i].parent {
            Option::None => {},
            Option::Some(p) => {
                lemma_on_chain_depth(t, p as int, j);
            },
        }
    }
}

/// A proper chain ancestor sits strictly shallower than the start.
pub proof fn lemma_on_chain_depth_strict(t: PypTree, i: int, j: int)
    requires
        on_chain(t, i, j),
        j != i,
    ensures
        0 <= j < t.nodes@.len(),
        t.nodes@[j].depth < t.nodes@[i].depth,
    decreases t.nodes@[i].depth,
{
    match t.nodes@[i].parent {
        Option::None => {},
        Option::Some(p) => {
            lemma_on_chain_depth(t, p as int, j);
        },
    }
}

/// In a well-formed tree, the chain of a live node visits live nodes only.
pub proof fn lemma_on_chain_live(t: PypTree, i: int, j: int)
    requires
        t.wf(),
        t.live(i),
        on_chain(t, i, j),
    ensures
        t.live(j),
    decreases t.nodes@[i].depth,
{
    if j != i {
        match t.nodes@[i].parent {
            Option::None => {},
            Option::Some(p) => {
                assert(t.node_links_ok(i));
                lemma_on_chain_live(t, p as int, j);
            },
        }
    }
}

/// Chain membership depends only on the parent pointers and depths.
pub proof fn lemma_on_chain_same_links(t1: PypTree, t2: PypTree, i: int, j: int)
    requires
        t1.nodes@.len() == t2.nodes@.len(),
        forall|m: int|
            0 <= m < t1.nodes@.len() ==> (#[trigger] t1.nodes@[m]).parent == t2.nodes@[m].parent
                && t1.nodes@[m].depth == t2.nodes@[m].depth,
    ensures
        on_chain(t1, i, j) == on_chain(t2, i, j),
    decreases (if 0 <= i < t1.nodes@.len() {
        t1.nodes@[i].depth as int
    } else {
        0
    }),
{
    if 0 <= i < t1.nodes@.len() && j != i {
        match t1.nodes@[i].parent {
            Option::None => {},
            Option::Some(p) => {
                if 0 <= p < t1.nodes@.len() && t1.nodes@[p as int].depth < t1.nodes@[i].depth {
                    lemma_on_chain_same_links(t1, t2, p as int, j);
                }
            },
        }
    }
}

impl PypTree {
    /// Raises the pass count of node `i` and of every node above it.
    pub fn increment_pass_count(&mut self, i: usize)
        requires
            old(self).wf(),
            old(self).live(i as int),
            pass_inc_ok(*old(self), i as int),
        ensures
            final(self).wf(),
            final(self).nodes@.len() == old(self).nodes@.len(),
            final(self).free@ == old(self).free@,
            forall|j: int|
                0 <= j < old(self).nodes@.len() && !on_chain(*old(self), i as int, j)
                    ==> final(self).nodes@[j] == old(self).nodes@[j],
            forall|j: int|
                0 <= j < old(self).nodes@.len() && on_chain(*old(self), i as int, j)
                    ==> pass_shifted(old(self).nodes@[j], #[trigger] final(self).nodes@[j], 1),
        decreases old(self).nodes@[i as int].depth,
    {
        let ghost pre = *self;
        let parent = self.nodes[i].parent;
        let pc = self.nodes[i].pass_count;
        let mut node = blank_node();
        self.nodes.set_and_swap(i, &mut node);
        node.pass_count = pc + 1;
        self.nodes.set_and_swap(i, &mut node);
        let ghost mid = *self;
        proof {
            assert(mid.nodes@ =~= pre.nodes@.update(i as int, mid.nodes@[i as int]));
            lemma_wf_after_seating_change(pre, mid, i as int);
        }
        match parent {
            Option::None => {
                proof {
                    assert forall|j: int|
                        0 <= j < pre.nodes@.len() && on_chain(pre, i as int, j) implies
                        pass_shifted(pre.nodes@[j], #[trigger] self.nodes@[j], 1) by {
                        assert(j == i as int);
                    }
                }
            },
            Option::Some(p) => {
                proof {
                    assert(pre.node_links_ok(i as int));
                    assert(pass_inc_ok(mid, p as int)) by {
                        lemma_pass_inc_same(pre, mid, p as int, i as int);
                    }
                }
                self.increment_pass_count(p);
                proof {
                    lemma_chain_frame_compose(pre, mid, *self, i as int, p as int, 1);
                }
            },
        }
    }

    /// Lowers the pass count of node `i` and of every node above it.
    pub fn decrement_pass_count(&mut self, i: usize)
        requires
            old(self).wf(),
            old(self).live(i as int),
            pass_dec_ok(*old(self), i as int),
        ensures
            final(self).wf(),
            final(self).nodes@.len() == old(self).nodes@.len(),
            final(self).free@ == old(self).free@,
            forall|j: int|
                0 <= j < old(self).nodes@.len() && !on_chain(*old(self), i as int, j)
                    ==> final(self).nodes@[j] == old(self).nodes@[j],
            forall|j: int|
                0 <= j < old(self).nodes@.len() && on_chain(*old(self), i as int, j)
                    ==> pass_shifted(old(self).nodes@[j], #[trigger] final(self).nodes@[j], -1),
        decreases old(self).nodes@[i as int].depth,
    {
        let ghost pre = *self;
        let parent = self.nodes[i].parent;
        let pc = self.nodes[i].pass_count;
        let mut node = blank_node();
        self.nodes.set_and_swap(i, &mut node);
        node.pass_count = pc - 1;
        self.nodes.set_and_swap(i, &mut node);
        let ghost mid = *self;
        proof {
            assert(mid.nodes@ =~= pre.nodes@.update(i as int, mid.nodes@[i as int]));
            lemma_wf_after_seating_change(pre, mid, i as int);
        }
        match parent {
            Option::None => {
                proof {
                    assert forall|j: int|
                        0 <= j < pre.nodes@.len() && on_chain(pre, i as int, j) implies
                        pass_shifted(pre.nodes@[j], #[trigger] self.nodes@[j], -1) by {
                        assert(j == i as int);
                    }
                }
            },
            Option::Some(p) => {
                proof {
                    assert(pre.node_links_ok(i as int));
                    assert(pass_dec_ok(mid, p as int)) by {
                        lemma_pass_dec_same(pre, mid, p as int, i as int);
                    }
                }
                self.decrement_pass_count(p);
                proof {
                    lemma_chain_frame_compose(pre, mid, *self, i as int, p as int, -1);
                }
            },
        }
    }
}

/// After bumping only node `x` (which lies strictly below `p`), the pass
/// headroom of `p`'s chain is as before.
proof fn lemma_pass_inc_same(pre: PypTree, mid: PypTree, p: int, x: int)
    requires
        0 <= x < pre.nodes@.len(),
        0 <= p < pre.nodes@.len(),
        pre.nodes@[p].depth < pre.nodes@[x].depth,
        pass_inc_ok(pre, p),
        mid.nodes@.len() == pre.nodes@.len(),
        forall|m: int| 0 <= m < pre.nodes@.len() && m != x ==> mid.nodes@[m] == pre.nodes@[m],
    ensures
        pass_inc_ok(mid, p),
    decreases pre.nodes@[p].depth,
{
    assert(mid.nodes@[p] == pre.nodes@[p]);
    match pre.nodes@[p].parent {
        Option::None => {},
        Option::Some(q) => {
            lemma_pass_inc_same(pre, mid, q as int, x);
        },
    }
}

proof fn lemma_pass_dec_same(pre: PypTree, mid: PypTree, p: int, x: int)
    requires
        0 <= x < pre.nodes@.len(),
        0 <= p < pre.nodes@.len(),
        pre.nodes@[p].depth < pre.nodes@[x].depth,
        pass_dec_ok(pre, p),
        mid.nodes@.len() == pre.nodes@.len(),
        forall|m: int| 0 <= m < pre.nodes@.len() && m != x ==> mid.nodes@[m] == pre.nodes@[m],
    ensures
        pass_dec_ok(mid, p),
    decreases pre.nodes@[p].depth,
{
    assert(mid.nodes@[p] == pre.nodes@[p]);
    match pre.nodes@[p].parent {
        Option::None => {},
        Option::Some(q) => {
            lemma_pass_dec_same(pre, mid, q as int, x);
        },
    }
}

/// Composes the one-node bump at `x` with the recursive bump above `p`.
proof fn lemma_chain_frame_compose(
    pre: PypTree,
    mid: PypTree,
    post: PypTree,
    x: int,
    p: int,
    delta: int,
)
    requires
        pre.nodes@.len() <= usize::MAX,
        0 <= x < pre.nodes@.len(),
        pre.nodes@[x].parent == Option::Some(p as usize),
        0 <= p < pre.nodes@.len(),
        pre.nodes@[p].depth + 1 == pre.nodes@[x].depth,
        mid.nodes@.len() == pre.nodes@.len(),
        forall|m: int| 0 <= m < pre.nodes@.len() && m != x ==> mid.nodes@[m] == pre.nodes@[m],
        pass_shifted(pre.nodes@[x], mid.nodes@[x], delta),
        post.nodes@.len() == mid.nodes@.len(),
        forall|j: int|
            0 <= j < mid.nodes@.len() && !on_chain(mid, p, j) ==> post.nodes@[j] == mid.nodes@[j],
        forall|j: int|
            0 <= j < mid.nodes@.len() && on_chain(mid, p, j) ==> pass_shifted(
                mid.nodes@[j],
                #[trigger] post.nodes@[j],
                delta,
            ),
    ensures
        forall|j: int|
            0 <= j < pre.nodes@.len() && !on_chain(pre, x, j) ==> post.nodes@[j] == pre.nodes@[j],
        forall|j: int|
            0 <= j < pre.nodes@.len() && on_chain(pre, x, j) ==> pass_shifted(
                pre.nodes@[j],
                #[trigger] post.nodes@[j],
                delta,
            ),
{
    assert forall|m: int|
        0 <= m < pre.nodes@.len() implies (#[trigger] mid.nodes@[m]).parent
        == pre.nodes@[m].parent && mid.nodes@[m].depth == pre.nodes@[m].depth by {
        if m != x {
            assert(mid.nodes@[m] == pre.nodes@[m]);
        }
    }
    assert forall|j: int| 0 <= j < pre.nodes@.len() implies on_chain(mid, p, j) == on_chain(
        pre,
        p,
        j,
    ) by {
        lemma_on_chain_same_links(mid, pre, p, j);
    }
    assert forall|j: int|
        0 <= j < pre.nodes@.len() && !on_chain(pre, x, j) implies post.nodes@[j]
        == pre.nodes@[j] by {
        assert(j != x);
        assert(on_chain(pre, x, j) == (j == x || on_chain(pre, p, j)));
        lemma_on_chain_same_links(mid, pre, p, j);
        assert(!on_chain(mid, p, j));
        assert(post.nodes@[j] == mid.nodes@[j]);
        assert(mid.nodes@[j] == pre.nodes@[j]);
    }
    assert forall|j: int|
        0 <= j < pre.nodes@.len() && on_chain(pre, x, j) implies pass_shifted(
        pre.nodes@[j],
        #[trigger] post.nodes@[j],
        delta,
    ) by {
        lemma_on_chain_same_links(mid, pre, p, j);
        if j == x {
            if on_chain(pre, p, j) {
                lemma_on_chain_depth(pre, p, j);
                assert(false);
            }
            assert(!on_chain(mid, p, j));
            assert(post.nodes@[j] == mid.nodes@[j]);
            assert(pass_shifted(pre.nodes@[x], mid.nodes@[x], delta));
        } else {
            assert(on_chain(pre, x, j) == (j == x || on_chain(pre, p, j)));
            assert(on_chain(mid, p, j));
            assert(pass_shifted(mid.nodes@[j], post.nodes@[j], delta));
            assert(mid.nodes@[j] == pre.nodes@[j]);
        }
    }
}


/// Node `b` differs from `a` only in its stop count, changed by `delta`.
pub open spec fn stop_shifted(a: PypNode, b: PypNode, delta: int) -> bool {
    &&& b.live == a.live
    &&& b.parent == a.parent
    &&& b.children == a.children
    &&& b.tablegroups == a.tablegroups
    &&& b.ntables == a.ntables
    &&& b.ncustomers == a.ncustomers
    &&& b.stop_count == a.stop_count + delta
    &&& b.pass_count == a.pass_count
    &&& b.depth == a.depth
    &&& b.context == a.context
}

impl PypTree {
    /// Raises the stop count of node `i` and the pass count of every node
    /// above it: one word ending was observed at this depth, passing through
    /// the shallower contexts.
    pub fn increment_stop_count(&mut self, i: usize)
        requires
            old(self).wf(),
            old(self).live(i as int),
            stop_inc_ok(*old(self), i as int),
        ensures
            final(self).wf(),
            final(self).nodes@.len() == old(self).nodes@.len(),
            final(self).free@ == old(self).free@,
            stop_shifted(old(self).nodes@[i as int], final(self).nodes@[i as int], 1),
            forall|j: int|
                0 <= j < old(self).nodes@.len() && j != i && !on_chain(*old(self), i as int, j)
                    ==> final(self).nodes@[j] == old(self).nodes@[j],
            forall|j: int|
                0 <= j < old(self).nodes@.len() && j != i && on_chain(*old(self), i as int, j)
                    ==> pass_shifted(old(self).nodes@[j], #[trigger] final(self).nodes@[j], 1),
    {
        let ghost pre = *self;
        let parent = self.nodes[i].parent;
        let sc = self.nodes[i].stop_count;
        let mut node = blank_node();
        self.nodes.set_and_swap(i, &mut node);
        node.stop_count = sc + 1;
        self.nodes.set_and_swap(i, &mut node);
        let ghost mid = *self;
        proof {
            assert(mid.nodes@ =~= pre.nodes@.update(i as int, mid.nodes@[i as int]));
            lemma_wf_after_seating_change(pre, mid, i as int);
        }
        match parent {
            Option::None => {
                proof {
                    assert forall|j: int|
                        0 <= j < pre.nodes@.len() && j != i && on_chain(
                            pre,
                            i as int,
                            j,
                        ) implies pass_shifted(pre.nodes@[j], #[trigger] self.nodes@[j], 1) by {
                        assert(j == i as int);
                    }
                }
            },
            Option::Some(p) => {
                proof {
                    assert(pre.node_links_ok(i as int));
                    assert(pass_inc_ok(mid, p as int)) by {
                        lemma_pass_inc_same(pre, mid, p as int, i as int);
                    }
                }
                self.increment_pass_count(p);
                proof {
                    lemma_stop_chain_compose(pre, mid, *self, i as int, p as int, 1);
                }
            },
        }
    }

    /// Lowers the stop count of node `i` and the pass count of every node
    /// above it: the exact inverse of raising them.
    pub fn decrement_stop_count(&mut self, i: usize)
        requires
            old(self).wf(),
            old(self).live(i as int),
            stop_dec_ok(*old(self), i as int),
        ensures
            final(self).wf(),
            final(self).nodes@.len() == old(self).nodes@.len(),
            final(self).free@ == old(self).free@,
            stop_shifted(old(self).nodes@[i as int], final(self).nodes@[i as int], -1),
            forall|j: int|
                0 <= j < old(self).nodes@.len() && j != i && !on_chain(*old(self), i as int, j)
                    ==> final(self).nodes@[j] == old(self).nodes@[j],
            forall|j: int|
                0 <= j < old(self).nodes@.len() && j != i && on_chain(*old(self), i as int, j)
                    ==> pass_shifted(old(self).nodes@[j], #[trigger] final(self).nodes@[j], -1),
    {
        let ghost pre = *self;
        let parent = self.nodes[i].parent;
        let sc = self.nodes[i].stop_count;
        let mut node = blank_node();
        self.nodes.set_and_swap(i, &mut node);
        node.stop_count = sc - 1;
        self.nodes.set_and_swap(i, &mut node);
        let ghost mid = *self;
        proof {
            assert(mid.nodes@ =~= pre.nodes@.update(i as int, mid.nodes@[i as int]));
            lemma_wf_after_seating_change(pre, mid, i as int);
        }
        match parent {
            Option::None => {
                proof {
                    assert forall|j: int|
                        0 <= j < pre.nodes@.len() && j != i && on_chain(
                            pre,
                            i as int,
                            j,
                        ) implies pass_shifted(pre.nodes@[j], #[trigger] self.nodes@[j], -1) by {
                        assert(j == i as int);
                    }
                }
            },
            Option::Some(p) => {
                proof {
                    assert(pre.node_links_ok(i as int));
                    assert(pass_dec_ok(mid, p as int)) by {
                        lemma_pass_dec_same(pre, mid, p as int, i as int);
                    }
                }
                self.decrement_pass_count(p);
                proof {
                    lemma_stop_chain_compose(pre, mid, *self, i as int, p as int, -1);
                }
            },
        }
    }
}

/// Composes the stop bump at `x` with the recursive pass bump above `p`.
proof fn lemma_stop_chain_compose(
    pre: PypTree,
    mid: PypTree,
    post: PypTree,
    x: int,
    p: int,
    delta: int,
)
    requires
        pre.nodes@.len() <= usize::MAX,
        0 <= x < pre.nodes@.len(),
        pre.nodes@[x].parent == Option::Some(p as usize),
        0 <= p < pre.nodes@.len(),
        pre.nodes@[p].depth + 1 == pre.nodes@[x].depth,
        mid.nodes@.len() == pre.nodes@.len(),
        forall|m: int| 0 <= m < pre.nodes@.len() && m != x ==> mid.nodes@[m] == pre.nodes@[m],
        stop_shifted(pre.nodes@[x], mid.nodes@[x], delta),
        post.nodes@.len() == mid.nodes@.len(),
        forall|j: int|
            0 <= j < mid.nodes@.len() && !on_chain(mid, p, j) ==> post.nodes@[j] == mid.nodes@[j],
        forall|j: int|
            0 <= j < mid.nodes@.len() && on_chain(mid, p, j) ==> pass_shifted(
                mid.nodes@[j],
                #[trigger] post.nodes@[j],
                delta,
            ),
    ensures
        stop_shifted(pre.nodes@[x], post.nodes@[x], delta),
        forall|j: int|
            0 <= j < pre.nodes@.len() && j != x && !on_chain(pre, x, j) ==> post.nodes@[j]
                == pre.nodes@[j],
        forall|j: int|
            0 <= j < pre.nodes@.len() && j != x && on_chain(pre, x, j) ==> pass_shifted(
                pre.nodes@[j],
                #[trigger] post.nodes@[j],
                delta,
            ),
{
    assert forall|m: int|
        0 <= m < pre.nodes@.len() implies (#[trigger] mid.nodes@[m]).parent
        == pre.nodes@[m].parent && mid.nodes@[m].depth == pre.nodes@[m].depth by {
        if m != x {
            assert(mid.nodes@[m] == pre.nodes@[m]);
        }
    }
    assert(stop_shifted(pre.nodes@[x], post.nodes@[x], delta)) by {
        lemma_on_chain_same_links(mid, pre, p, x);
        if on_chain(pre, p, x) {
            lemma_on_chain_depth(pre, p, x);
            assert(false);
        }
        assert(post.nodes@[x] == mid.nodes@[x]);
    }
    assert forall|j: int|
        0 <= j < pre.nodes@.len() && j != x && !on_chain(pre, x, j) implies post.nodes@[j]
        == pre.nodes@[j] by {
        assert(on_chain(pre, x, j) == (j == x as int || on_chain(pre, p, j)));
        lemma_on_chain_same_links(mid, pre, p, j);
        assert(!on_chain(mid, p, j));
        assert(post.nodes@[j] == mid.nodes@[j]);
        assert(mid.nodes@[j] == pre.nodes@[j]);
    }
    assert forall|j: int|
        0 <= j < pre.nodes@.len() && j != x && on_chain(pre, x, j) implies pass_shifted(
        pre.nodes@[j],
        #[trigger] post.nodes@[j],
        delta,
    ) by {
        lemma_on_chain_same_links(mid, pre, p, j);
        assert(on_chain(pre, x, j) == (j == x as int || on_chain(pre, p, j)));
        assert(on_chain(mid, p, j));
        assert(pass_shifted(mid.nodes@[j], post.nodes@[j], delta));
        assert(mid.nodes@[j] == pre.nodes@[j]);
    }
}

/// Serving a dish along a chain is unaffected by a change strictly below it.
proof fn lemma_dish_chain_same(pre: PypTree, mid: PypTree, p: int, x: int, dish: u64)
    requires
        0 <= x < pre.nodes@.len(),
        0 <= p < pre.nodes@.len(),
        pre.nodes@[p].depth < pre.nodes@[x].depth,
        dish_on_chain(pre, p, dish),
        mid.nodes@.len() == pre.nodes@.len(),
        forall|m: int| 0 <= m < pre.nodes@.len() && m != x ==> mid.nodes@[m] == pre.nodes@[m],
    ensures
        dish_on_chain(mid, p, dish),
    decreases pre.nodes@[p].depth,
{
    assert(mid.nodes@[p] == pre.nodes@[p]);
    match pre.nodes@[p].parent {
        Option::None => {},
        Option::Some(q) => {
            lemma_dish_chain_same(pre, mid, q as int, x, dish);
        },
    }
}

/// Counter headroom along a chain is unaffected by a change strictly below it.
proof fn lemma_headroom_chain_same(pre: PypTree, mid: PypTree, p: int, x: int)
    requires
        0 <= x < pre.nodes@.len(),
        0 <= p < pre.nodes@.len(),
        pre.nodes@[p].depth < pre.nodes@[x].depth,
        chain_headroom(pre, p),
        mid.nodes@.len() == pre.nodes@.len(),
        forall|m: int| 0 <= m < pre.nodes@.len() && m != x ==> mid.nodes@[m] == pre.nodes@[m],
    ensures
        chain_headroom(mid, p),
    decreases pre.nodes@[p].depth,
{
    assert(mid.nodes@[p] == pre.nodes@[p]);
    match pre.nodes@[p].parent {
        Option::None => {},
        Option::Some(q) => {
            lemma_headroom_chain_same(pre, mid, q as int, x);
        },
    }
}

/// What one arriving customer does to the dish counts: joining a table keeps
/// the table count; opening a table raises it by one; either way one more
/// customer of the dish is seated and every other dish is untouched.
pub proof fn lemma_add_step_counts(pre: NodeModel, post: NodeModel, dish: u64)
    requires
        model_ok(pre),
        add_step(pre, post, dish),
    ensures
        dish_customers(post.tablegroups, dish) == dish_customers(pre.tablegroups, dish) + 1,
        add_new_table_step(pre, post, dish) ==> dish_tables(post.tablegroups, dish) == dish_tables(
            pre.tablegroups,
            dish,
        ) + 1,
        (exists|k: int| add_join_step(pre, post, dish, k)) ==> dish_tables(post.tablegroups, dish)
            == dish_tables(pre.tablegroups, dish),
        forall|d2: u64|
            d2 != dish ==> #[trigger] dish_customers(post.tablegroups, d2) == dish_customers(
                pre.tablegroups,
                d2,
            ) && dish_tables(post.tablegroups, d2) == dish_tables(pre.tablegroups, d2),
{
    if tgs_has_dish(pre.tablegroups, dish) {
        let t = tgs_dish_idx(pre.tablegroups, dish);
        if add_new_table_step(pre, post, dish) {
            let e = (dish, pre.tablegroups[t].1.push(1));
            assert(post.tablegroups == pre.tablegroups.update(t, e));
            lemma_seg_sum_push(pre.tablegroups[t].1, 1);
            lemma_dish_idx_unique(post.tablegroups, dish, t);
            lemma_other_dishes_same_update(pre.tablegroups, post.tablegroups, t, dish);
        } else {
            let k = choose|k: int| add_join_step(pre, post, dish, k);
            let tables = pre.tablegroups[t].1;
            let e = (dish, tables.update(k, (tables[k] + 1) as usize));
            assert(post.tablegroups == pre.tablegroups.update(t, e));
            lemma_seg_sum_update(tables, k, (tables[k] + 1) as usize);
            lemma_dish_idx_unique(post.tablegroups, dish, t);
            lemma_other_dishes_same_update(pre.tablegroups, post.tablegroups, t, dish);
        }
    } else {
        assert(add_new_table_step(pre, post, dish)) by {
            if !add_new_table_step(pre, post, dish) {
                let k = choose|k: int| add_join_step(pre, post, dish, k);
                assert(add_join_step(pre, post, dish, k));
                assert(false);
            }
        }
        let e = (dish, seq![1usize]);
        assert(post.tablegroups == pre.tablegroups.push(e));
        lemma_dish_idx_unique_push(pre.tablegroups, dish, e);
        assert(table_total(seq![1usize]) == 1) by {
            assert(seg_sum(seq![1usize], 1, 1) == 0);
            assert(seg_sum(seq![1usize], 0, 1) == 1);
        }
        lemma_other_dishes_same_push(pre.tablegroups, post.tablegroups, dish);
    }
}

/// What one leaving customer does to the dish counts.
pub proof fn lemma_remove_step_counts(pre: NodeModel, post: NodeModel, dish: u64, k: int)
    requires
        model_ok(pre),
        remove_at_step(pre, post, dish, k),
    ensures
        dish_customers(post.tablegroups, dish) == dish_customers(pre.tablegroups, dish) - 1,
        unseat_closes_table(pre, dish, k) ==> dish_tables(post.tablegroups, dish) == dish_tables(
            pre.tablegroups,
            dish,
        ) - 1,
        !unseat_closes_table(pre, dish, k) ==> dish_tables(post.tablegroups, dish) == dish_tables(
            pre.tablegroups,
            dish,
        ),
        forall|d2: u64|
            d2 != dish ==> #[trigger] dish_customers(post.tablegroups, d2) == dish_customers(
                pre.tablegroups,
                d2,
            ) && dish_tables(post.tablegroups, d2) == dish_tables(pre.tablegroups, d2),
{
    let t = tgs_dish_idx(pre.tablegroups, dish);
    let tables = pre.tablegroups[t].1;
    if tables[k] > 1 {
        let e = (dish, tables.update(k, (tables[k] - 1) as usize));
        assert(post.tablegroups == pre.tablegroups.update(t, e));
        lemma_seg_sum_update(tables, k, (tables[k] - 1) as usize);
        lemma_dish_idx_unique(post.tablegroups, dish, t);
        lemma_other_dishes_same_update(pre.tablegroups, post.tablegroups, t, dish);
    } else if tables.len() > 1 {
        let e = (dish, tables.remove(k));
        assert(post.tablegroups == pre.tablegroups.update(t, e));
        lemma_seg_sum_remove(tables, k);
        lemma_dish_idx_unique(post.tablegroups, dish, t);
        lemma_other_dishes_same_update(pre.tablegroups, post.tablegroups, t, dish);
    } else {
        assert(post.tablegroups == pre.tablegroups.remove(t));
        assert(table_total(tables) == tables[k]) by {
            lemma_seg_sum_last(tables, 0, 0);
        }
        assert(!tgs_has_dish(post.tablegroups, dish)) by {
            if tgs_has_dish(post.tablegroups, dish) {
                let w = tgs_dish_idx(post.tablegroups, dish);
                let w0 = if w < t {
                    w
                } else {
                    w + 1
                };
                assert(post.tablegroups[w] == pre.tablegroups[w0]);
                assert(pre.tablegroups[w0].0 == dish);
                assert(w0 != t);
                if w0 < t {
                    assert(pre.tablegroups[w0].0 != pre.tablegroups[t].0);
                } else {
                    assert(pre.tablegroups[t].0 != pre.tablegroups[w0].0);
                }
                assert(false);
            }
        }
        lemma_other_dishes_same_remove(pre.tablegroups, post.tablegroups, t, dish);
    }
}

/// After updating the dish's own restaurant, every other dish reads the same.
proof fn lemma_other_dishes_same_update(
    pre: Seq<(u64, Seq<usize>)>,
    post: Seq<(u64, Seq<usize>)>,
    t: int,
    dish: u64,
)
    requires
        tgs_distinct(pre),
        0 <= t < pre.len(),
        pre[t].0 == dish,
        post.len() == pre.len(),
        post[t].0 == dish,
        forall|m: int| 0 <= m < pre.len() && m != t ==> post[m] == pre[m],
    ensures
        forall|d2: u64|
            d2 != dish ==> #[trigger] dish_customers(post, d2) == dish_customers(pre, d2)
                && dish_tables(post, d2) == dish_tables(pre, d2),
{
    assert forall|d2: u64| d2 != dish implies #[trigger] dish_customers(post, d2)
        == dish_customers(pre, d2) && dish_tables(post, d2) == dish_tables(pre, d2) by {
        assert(tgs_distinct(post));
        if tgs_has_dish(pre, d2) {
            let w = tgs_dish_idx(pre, d2);
            assert(pre[w].0 == d2);
            assert(w != t);
            assert(post[w] == pre[w]);
            lemma_dish_idx_unique(post, d2, w);
        } else {
            if tgs_has_dish(post, d2) {
                let w = tgs_dish_idx(post, d2);
                assert(post[w].0 == d2);
                assert(w != t);
                assert(pre[w] == post[w]);
                assert(false);
            }
        }
    }
}

proof fn lemma_other_dishes_same_push(
    pre: Seq<(u64, Seq<usize>)>,
    post: Seq<(u64, Seq<usize>)>,
    dish: u64,
)
    requires
        tgs_distinct(pre),
        !tgs_has_dish(pre, dish),
        post.len() == pre.len() + 1,
        post[pre.len() as int].0 == dish,
        forall|m: int| 0 <= m < pre.len() ==> post[m] == pre[m],
    ensures
        forall|d2: u64|
            d2 != dish ==> #[trigger] dish_customers(post, d2) == dish_customers(pre, d2)
                && dish_tables(post, d2) == dish_tables(pre, d2),
{
    assert(tgs_distinct(post)) by {
        assert forall|a: int, b: int| 0 <= a < b < post.len() implies (#[trigger] post[a]).0 != (
        #[trigger] post[b]).0 by {
            if b == pre.len() as int {
                assert(post[a] == pre[a]);
                if pre[a].0 == dish {
                    assert(tgs_has_dish(pre, dish));
                    assert(false);
                }
            }
        }
    }
    assert forall|d2: u64| d2 != dish implies #[trigger] dish_customers(post, d2)
        == dish_customers(pre, d2) && dish_tables(post, d2) == dish_tables(pre, d2) by {
        if tgs_has_dish(pre, d2) {
            let w = tgs_dish_idx(pre, d2);
            assert(pre[w].0 == d2);
            assert(post[w] == pre[w]);
            lemma_dish_idx_unique(post, d2, w);
        } else {
            if tgs_has_dish(post, d2) {
                let w = tgs_dish_idx(post, d2);
                assert(post[w].0 == d2);
                assert(w != pre.len() as int);
                assert(pre[w] == post[w]);
                assert(false);
            }
        }
    }
}

proof fn lemma_other_dishes_same_remove(
    pre: Seq<(u64, Seq<usize>)>,
    post: Seq<(u64, Seq<usize>)>,
    t: int,
    dish: u64,
)
    requires
        tgs_distinct(pre),
        0 <= t < pre.len(),
        pre[t].0 == dish,
        post == pre.remove(t),
    ensures
        forall|d2: u64|
            d2 != dish ==> #[trigger] dish_customers(post, d2) == dish_customers(pre, d2)
                && dish_tables(post, d2) == dish_tables(pre, d2),
{
    assert(tgs_distinct(post)) by {
        assert forall|a: int, b: int| 0 <= a < b < post.len() implies (#[trigger] post[a]).0 != (
        #[trigger] post[b]).0 by {
            let a0 = if a < t {
                a
            } else {
                a + 1
            };
            let b0 = if b < t {
                b
            } else {
                b + 1
            };
            assert(post[a] == pre[a0]);
            assert(post[b] == pre[b0]);
        }
    }
    assert forall|d2: u64| d2 != dish implies #[trigger] dish_customers(post, d2)
        == dish_customers(pre, d2) && dish_tables(post, d2) == dish_tables(pre, d2) by {
        if tgs_has_dish(pre, d2) {
            let w0 = tgs_dish_idx(pre, d2);
            assert(pre[w0].0 == d2);
            assert(w0 != t);
            let w = if w0 < t {
                w0
            } else {
                w0 - 1
            };
            assert(post[w] == pre[w0]);
            lemma_dish_idx_unique(post, d2, w);
        } else {
            if tgs_has_dish(post, d2) {
                let w = tgs_dish_idx(post, d2);
                let w0 = if w < t {
                    w
                } else {
                    w + 1
                };
                assert(post[w] == pre[w0]);
                assert(false);
            }
        }
    }
}

/// A freshly pushed dish is found at the end.
proof fn lemma_dish_idx_unique_push(
    pre: Seq<(u64, Seq<usize>)>,
    dish: u64,
    e: (u64, Seq<usize>),
)
    requires
        tgs_distinct(pre),
        !tgs_has_dish(pre, dish),
        e.0 == dish,
    ensures
        tgs_has_dish(pre.push(e), dish),
        tgs_dish_idx(pre.push(e), dish) == pre.len() as int,
{
    let post = pre.push(e);
    assert(post[pre.len() as int] == e);
    assert(tgs_has_dish(post, dish));
    let w = tgs_dish_idx(post, dish);
    if w != pre.len() as int {
        assert(post[w] == pre[w]);
        assert(tgs_has_dish(pre, dish));
        assert(false);
    }
}


impl PypTree {
    /// Returns the child of node `i` over `dish`, creating it when absent.
    /// Fails only when a fresh slot cannot be addressed any more.
    pub fn get_or_create_child(&mut self, i: usize, dish: u64) -> (r: Option<usize>)
        requires
            old(self).wf(),
            old(self).live(i as int),
        ensures
            final(self).wf(),
            final(self).live(i as int),
            match r {
                Option::Some(c) => {
                    &&& final(self).live(c as int)
                    &&& final(self).nodes@[c as int].parent == Option::Some(i)
                    &&& final(self).nodes@[c as int].context == dish
                    &&& final(self).nodes@[c as int].depth == old(self).nodes@[i as int].depth + 1
                    &&& ch_has(final(self).nodes@[i as int].children@, dish)
                    &&& child_of(final(self).nodes@[i as int].children@, dish) == c as int
                    &&& if ch_has(old(self).nodes@[i as int].children@, dish) {
                        &&& *final(self) == *old(self)
                        &&& c as int == child_of(old(self).nodes@[i as int].children@, dish)
                    } else {
                        &&& c < final(self).nodes@.len()
                        &&& !old(self).live(c as int)
                        &&& ((c < old(self).nodes@.len() && final(self).nodes@.len() == old(self).nodes@.len()) || (c == old(self).nodes@.len() && final(self).nodes@.len() == old(self).nodes@.len() + 1))
                        &&& final(self).nodes@[c as int].model().tablegroups.len() == 0
                        &&& final(self).nodes@[c as int].ncustomers == 0
                        &&& final(self).nodes@[c as int].ntables == 0
                        &&& final(self).nodes@[c as int].stop_count == 0
                        &&& final(self).nodes@[c as int].pass_count == 0
                        &&& final(self).nodes@[c as int].children@.len() == 0
                        &&& old(self).nodes@.len() <= final(self).nodes@.len()
                        &&& forall|j: int|
                            0 <= j < old(self).nodes@.len() && j != i && j != c ==> final(self).nodes@[j] == old(self).nodes@[j]
                        &&& final(self).nodes@[i as int].children@ == old(self).nodes@[i as int]
                            .children@.push((dish, c))
                        &&& final(self).nodes@[i as int].model() == old(self).nodes@[i as int]
                            .model()
                        &&& final(self).nodes@[i as int].live
                        &&& final(self).nodes@[i as int].parent == old(self).nodes@[i as int].parent
                        &&& final(self).nodes@[i as int].depth == old(self).nodes@[i as int].depth
                        &&& final(self).nodes@[i as int].context == old(self).nodes@[i as int]
                            .context
                    }
                },
                Option::None => *final(self) == *old(self) && (old(self).nodes@[i as int].depth
                    == usize::MAX || (old(self).free@.len() == 0 && old(self).nodes@.len()
                    == usize::MAX)),
            },
    {
        let ghost pre = *self;
        match self.find_child(i, dish) {
            Option::Some(c) => Option::Some(c),
            Option::None => {
                if self.nodes[i].depth == usize::MAX {
                    return Option::None;
                }
                if self.free.len() == 0 && self.nodes.len() == usize::MAX {
                    return Option::None;
                }
                let depth = self.nodes[i].depth + 1;
                let fresh = PypNode {
                    live: true,
                    parent: Option::Some(i),
                    children: Vec::new(),
                    tablegroups: Vec::new(),
                    ntables: 0,
                    ncustomers: 0,
                    stop_count: 0,
                    pass_count: 0,
                    depth,
                    context: dish,
                };
                let c: usize;
                if self.free.len() > 0 {
                    c = self.free[self.free.len() - 1];
                    self.free.pop();
                    proof {
                        assert(self.free@ =~= pre.free@.drop_last());
                    }
                    self.nodes.set(c, fresh);
                } else {
                    c = self.nodes.len();
                    self.nodes.push(fresh);
                }
                let ghost mid = *self;
                let mut node = blank_node();
                self.nodes.set_and_swap(i, &mut node);
                node.children.push((dish, c));
                self.nodes.set_and_swap(i, &mut node);
                proof {
                    lemma_wf_after_create_child(pre, *self, i as int, c as int, dish);
                    assert(final(self).nodes@[i as int].model() =~= old(self).nodes@[i as int]
                        .model());
                    lemma_child_idx_unique(
                        self.nodes@[i as int].children@,
                        dish,
                        self.nodes@[i as int].children@.len() - 1,
                    );
                }
                Option::Some(c)
            },
        }
    }

    /// Detaches the empty node `i` from its parent and recycles its slot.
    pub fn remove_from_parent(&mut self, i: usize) -> (r: bool)
        requires
            old(self).wf(),
            old(self).live(i as int),
        ensures
            final(self).wf(),
            r == {
                &&& old(self).nodes@[i as int].parent is Some
                &&& old(self).nodes@[i as int].children@.len() == 0
                &&& old(self).nodes@[i as int].tablegroups@.len() == 0
            },
            !r ==> *final(self) == *old(self),
            r ==> {
                &&& !final(self).live(i as int)
                &&& final(self).nodes@.len() == old(self).nodes@.len()
                &&& forall|j: int|
                    0 <= j < old(self).nodes@.len() && j != i && j != old(self).nodes@[i as int]
                        .parent->Some_0 ==> final(self).nodes@[j] == old(self).nodes@[j]
                &&& {
                    let p = old(self).nodes@[i as int].parent->Some_0 as int;
                    &&& final(self).nodes@[p].model() == old(self).nodes@[p].model()
                    &&& final(self).nodes@[p].live
                    &&& final(self).nodes@[p].parent == old(self).nodes@[p].parent
                    &&& final(self).nodes@[p].depth == old(self).nodes@[p].depth
                    &&& final(self).nodes@[p].context == old(self).nodes@[p].context
                    &&& !ch_has(final(self).nodes@[p].children@, old(self).nodes@[i as int].context)
                }
            },
    {
        let ghost pre = *self;
        if !self.need_to_remove_from_parent(i) {
            return false;
        }
        let p = match self.nodes[i].parent {
            Option::Some(p) => p,
            Option::None => {
                proof {
                    assert(false);
                }
                0
            },
        };
        let context = self.nodes[i].context;
        proof {
            assert(pre.node_links_ok(i as int));
        }
        // Find the entry for this node in the parent's child list.
        let ghost pchildren = pre.nodes@[p as int].children@;
        let n = self.nodes[p].children.len();
        let mut j: usize = 0;
        while j < n && self.nodes[p].children[j].0 != context
            invariant
                *self == pre,
                self.live(p as int),
                p < self.nodes@.len(),
                0 <= j <= n == pchildren.len(),
                self.nodes@[p as int].children@ == pchildren,
                forall|m: int| 0 <= m < j ==> (#[trigger] pchildren[m]).0 != context,
            decreases n - j,
        {
            j += 1;
        }
        proof {
            if j == n {
                let w = ch_idx(pchildren, context);
                assert(pchildren[w].0 == context);
                assert(false);
            }
            lemma_child_idx_unique(pchildren, context, j as int);
        }
        let mut pnode = blank_node();
        self.nodes.set_and_swap(p, &mut pnode);
        pnode.children.remove(j);
        self.nodes.set_and_swap(p, &mut pnode);
        // Kill the node itself and recycle the slot.
        let mut dead = blank_node();
        self.nodes.set_and_swap(i, &mut dead);
        self.free.push(i);
        proof {
            lemma_wf_after_detach(pre, *self, i as int, p as int, context);
            assert(final(self).nodes@[p as int].model() =~= old(self).nodes@[p as int].model());
        }
        true
    }

    /// Detaches the child of node `i` over `dish` when that child is empty:
    /// the entry leaves the child list and the slot is recycled. A missing or
    /// still-occupied child leaves everything unchanged.
    pub fn delete_child_node(&mut self, i: usize, dish: u64) -> (r: bool)
        requires
            old(self).wf(),
            old(self).live(i as int),
        ensures
            final(self).wf(),
            r == (ch_has(old(self).nodes@[i as int].children@, dish) && old(self).nodes@[child_of(
                old(self).nodes@[i as int].children@,
                dish,
            )].children@.len() == 0 && old(self).nodes@[child_of(
                old(self).nodes@[i as int].children@,
                dish,
            )].tablegroups@.len() == 0),
            !r ==> *final(self) == *old(self),
            r ==> {
                let c = child_of(old(self).nodes@[i as int].children@, dish);
                &&& !final(self).live(c)
                &&& final(self).nodes@.len() == old(self).nodes@.len()
                &&& forall|j: int|
                    0 <= j < old(self).nodes@.len() && j != i && j != c ==> final(self).nodes@[j]
                        == old(self).nodes@[j]
                &&& final(self).live(i as int)
                &&& final(self).nodes@[i as int].model() == old(self).nodes@[i as int].model()
                &&& final(self).nodes@[i as int].parent == old(self).nodes@[i as int].parent
                &&& final(self).nodes@[i as int].depth == old(self).nodes@[i as int].depth
                &&& final(self).nodes@[i as int].context == old(self).nodes@[i as int].context
                &&& !ch_has(final(self).nodes@[i as int].children@, dish)
            },
    {
        let c_opt = self.find_child(i, dish);
        match c_opt {
            Option::None => false,
            Option::Some(c) => {
                proof {
                    assert(old(self).node_links_ok(i as int));
                    let w = ch_idx(old(self).nodes@[i as int].children@, dish);
                    assert(old(self).nodes@[i as int].children@[w].0 == dish);
                    assert(old(self).nodes@[c as int].parent == Option::Some(i));
                    assert(old(self).nodes@[c as int].context == dish);
                }
                let rr = self.remove_from_parent(c);
                proof {
                    if rr {
                        assert(final(self).nodes@[i as int].model() == old(self).nodes@[i as int]
                            .model());
                    }
                }
                rr
            },
        }
    }
}

/// Adding a fresh leaf under `i` keeps the tree well formed.
proof fn lemma_wf_after_create_child(pre: PypTree, post: PypTree, i: int, c: int, dish: u64)
    requires
        pre.wf(),
        pre.live(i),
        !ch_has(pre.nodes@[i].children@, dish),
        pre.nodes@[i].depth < usize::MAX,
        0 <= c < post.nodes@.len(),
        post.nodes@.len() <= usize::MAX,
        c != i,
        !pre.live(c),
        pre.nodes@.len() <= post.nodes@.len(),
        post.nodes@.len() <= pre.nodes@.len() + 1,
        c < pre.nodes@.len() || c == pre.nodes@.len(),
        forall|j: int| 0 <= j < pre.nodes@.len() && j != i && j != c ==> post.nodes@[j]
            == pre.nodes@[j],
        c == pre.nodes@.len() ==> post.nodes@.len() == pre.nodes@.len() + 1,
        c < pre.nodes@.len() ==> post.nodes@.len() == pre.nodes@.len(),
        // the fresh child
        post.nodes@[c].live,
        post.nodes@[c].parent == Option::Some(i as usize),
        post.nodes@[c].children@.len() == 0,
        post.nodes@[c].tablegroups@.len() == 0,
        post.nodes@[c].ncustomers == 0,
        post.nodes@[c].ntables == 0,
        post.nodes@[c].depth == pre.nodes@[i].depth + 1,
        post.nodes@[c].context == dish,
        // the parent's new child list
        post.nodes@[i].live,
        post.nodes@[i].parent == pre.nodes@[i].parent,
        post.nodes@[i].children@ == pre.nodes@[i].children@.push((dish, c as usize)),
        post.nodes@[i].tablegroups == pre.nodes@[i].tablegroups,
        post.nodes@[i].ntables == pre.nodes@[i].ntables,
        post.nodes@[i].ncustomers == pre.nodes@[i].ncustomers,
        post.nodes@[i].stop_count == pre.nodes@[i].stop_count,
        post.nodes@[i].pass_count == pre.nodes@[i].pass_count,
        post.nodes@[i].depth == pre.nodes@[i].depth,
        post.nodes@[i].context == pre.nodes@[i].context,
        // the free list: either unchanged (append case) or with `c` popped
        c == pre.nodes@.len() ==> post.free@ == pre.free@,
        c < pre.nodes@.len() ==> pre.free@.len() >= 1 && post.free@ == pre.free@.drop_last()
            && pre.free@.last() == c as usize,
    ensures
        post.wf(),
{
    assert(post.nodes@[0].live && post.nodes@[0].parent is None && post.nodes@[0].depth == 0) by {
        assert(c != 0);
        if i != 0 {
            assert(post.nodes@[0] == pre.nodes@[0]);
        }
    }
    assert forall|j: int| #[trigger] post.live(j) implies model_ok(post.nodes@[j].model())
        && post.node_links_ok(j) by {
        if j == c {
            assert(post.nodes@[c].model().tablegroups =~= Seq::<(u64, Seq<usize>)>::empty());
            assert(tgs_customers(post.nodes@[c].model().tablegroups) == 0);
            assert(tgs_tables(post.nodes@[c].model().tablegroups) == 0);
            assert(model_ok(post.nodes@[c].model()));
            assert(post.live(i));
            assert(ch_has(post.nodes@[i].children@, dish) && child_of(
                post.nodes@[i].children@,
                dish,
            ) == c) by {
                lemma_child_idx_unique(
                    post.nodes@[i].children@,
                    dish,
                    pre.nodes@[i].children@.len() as int,
                );
            }
            assert(post.node_links_ok(j));
        } else {
            assert(pre.live(j));
            assert(model_ok(pre.nodes@[j].model()));
            assert(pre.node_links_ok(j));
            if j == i {
                assert(post.nodes@[j].model() =~= pre.nodes@[j].model());
            } else {
                assert(post.nodes@[j] == pre.nodes@[j]);
            }
            assert(model_ok(post.nodes@[j].model()));
            // links
            let n_pre = pre.nodes@[j];
            let n_post = post.nodes@[j];
            assert(n_post.parent == n_pre.parent);
            match n_pre.parent {
                Option::None => {},
                Option::Some(p) => {
                    assert(pre.live(p as int));
                    assert(p as int != c);
                    assert(post.live(p as int));
                    if p as int == i {
                        assert(post.nodes@[i].children@ == pre.nodes@[i].children@.push(
                            (dish, c as usize),
                        ));
                        let w = ch_idx(pre.nodes@[i].children@, n_pre.context);
                        assert(pre.nodes@[i].children@[w].0 == n_pre.context);
                        assert(post.nodes@[i].children@[w] == pre.nodes@[i].children@[w]);
                        assert(ch_distinct(post.nodes@[i].children@)) by {
                            lemma_push_distinct(pre.nodes@[i].children@, dish, c as usize);
                        }
                        lemma_child_idx_unique(post.nodes@[i].children@, n_pre.context, w);
                    } else {
                        assert(post.nodes@[p as int] == pre.nodes@[p as int]);
                    }
                },
            }
            assert(ch_distinct(n_post.children@)) by {
                if j == i {
                    lemma_push_distinct(pre.nodes@[i].children@, dish, c as usize);
                }
            }
            assert forall|m: int| 0 <= m < n_post.children@.len() implies {
                &&& post.live((#[trigger] n_post.children@[m]).1 as int)
                &&& n_post.children@[m].1 != 0
                &&& n_post.children@[m].1 != j
                &&& post.nodes@[n_post.children@[m].1 as int].parent == Option::Some(j as usize)
                &&& post.nodes@[n_post.children@[m].1 as int].context == n_post.children@[m].0
                &&& post.nodes@[n_post.children@[m].1 as int].depth == n_post.depth + 1
            } by {
                if j == i && m == n_post.children@.len() - 1 {
                    assert(n_post.children@[m] == (dish, c as usize));
                    assert(c != 0);
                } else {
                    assert(n_post.children@[m] == n_pre.children@[m]);
                    assert(pre.live(n_pre.children@[m].1 as int));
                    assert(n_pre.children@[m].1 as int != c);
                    if n_pre.children@[m].1 as int == i {
                        assert(pre.nodes@[i].parent == Option::Some(j as usize));
                    } else {
                        assert(post.nodes@[n_pre.children@[m].1 as int] == pre.nodes@[n_pre
                            .children@[m].1 as int]);
                    }
                }
            }
        }
    }
    assert forall|a: int|
        0 <= a < post.free@.len() implies 0 < (#[trigger] post.free@[a]) < post.nodes@.len()
        && !post.nodes@[post.free@[a] as int].live by {
        if c < pre.nodes@.len() {
            assert(post.free@[a] == pre.free@[a]);
            assert(pre.free@[a] != pre.free@[pre.free@.len() - 1]);
            assert(post.free@[a] as int != c);
            assert(post.free@[a] as int != i);
        } else {
            assert(post.free@[a] == pre.free@[a]);
            assert(post.free@[a] as int != c);
            assert(post.free@[a] as int != i);
        }
    }
}

/// Pushing a fresh dish keeps a child list distinct.
proof fn lemma_push_distinct(children: Seq<(u64, usize)>, dish: u64, c: usize)
    requires
        ch_distinct(children),
        !ch_has(children, dish),
    ensures
        ch_distinct(children.push((dish, c))),
{
    let post = children.push((dish, c));
    assert forall|a: int, b: int| 0 <= a < b < post.len() implies (#[trigger] post[a]).0 != (
    #[trigger] post[b]).0 by {
        if b == children.len() as int {
            assert(post[a] == children[a]);
            if children[a].0 == dish {
                assert(ch_has(children, dish));
                assert(false);
            }
        } else {
            assert(post[a] == children[a]);
            assert(post[b] == children[b]);
        }
    }
}

/// Detaching an empty leaf keeps the tree well formed.
proof fn lemma_wf_after_detach(pre: PypTree, post: PypTree, i: int, p: int, context: u64)
    requires
        pre.wf(),
        pre.live(i),
        pre.nodes@[i].parent == Option::Some(p as usize),
        pre.nodes@[i].children@.len() == 0,
        pre.nodes@[i].tablegroups@.len() == 0,
        pre.nodes@[i].context == context,
        0 <= p < pre.nodes@.len(),
        post.nodes@.len() == pre.nodes@.len(),
        forall|j: int| 0 <= j < pre.nodes@.len() && j != i && j != p ==> post.nodes@[j]
            == pre.nodes@[j],
        !post.nodes@[i].live,
        post.nodes@[p].live == pre.nodes@[p].live,
        post.nodes@[p].parent == pre.nodes@[p].parent,
        post.nodes@[p].children@ == pre.nodes@[p].children@.remove(
            ch_idx(pre.nodes@[p].children@, context),
        ),
        post.nodes@[p].tablegroups == pre.nodes@[p].tablegroups,
        post.nodes@[p].ntables == pre.nodes@[p].ntables,
        post.nodes@[p].ncustomers == pre.nodes@[p].ncustomers,
        post.nodes@[p].stop_count == pre.nodes@[p].stop_count,
        post.nodes@[p].pass_count == pre.nodes@[p].pass_count,
        post.nodes@[p].depth == pre.nodes@[p].depth,
        post.nodes@[p].context == pre.nodes@[p].context,
        post.free@ == pre.free@.push(i as usize),
    ensures
        post.wf(),
        !ch_has(post.nodes@[p].children@, context),
{
    let w = ch_idx(pre.nodes@[p].children@, context);
    assert(pre.node_links_ok(i));
    assert(pre.node_links_ok(p));
    assert(ch_has(pre.nodes@[p].children@, context));
    assert(0 <= w < pre.nodes@[p].children@.len());
    assert(pre.nodes@[p].children@[w].0 == context);
    assert(pre.nodes@[p].children@[w].1 as int == i) by {
        assert(child_of(pre.nodes@[p].children@, context) == i);
    }
    let pch = pre.nodes@[p].children@;
    let qch = post.nodes@[p].children@;
    // the removed dish is gone
    assert(!ch_has(qch, context)) by {
        if ch_has(qch, context) {
            let v = ch_idx(qch, context);
            let v0 = if v < w {
                v
            } else {
                v + 1
            };
            assert(qch[v] == pch[v0]);
            assert(pch[v0].0 == context);
            assert(v0 != w);
            if v0 < w {
                assert(pch[v0].0 != pch[w].0);
            } else {
                assert(pch[w].0 != pch[v0].0);
            }
            assert(false);
        }
    }
    assert(i != 0);
    assert(post.nodes@[0].live && post.nodes@[0].parent is None && post.nodes@[0].depth == 0) by {
        if p != 0 {
            assert(post.nodes@[0] == pre.nodes@[0]);
        }
    }
    // no live node other than through p's removed entry pointed at i
    assert forall|j: int| #[trigger] post.live(j) implies model_ok(post.nodes@[j].model())
        && post.node_links_ok(j) by {
        assert(j != i);
        assert(pre.live(j));
        if j == p {
            assert(post.nodes@[j].model() =~= pre.nodes@[j].model());
        } else {
            assert(post.nodes@[j] == pre.nodes@[j]);
        }
        assert(model_ok(post.nodes@[j].model()));
        let n_pre = pre.nodes@[j];
        let n_post = post.nodes@[j];
        assert(pre.node_links_ok(j));
        assert(n_post.parent == n_pre.parent);
        match n_pre.parent {
            Option::None => {},
            Option::Some(q) => {
                assert(pre.live(q as int));
                assert(q as int != i) by {
                    if q as int == i {
                        assert(ch_has(pre.nodes@[i].children@, n_pre.context));
                        assert(false);
                    }
                }
                assert(post.live(q as int));
                if q as int == p {
                    assert(j != i);
                    let v0 = ch_idx(pch, n_pre.context);
                    assert(pch[v0].0 == n_pre.context);
                    assert(v0 != w) by {
                        assert(child_of(pch, n_pre.context) == j);
                    }
                    let v = if v0 < w {
                        v0
                    } else {
                        v0 - 1
                    };
                    assert(qch[v] == pch[v0]);
                    assert(ch_distinct(qch)) by {
                        lemma_remove_distinct(pch, w);
                    }
                    lemma_child_idx_unique(qch, n_pre.context, v);
                } else {
                    assert(post.nodes@[q as int] == pre.nodes@[q as int]);
                }
            },
        }
        assert(ch_distinct(n_post.children@)) by {
            if j == p {
                lemma_remove_distinct(pch, w);
            }
        }
        assert forall|m: int| 0 <= m < n_post.children@.len() implies {
            &&& post.live((#[trigger] n_post.children@[m]).1 as int)
            &&& n_post.children@[m].1 != 0
            &&& n_post.children@[m].1 != j
            &&& post.nodes@[n_post.children@[m].1 as int].parent == Option::Some(j as usize)
            &&& post.nodes@[n_post.children@[m].1 as int].context == n_post.children@[m].0
            &&& post.nodes@[n_post.children@[m].1 as int].depth == n_post.depth + 1
        } by {
            let m0 = if j == p {
                if m < w {
                    m
                } else {
                    m + 1
                }
            } else {
                m
            };
            assert(n_post.children@[m] == n_pre.children@[m0]);
            let target = n_pre.children@[m0].1 as int;
            assert(pre.live(target));
            assert(target != i) by {
                if target == i {
                    assert(pre.nodes@[i].parent == Option::Some(j as usize));
                    assert(j == p);
                    assert(n_pre.children@[m0].0 == pre.nodes@[i].context);
                    assert(m0 != w);
                    if m0 < w {
                        assert(pch[m0].0 != pch[w].0);
                    } else {
                        assert(pch[w].0 != pch[m0].0);
                    }
                    assert(false);
                }
            }
            if target == p {
                assert(post.nodes@[target].parent == pre.nodes@[target].parent);
                assert(post.nodes@[target].context == pre.nodes@[target].context);
                assert(post.nodes@[target].depth == pre.nodes@[target].depth);
                assert(post.nodes@[target].live == pre.nodes@[target].live);
            } else {
                assert(post.nodes@[target] == pre.nodes@[target]);
            }
        }
    }
    assert forall|a: int|
        0 <= a < post.free@.len() implies 0 < (#[trigger] post.free@[a]) < post.nodes@.len()
        && !post.nodes@[post.free@[a] as int].live by {
        if a < pre.free@.len() {
            assert(post.free@[a] == pre.free@[a]);
            assert(pre.free@[a] as int != i) by {
                if pre.free@[a] as int == i {
                    assert(!pre.nodes@[i].live);
                    assert(false);
                }
            }
            assert(pre.free@[a] as int != p || !pre.nodes@[p].live);
        } else {
            assert(post.free@[a] == i as usize);
        }
    }
    assert forall|a: int, b: int|
        0 <= a < b < post.free@.len() implies (#[trigger] post.free@[a]) != (
    #[trigger] post.free@[b]) by {
        if b == pre.free@.len() as int {
            assert(post.free@[a] == pre.free@[a]);
            if pre.free@[a] as int == i {
                assert(!pre.nodes@[i].live);
                assert(false);
            }
        }
    }
}

/// Removing an entry keeps a child list distinct.
proof fn lemma_remove_distinct(children: Seq<(u64, usize)>, w: int)
    requires
        ch_distinct(children),
        0 <= w < children.len(),
    ensures
        ch_distinct(children.remove(w)),
{
    let post = children.remove(w);
    assert forall|a: int, b: int| 0 <= a < b < post.len() implies (#[trigger] post[a]).0 != (
    #[trigger] post[b]).0 by {
        let a0 = if a < w {
            a
        } else {
            a + 1
        };
        let b0 = if b < w {
            b
        } else {
            b + 1
        };
        assert(post[a] == children[a0]);
        assert(post[b] == children[b0]);
    }
}


impl PypTree {
    /// Whether node `i` currently serves `dish` at all.
    pub fn serves_dish(&self, i: usize, dish: u64) -> (r: bool)
        requires
            self.wf(),
            self.live(i as int),
        ensures
            r == tgs_has_dish(self.model_at(i as int).tablegroups, dish),
    {
        match self.find_dish(i, dish) {
            Option::Some(_) => true,
            Option::None => false,
        }
    }

    /// Whether `dish` is served at node `i` and at every node above it.
    pub fn serves_dish_on_chain(&self, i: usize, dish: u64) -> (r: bool)
        requires
            self.wf(),
            self.live(i as int),
        ensures
            r == dish_on_chain(*self, i as int, dish),
        decreases self.nodes@[i as int].depth,
    {
        if !self.serves_dish(i, dish) {
            proof {
                assert(!dish_on_chain(*self, i as int, dish));
            }
            return false;
        }
        match self.nodes[i].parent {
            Option::None => true,
            Option::Some(p) => {
                proof {
                    assert(self.node_links_ok(i as int));
                }
                self.serves_dish_on_chain(p, dish)
            },
        }
    }

    /// Whether every node on the chain of `i` can count one more customer
    /// and one more table.
    pub fn has_chain_headroom(&self, i: usize) -> (r: bool)
        requires
            self.wf(),
            self.live(i as int),
        ensures
            r == chain_headroom(*self, i as int),
        decreases self.nodes@[i as int].depth,
    {
        if self.nodes[i].ncustomers == usize::MAX || self.nodes[i].ntables == usize::MAX {
            return false;
        }
        match self.nodes[i].parent {
            Option::None => true,
            Option::Some(p) => {
                proof {
                    assert(self.node_links_ok(i as int));
                }
                self.has_chain_headroom(p)
            },
        }
    }

    /// Removes one customer of `dish` from node `i`, choosing the table at
    /// random in proportion to its occupancy; a table that empties closes,
    /// and the closing in turn removes one customer of the dish from the
    /// parent, all the way up while tables keep closing. Returns, for the
    /// root, whether one of its tables for this dish closed and which one.
    pub fn remove_customer(&mut self, i: usize, dish: u64) -> (r: Option<(bool, usize)>)
        requires
            old(self).wf(),
            old(self).live(i as int),
        ensures
            final(self).wf(),
            final(self).live(i as int),
            r is None ==> *final(self) == *old(self) && !dish_on_chain(
                *old(self),
                i as int,
                dish,
            ),
            r is Some ==> dish_on_chain(*old(self), i as int, dish) && {
                let rk = r->Some_0;
                &&& final(self).nodes@.len() == old(self).nodes@.len()
                &&& final(self).free@ == old(self).free@
                &&& forall|j: int|
                    0 <= j < old(self).nodes@.len() && !on_chain(*old(self), i as int, j)
                        ==> final(self).nodes@[j] == old(self).nodes@[j]
                &&& forall|j: int|
                    0 <= j < old(self).nodes@.len() && on_chain(*old(self), i as int, j)
                        ==> final(self).nodes@[j] == old(self).nodes@[j] || (old(self).nodes@[j]
                        .same_shape(#[trigger] final(self).nodes@[j]) && remove_step(
                        old(self).nodes@[j].model(),
                        final(self).nodes@[j].model(),
                        dish,
                    ))
                &&& old(self).nodes@[i as int].same_shape(final(self).nodes@[i as int])
                &&& remove_step(
                    old(self).model_at(i as int),
                    final(self).model_at(i as int),
                    dish,
                )
                &&& final(self).spec_dish_customers(i as int, dish) == old(self).spec_dish_customers(
                    i as int,
                    dish,
                ) - 1
                &&& rk.0 ==> final(self).spec_dish_tables(0, dish) == old(self).spec_dish_tables(0, dish) - 1
                &&& !rk.0 ==> final(self).spec_dish_tables(0, dish) == old(self).spec_dish_tables(0, dish)
                &&& rk.0 ==> rk.1 < old(self).spec_dish_tables(0, dish)
                &&& remove_cascade_links(*old(self), *final(self), i as int, dish)
            },
    {
        if !self.serves_dish_on_chain(i, dish) {
            return Option::None;
        }
        let rr = self.remove_customer_at(i, dish);
        Option::Some(rr)
    }

    /// The recursive worker behind customer removal.
    fn remove_customer_at(&mut self, i: usize, dish: u64) -> (r: (bool, usize))
        requires
            old(self).wf(),
            old(self).live(i as int),
            dish_on_chain(*old(self), i as int, dish),
        ensures
            final(self).wf(),
            final(self).live(i as int),
            final(self).nodes@.len() == old(self).nodes@.len(),
            final(self).free@ == old(self).free@,
            forall|j: int|
                0 <= j < old(self).nodes@.len() && !on_chain(*old(self), i as int, j) ==> final(self).nodes@[j] == old(self).nodes@[j],
            forall|j: int|
                0 <= j < old(self).nodes@.len() && on_chain(*old(self), i as int, j) ==> final(self).nodes@[j] == old(self).nodes@[j] || (old(self).nodes@[j].same_shape(
                    #[trigger] final(self).nodes@[j],
                ) && remove_step(
                    old(self).nodes@[j].model(),
                    final(self).nodes@[j].model(),
                    dish,
                )),
            old(self).nodes@[i as int].same_shape(final(self).nodes@[i as int]),
            remove_step(old(self).model_at(i as int), final(self).model_at(i as int), dish),
            final(self).spec_dish_customers(i as int, dish) == old(self).spec_dish_customers(
                i as int,
                dish,
            ) - 1,
            r.0 ==> final(self).spec_dish_tables(0, dish) == old(self).spec_dish_tables(0, dish)
                - 1,
            !r.0 ==> final(self).spec_dish_tables(0, dish) == old(self).spec_dish_tables(0, dish),
            r.0 ==> r.1 < old(self).spec_dish_tables(0, dish),
            remove_cascade_links(*old(self), *final(self), i as int, dish),
        decreases old(self).nodes@[i as int].depth,
    {
        let ghost pre = *self;
        let ghost m0 = pre.model_at(i as int);
        let ghost t = tgs_dish_idx(m0.tablegroups, dish);
        let tables = self.tables_of_dish(i, dish);
        proof {
            assert(model_ok(m0));
            assert(tgs_has_dish(m0.tablegroups, dish));
            assert(0 <= t < m0.tablegroups.len());
            assert(tables@ == m0.tablegroups[t].1);
            assert(1 <= tables@.len());
            lemma_seg_sum_lower_bound(tables@, 0, tables@.len() as int);
            lemma_restaurant_le_total(m0.tablegroups, t);
        }
        let k = sample_weighted_index(&tables);
        let (ok, closed) = self.unseat_from_table(i, dish, k);
        proof {
            assert(ok);
            lemma_remove_step_counts(m0, self.model_at(i as int), dish, k as int);
        }
        let ghost mid = *self;
        if !closed {
            proof {
                assert forall|j: int|
                    0 <= j < pre.nodes@.len() && !on_chain(pre, i as int, j) implies self.nodes@[j]
                    == pre.nodes@[j] by {
                    assert(j != i as int);
                }
                if i != 0 {
                    assert(self.nodes@[0] == pre.nodes@[0]);
                    assert(self.model_at(0) == pre.model_at(0));
                }
                lemma_cascade_when_only_entry_changed(pre, *self, i as int, dish);
            }
            return (false, 0);
        }
        let parent = self.nodes[i].parent;
        match parent {
            Option::None => {
                proof {
                    assert(pre.node_links_ok(i as int));
                    assert(i as int == 0);
                    assert forall|j: int|
                        0 <= j < pre.nodes@.len() && !on_chain(pre, i as int, j) implies self
                        .nodes@[j] == pre.nodes@[j] by {
                        assert(j != i as int);
                    }
                    assert forall|j: int|
                        #[trigger] on_chain(pre, i as int, j) && 0 <= j < pre.nodes@.len()
                            && pre.nodes@[j].parent is Some implies false by {
                        lemma_on_chain_depth(pre, i as int, j);
                        assert(j == 0);
                        assert(pre.nodes@[0].parent is None);
                    }
                }
                (true, k)
            },
            Option::Some(p) => {
                proof {
                    assert(pre.node_links_ok(i as int));
                    assert(dish_on_chain(pre, p as int, dish));
                    lemma_dish_chain_same(pre, mid, p as int, i as int, dish);
                    assert(i as int != 0);
                    assert(0 < mid.spec_dish_tables(0, dish) || true);
                }
                let rr = self.remove_customer_at(p, dish);
                proof {
                    lemma_remove_chain_compose(pre, mid, *self, i as int, p as int, dish);
                    assert(mid.nodes@[0] == pre.nodes@[0]);
                }
                rr
            },
        }
    }

    /// Adds one customer of `dish` at node `i`. The choice vector holds, per
    /// depth, the table the customer joins there; a choice at or beyond the
    /// number of occupied tables (in particular for an unseen dish) opens a
    /// new table, which in turn sends one customer of the dish to the parent.
    /// Returns whether a new table opened at the root.
    pub fn add_customer_with_choices(&mut self, i: usize, dish: u64, choices: &Vec<usize>) -> (r:
        bool)
        requires
            old(self).wf(),
            old(self).live(i as int),
            chain_headroom(*old(self), i as int),
            old(self).nodes@[i as int].depth < choices@.len(),
        ensures
            final(self).wf(),
            final(self).live(i as int),
            final(self).nodes@.len() == old(self).nodes@.len(),
            final(self).free@ == old(self).free@,
            forall|j: int|
                0 <= j < old(self).nodes@.len() && !on_chain(*old(self), i as int, j) ==> final(self).nodes@[j] == old(self).nodes@[j],
            forall|j: int|
                0 <= j < old(self).nodes@.len() && on_chain(*old(self), i as int, j) ==> final(self).nodes@[j] == old(self).nodes@[j] || (old(self).nodes@[j].same_shape(
                    #[trigger] final(self).nodes@[j],
                ) && add_step(
                    old(self).nodes@[j].model(),
                    final(self).nodes@[j].model(),
                    dish,
                )),
            old(self).nodes@[i as int].same_shape(final(self).nodes@[i as int]),
            add_step(old(self).model_at(i as int), final(self).model_at(i as int), dish),
            final(self).spec_dish_customers(i as int, dish) == old(self).spec_dish_customers(
                i as int,
                dish,
            ) + 1,
            r ==> final(self).spec_dish_tables(0, dish) == old(self).spec_dish_tables(0, dish) + 1,
            !r ==> final(self).spec_dish_tables(0, dish) == old(self).spec_dish_tables(0, dish),
            add_cascade_links(*old(self), *final(self), i as int, dish),
        decreases old(self).nodes@[i as int].depth,
    {
        let ghost pre = *self;
        let ghost m0 = pre.model_at(i as int);
        let d = self.nodes[i].depth;
        let c = choices[d];
        let nt = self.get_num_tables_serving_dish(i, dish);
        if nt > 0 && c < nt {
            proof {
                assert(tgs_has_dish(m0.tablegroups, dish));
                let t = tgs_dish_idx(m0.tablegroups, dish);
                lemma_restaurant_le_total(m0.tablegroups, t);
                lemma_table_elem_le_total(m0.tablegroups[t].1, c as int);
                assert(can_join(m0, dish, c as int));
            }
            let ok = self.seat_at_existing_table(i, dish, c);
            proof {
                assert(ok);
                lemma_add_step_counts(m0, self.model_at(i as int), dish);
                assert forall|j: int|
                    0 <= j < pre.nodes@.len() && !on_chain(pre, i as int, j) implies self.nodes@[j]
                    == pre.nodes@[j] by {
                    assert(j != i as int);
                }
                if i != 0 {
                    assert(self.nodes@[0] == pre.nodes@[0]);
                }
                lemma_cascade_when_only_entry_changed(pre, *self, i as int, dish);
            }
            false
        } else {
            let ok = self.seat_at_new_table(i, dish);
            proof {
                assert(ok);
                lemma_add_step_counts(m0, self.model_at(i as int), dish);
            }
            let ghost mid = *self;
            let parent = self.nodes[i].parent;
            match parent {
                Option::None => {
                    proof {
                        assert(pre.node_links_ok(i as int));
                        assert(i as int == 0);
                        assert forall|j: int|
                            0 <= j < pre.nodes@.len() && !on_chain(pre, i as int, j) implies self
                            .nodes@[j] == pre.nodes@[j] by {
                            assert(j != i as int);
                        }
                        assert forall|j: int|
                            #[trigger] on_chain(pre, i as int, j) && 0 <= j < pre.nodes@.len()
                                && pre.nodes@[j].parent is Some implies false by {
                            lemma_on_chain_depth(pre, i as int, j);
                            assert(j == 0);
                            assert(pre.nodes@[0].parent is None);
                        }
                    }
                    true
                },
                Option::Some(p) => {
                    proof {
                        assert(pre.node_links_ok(i as int));
                        assert(chain_headroom(pre, p as int));
                        lemma_headroom_chain_same(pre, mid, p as int, i as int);
                    }
                    let r2 = self.add_customer_with_choices(p, dish, choices);
                    proof {
                        lemma_add_chain_compose(pre, mid, *self, i as int, p as int, dish);
                        assert(mid.nodes@[0] == pre.nodes@[0]);
                    }
                    r2
                },
            }
        }
    }
}

/// Composes the removal at `x` with the recursive removal above `p`.
proof fn lemma_remove_chain_compose(
    pre: PypTree,
    mid: PypTree,
    post: PypTree,
    x: int,
    p: int,
    dish: u64,
)
    requires
        pre.wf(),
        pre.live(x),
        pre.nodes@.len() <= usize::MAX,
        0 <= x < pre.nodes@.len(),
        pre.nodes@[x].parent == Option::Some(p as usize),
        0 <= p < pre.nodes@.len(),
        pre.nodes@[p].depth + 1 == pre.nodes@[x].depth,
        mid.nodes@.len() == pre.nodes@.len(),
        forall|m: int| 0 <= m < pre.nodes@.len() && m != x ==> mid.nodes@[m] == pre.nodes@[m],
        pre.nodes@[x].same_shape(mid.nodes@[x]),
        remove_step(pre.nodes@[x].model(), mid.nodes@[x].model(), dish),
        mid.nodes@[x].model().ntables < pre.nodes@[x].model().ntables,
        post.nodes@.len() == mid.nodes@.len(),
        forall|j: int|
            0 <= j < mid.nodes@.len() && !on_chain(mid, p, j) ==> post.nodes@[j] == mid.nodes@[j],
        forall|j: int|
            0 <= j < mid.nodes@.len() && on_chain(mid, p, j) ==> post.nodes@[j] == mid.nodes@[j]
                || (mid.nodes@[j].same_shape(#[trigger] post.nodes@[j]) && remove_step(
                mid.nodes@[j].model(),
                post.nodes@[j].model(),
                dish,
            )),
        mid.nodes@[p].same_shape(post.nodes@[p]),
        remove_step(mid.nodes@[p].model(), post.nodes@[p].model(), dish),
        remove_cascade_links(mid, post, p, dish),
    ensures
        pre.nodes@[x].same_shape(post.nodes@[x]),
        remove_step(pre.nodes@[x].model(), post.nodes@[x].model(), dish),
        forall|j: int|
            0 <= j < pre.nodes@.len() && !on_chain(pre, x, j) ==> post.nodes@[j] == pre.nodes@[j],
        forall|j: int|
            0 <= j < pre.nodes@.len() && on_chain(pre, x, j) ==> post.nodes@[j] == pre.nodes@[j]
                || (pre.nodes@[j].same_shape(#[trigger] post.nodes@[j]) && remove_step(
                pre.nodes@[j].model(),
                post.nodes@[j].model(),
                dish,
            )),
        remove_cascade_links(pre, post, x, dish),
{
    assert forall|m: int|
        0 <= m < pre.nodes@.len() implies (#[trigger] mid.nodes@[m]).parent
        == pre.nodes@[m].parent && mid.nodes@[m].depth == pre.nodes@[m].depth by {
        if m != x {
            assert(mid.nodes@[m] == pre.nodes@[m]);
        }
    }
    assert(pre.nodes@[x].same_shape(post.nodes@[x]) && remove_step(
        pre.nodes@[x].model(),
        post.nodes@[x].model(),
        dish,
    )) by {
        lemma_on_chain_same_links(mid, pre, p, x);
        if on_chain(pre, p, x) {
            lemma_on_chain_depth(pre, p, x);
            assert(false);
        }
        assert(post.nodes@[x] == mid.nodes@[x]);
    }
    assert forall|j: int|
        0 <= j < pre.nodes@.len() && !on_chain(pre, x, j) implies post.nodes@[j]
        == pre.nodes@[j] by {
        assert(on_chain(pre, x, j) == (j == x || on_chain(pre, p, j)));
        lemma_on_chain_same_links(mid, pre, p, j);
        assert(!on_chain(mid, p, j));
        assert(post.nodes@[j] == mid.nodes@[j]);
        assert(mid.nodes@[j] == pre.nodes@[j]);
    }
    assert forall|j: int|
        0 <= j < pre.nodes@.len() && on_chain(pre, x, j) implies post.nodes@[j] == pre.nodes@[j]
        || (pre.nodes@[j].same_shape(#[trigger] post.nodes@[j]) && remove_step(
        pre.nodes@[j].model(),
        post.nodes@[j].model(),
        dish,
    )) by {
        lemma_on_chain_same_links(mid, pre, p, j);
        if j == x {
        } else {
            assert(on_chain(pre, x, j) == (j == x || on_chain(pre, p, j)));
            assert(on_chain(mid, p, j));
            assert(mid.nodes@[j] == pre.nodes@[j]);
        }
    }
    assert forall|j: int|
        #[trigger] on_chain(pre, x, j) && 0 <= j < pre.nodes@.len()
            && pre.nodes@[j].parent is Some implies {
        let q = pre.nodes@[j].parent->Some_0 as int;
        &&& (post.nodes@[j].model().ntables < pre.nodes@[j].model().ntables ==> pre.nodes@[q]
            .same_shape(post.nodes@[q]) && remove_step(
            pre.nodes@[q].model(),
            post.nodes@[q].model(),
            dish,
        ))
        &&& (post.nodes@[j].model().ntables == pre.nodes@[j].model().ntables
            ==> post.nodes@[q] == pre.nodes@[q])
    } by {
        lemma_on_chain_live(pre, x, j);
        assert(pre.node_links_ok(j));
        let q = pre.nodes@[j].parent->Some_0 as int;
        lemma_on_chain_same_links(mid, pre, p, j);
        if j == x {
            assert(q == p);
            if on_chain(pre, p, x) {
                lemma_on_chain_depth(pre, p, x);
                assert(false);
            }
            assert(post.nodes@[x] == mid.nodes@[x]);
            assert(mid.nodes@[p] == pre.nodes@[p]);
        } else {
            assert(on_chain(pre, x, j) == (j == x || on_chain(pre, p, j)));
            assert(on_chain(mid, p, j));
            assert(mid.nodes@[j] == pre.nodes@[j]);
            lemma_on_chain_depth_strict(pre, x, j);
            assert(pre.nodes@[q].depth + 1 == pre.nodes@[j].depth);
            assert(q != x);
            assert(mid.nodes@[q] == pre.nodes@[q]);
            assert(mid.nodes@[j].parent == pre.nodes@[j].parent);
            if post.nodes@[j].model().ntables < pre.nodes@[j].model().ntables {
                assert(post.nodes@[j].model().ntables < mid.nodes@[j].model().ntables);
            }
        }
    }
}

/// Composes the seating at `x` with the recursive seating above `p`.
proof fn lemma_add_chain_compose(
    pre: PypTree,
    mid: PypTree,
    post: PypTree,
    x: int,
    p: int,
    dish: u64,
)
    requires
        pre.wf(),
        pre.live(x),
        mid.nodes@[x].model().ntables > pre.nodes@[x].model().ntables,
        mid.nodes@[p].same_shape(post.nodes@[p]),
        add_step(mid.nodes@[p].model(), post.nodes@[p].model(), dish),
        add_cascade_links(mid, post, p, dish),
        pre.nodes@.len() <= usize::MAX,
        0 <= x < pre.nodes@.len(),
        pre.nodes@[x].parent == Option::Some(p as usize),
        0 <= p < pre.nodes@.len(),
        pre.nodes@[p].depth + 1 == pre.nodes@[x].depth,
        mid.nodes@.len() == pre.nodes@.len(),
        forall|m: int| 0 <= m < pre.nodes@.len() && m != x ==> mid.nodes@[m] == pre.nodes@[m],
        pre.nodes@[x].same_shape(mid.nodes@[x]),
        add_step(pre.nodes@[x].model(), mid.nodes@[x].model(), dish),
        post.nodes@.len() == mid.nodes@.len(),
        forall|j: int|
            0 <= j < mid.nodes@.len() && !on_chain(mid, p, j) ==> post.nodes@[j] == mid.nodes@[j],
        forall|j: int|
            0 <= j < mid.nodes@.len() && on_chain(mid, p, j) ==> post.nodes@[j] == mid.nodes@[j]
                || (mid.nodes@[j].same_shape(#[trigger] post.nodes@[j]) && add_step(
                mid.nodes@[j].model(),
                post.nodes@[j].model(),
                dish,
            )),
    ensures
        pre.nodes@[x].same_shape(post.nodes@[x]),
        add_step(pre.nodes@[x].model(), post.nodes@[x].model(), dish),
        forall|j: int|
            0 <= j < pre.nodes@.len() && !on_chain(pre, x, j) ==> post.nodes@[j] == pre.nodes@[j],
        forall|j: int|
            0 <= j < pre.nodes@.len() && on_chain(pre, x, j) ==> post.nodes@[j] == pre.nodes@[j]
                || (pre.nodes@[j].same_shape(#[trigger] post.nodes@[j]) && add_step(
                pre.nodes@[j].model(),
                post.nodes@[j].model(),
                dish,
            )),
        add_cascade_links(pre, post, x, dish),
{
    assert forall|m: int|
        0 <= m < pre.nodes@.len() implies (#[trigger] mid.nodes@[m]).parent
        == pre.nodes@[m].parent && mid.nodes@[m].depth == pre.nodes@[m].depth by {
        if m != x {
            assert(mid.nodes@[m] == pre.nodes@[m]);
        }
    }
    assert(pre.nodes@[x].same_shape(post.nodes@[x]) && add_step(
        pre.nodes@[x].model(),
        post.nodes@[x].model(),
        dish,
    )) by {
        lemma_on_chain_same_links(mid, pre, p, x);
        if on_chain(pre, p, x) {
            lemma_on_chain_depth(pre, p, x);
            assert(false);
        }
        assert(post.nodes@[x] == mid.nodes@[x]);
    }
    assert forall|j: int|
        0 <= j < pre.nodes@.len() && !on_chain(pre, x, j) implies post.nodes@[j]
        == pre.nodes@[j] by {
        assert(on_chain(pre, x, j) == (j == x || on_chain(pre, p, j)));
        lemma_on_chain_same_links(mid, pre, p, j);
        assert(!on_chain(mid, p, j));
        assert(post.nodes@[j] == mid.nodes@[j]);
        assert(mid.nodes@[j] == pre.nodes@[j]);
    }
    assert forall|j: int|
        0 <= j < pre.nodes@.len() && on_chain(pre, x, j) implies post.nodes@[j] == pre.nodes@[j]
        || (pre.nodes@[j].same_shape(#[trigger] post.nodes@[j]) && add_step(
        pre.nodes@[j].model(),
        post.nodes@[j].model(),
        dish,
    )) by {
        lemma_on_chain_same_links(mid, pre, p, j);
        if j == x {
        } else {
            assert(on_chain(pre, x, j) == (j == x || on_chain(pre, p, j)));
            assert(on_chain(mid, p, j));
            assert(mid.nodes@[j] == pre.nodes@[j]);
        }
    }
    assert forall|j: int|
        #[trigger] on_chain(pre, x, j) && 0 <= j < pre.nodes@.len()
            && pre.nodes@[j].parent is Some implies {
        let q = pre.nodes@[j].parent->Some_0 as int;
        &&& (post.nodes@[j].model().ntables > pre.nodes@[j].model().ntables ==> pre.nodes@[q]
            .same_shape(post.nodes@[q]) && add_step(
            pre.nodes@[q].model(),
            post.nodes@[q].model(),
            dish,
        ))
        &&& (post.nodes@[j].model().ntables == pre.nodes@[j].model().ntables
            ==> post.nodes@[q] == pre.nodes@[q])
    } by {
        lemma_on_chain_live(pre, x, j);
        assert(pre.node_links_ok(j));
        let q = pre.nodes@[j].parent->Some_0 as int;
        lemma_on_chain_same_links(mid, pre, p, j);
        if j == x {
            assert(q == p);
            if on_chain(pre, p, x) {
                lemma_on_chain_depth(pre, p, x);
                assert(false);
            }
            assert(post.nodes@[x] == mid.nodes@[x]);
            assert(mid.nodes@[p] == pre.nodes@[p]);
        } else {
            assert(on_chain(pre, x, j) == (j == x || on_chain(pre, p, j)));
            assert(on_chain(mid, p, j));
            assert(mid.nodes@[j] == pre.nodes@[j]);
            lemma_on_chain_depth_strict(pre, x, j);
            assert(pre.nodes@[q].depth + 1 == pre.nodes@[j].depth);
            assert(q != x);
            assert(mid.nodes@[q] == pre.nodes@[q]);
            assert(mid.nodes@[j].parent == pre.nodes@[j].parent);
            if post.nodes@[j].model().ntables > pre.nodes@[j].model().ntables {
                assert(post.nodes@[j].model().ntables > mid.nodes@[j].model().ntables);
            }
        }
    }
}


/// Total customers cached in the first `n` slots, live nodes only.
pub open spec fn prefix_customers(t: PypTree, n: int) -> int
    decreases n,
{
    if n <= 0 {
        0
    } else {
        prefix_customers(t, n - 1) + if t.nodes@[n - 1].live {
            t.nodes@[n - 1].ncustomers as int
        } else {
            0
        }
    }
}

/// Total tables cached in the first `n` slots, live nodes only.
pub open spec fn prefix_tables(t: PypTree, n: int) -> int
    decreases n,
{
    if n <= 0 {
        0
    } else {
        prefix_tables(t, n - 1) + if t.nodes@[n - 1].live {
            t.nodes@[n - 1].ntables as int
        } else {
            0
        }
    }
}

/// Total stop counts in the first `n` slots, live nodes only.
pub open spec fn prefix_stops(t: PypTree, n: int) -> int
    decreases n,
{
    if n <= 0 {
        0
    } else {
        prefix_stops(t, n - 1) + if t.nodes@[n - 1].live {
            t.nodes@[n - 1].stop_count as int
        } else {
            0
        }
    }
}

/// Total pass counts in the first `n` slots, live nodes only.
pub open spec fn prefix_passes(t: PypTree, n: int) -> int
    decreases n,
{
    if n <= 0 {
        0
    } else {
        prefix_passes(t, n - 1) + if t.nodes@[n - 1].live {
            t.nodes@[n - 1].pass_count as int
        } else {
            0
        }
    }
}

/// How many of the first `n` slots hold live nodes.
pub open spec fn prefix_live(t: PypTree, n: int) -> int
    decreases n,
{
    if n <= 0 {
        0
    } else {
        prefix_live(t, n - 1) + if t.nodes@[n - 1].live {
            1int
        } else {
            0int
        }
    }
}

/// An integer clipped to what a machine word can carry.
pub open spec fn saturated(x: int) -> int {
    if x > usize::MAX {
        usize::MAX as int
    } else {
        x
    }
}

impl PypTree {
    /// The number of nodes below the root.
    pub fn get_num_nodes(&self) -> (r: usize)
        requires
            self.wf(),
        ensures
            r == prefix_live(*self, self.nodes@.len() as int) - 1,
    {
        let n = self.nodes.len();
        let mut count: usize = 0;
        let mut i: usize = 0;
        while i < n
            invariant
                0 <= i <= n == self.nodes@.len(),
                count == prefix_live(*self, i as int),
                count <= i,
            decreases n - i,
        {
            if self.nodes[i].live {
                count += 1;
            }
            i += 1;
        }
        proof {
            lemma_prefix_live_counts_root(*self, n as int);
        }
        count - 1
    }

    /// The sum of the per-node table totals, clipped at the machine bound.
    pub fn get_num_tables(&self) -> (r: usize)
        requires
            self.wf(),
        ensures
            r == saturated(prefix_tables(*self, self.nodes@.len() as int)),
    {
        let n = self.nodes.len();
        let mut count: usize = 0;
        let mut i: usize = 0;
        while i < n
            invariant
                0 <= i <= n == self.nodes@.len(),
                count == saturated(prefix_tables(*self, i as int)),
            decreases n - i,
        {
            if self.nodes[i].live {
                let v = self.nodes[i].ntables;
                if count <= usize::MAX - v {
                    count += v;
                } else {
                    count = usize::MAX;
                }
            }
            i += 1;
        }
        count
    }

    /// The sum of the per-node customer totals, clipped at the machine bound.
    pub fn get_num_customers(&self) -> (r: usize)
        requires
            self.wf(),
        ensures
            r == saturated(prefix_customers(*self, self.nodes@.len() as int)),
    {
        let n = self.nodes.len();
        let mut count: usize = 0;
        let mut i: usize = 0;
        while i < n
            invariant
                0 <= i <= n == self.nodes@.len(),
                count == saturated(prefix_customers(*self, i as int)),
            decreases n - i,
        {
            if self.nodes[i].live {
                let v = self.nodes[i].ncustomers;
                if count <= usize::MAX - v {
                    count += v;
                } else {
                    count = usize::MAX;
                }
            }
            i += 1;
        }
        count
    }

    /// The sum of the stop counts, clipped at the machine bound.
    pub fn get_stop_counts(&self) -> (r: usize)
        requires
            self.wf(),
        ensures
            r == saturated(prefix_stops(*self, self.nodes@.len() as int)),
    {
        let n = self.nodes.len();
        let mut count: usize = 0;
        let mut i: usize = 0;
        while i < n
            invariant
                0 <= i <= n == self.nodes@.len(),
                count == saturated(prefix_stops(*self, i as int)),
            decreases n - i,
        {
            if self.nodes[i].live {
                let v = self.nodes[i].stop_count;
                if count <= usize::MAX - v {
                    count += v;
                } else {
                    count = usize::MAX;
                }
            }
            i += 1;
        }
        count
    }

    /// The sum of the pass counts, clipped at the machine bound.
    pub fn get_pass_counts(&self) -> (r: usize)
        requires
            self.wf(),
        ensures
            r == saturated(prefix_passes(*self, self.nodes@.len() as int)),
    {
        let n = self.nodes.len();
        let mut count: usize = 0;
        let mut i: usize = 0;
        while i < n
            invariant
                0 <= i <= n == self.nodes@.len(),
                count == saturated(prefix_passes(*self, i as int)),
            decreases n - i,
        {
            if self.nodes[i].live {
                let v = self.nodes[i].pass_count;
                if count <= usize::MAX - v {
                    count += v;
                } else {
                    count = usize::MAX;
                }
            }
            i += 1;
        }
        count
    }

    /// The deepest level at which a live node stands.
    pub fn get_max_depth(&self) -> (r: usize)
        requires
            self.wf(),
        ensures
            forall|j: int| #[trigger] self.live(j) ==> self.nodes@[j].depth <= r,
            exists|j: int| #[trigger] self.live(j) && self.nodes@[j].depth == r,
    {
        let n = self.nodes.len();
        let mut best: usize = 0;
        let mut i: usize = 0;
        while i < n
            invariant
                0 <= i <= n == self.nodes@.len(),
                self.wf(),
                forall|j: int|
                    0 <= j < i && self.nodes@[j].live ==> #[trigger] self.nodes@[j].depth <= best,
                best == 0 || exists|j: int| #[trigger] self.live(j) && self.nodes@[j].depth
                    == best,
            decreases n - i,
        {
            if self.nodes[i].live && self.nodes[i].depth > best {
                best = self.nodes[i].depth;
                proof {
                    assert(self.live(i as int));
                }
            }
            i += 1;
        }
        proof {
            if best == 0 {
                assert(self.live(0) && self.nodes@[0].depth == 0);
            }
        }
        best
    }
}

/// No prefix holds more live nodes than slots.
pub proof fn lemma_prefix_live_le(t: PypTree, n: int)
    requires
        0 <= n <= t.nodes@.len(),
    ensures
        prefix_live(t, n) <= n,
    decreases n,
{
    if n > 0 {
        lemma_prefix_live_le(t, n - 1);
    }
}

/// The live-node count over the whole arena includes the root.
proof fn lemma_prefix_live_counts_root(t: PypTree, n: int)
    requires
        t.nodes@.len() >= 1,
        t.nodes@[0].live,
        1 <= n <= t.nodes@.len(),
    ensures
        prefix_live(t, n) >= 1,
    decreases n,
{
    if n > 1 {
        lemma_prefix_live_counts_root(t, n - 1);
    } else {
        assert(prefix_live(t, 0) == 0);
    }
}


impl PypTree {
    /// Whether the pass counts along the chain of `i` can all be raised.
    pub fn can_increment_pass(&self, i: usize) -> (r: bool)
        requires
            self.wf(),
            self.live(i as int),
        ensures
            r == pass_inc_ok(*self, i as int),
        decreases self.nodes@[i as int].depth,
    {
        if self.nodes[i].pass_count == usize::MAX {
            return false;
        }
        match self.nodes[i].parent {
            Option::None => true,
            Option::Some(p) => {
                proof {
                    assert(self.node_links_ok(i as int));
                }
                self.can_increment_pass(p)
            },
        }
    }

    /// Whether the pass counts along the chain of `i` can all be lowered.
    pub fn can_decrement_pass(&self, i: usize) -> (r: bool)
        requires
            self.wf(),
            self.live(i as int),
        ensures
            r == pass_dec_ok(*self, i as int),
        decreases self.nodes@[i as int].depth,
    {
        if self.nodes[i].pass_count == 0 {
            return false;
        }
        match self.nodes[i].parent {
            Option::None => true,
            Option::Some(p) => {
                proof {
                    assert(self.node_links_ok(i as int));
                }
                self.can_decrement_pass(p)
            },
        }
    }

    /// Whether a stop observation can be counted at node `i`.
    pub fn can_increment_stop(&self, i: usize) -> (r: bool)
        requires
            self.wf(),
            self.live(i as int),
        ensures
            r == stop_inc_ok(*self, i as int),
    {
        if self.nodes[i].stop_count == usize::MAX {
            return false;
        }
        match self.nodes[i].parent {
            Option::None => true,
            Option::Some(p) => {
                proof {
                    assert(self.node_links_ok(i as int));
                }
                self.can_increment_pass(p)
            },
        }
    }

    /// Whether a stop observation can be uncounted at node `i`.
    pub fn can_decrement_stop(&self, i: usize) -> (r: bool)
        requires
            self.wf(),
            self.live(i as int),
        ensures
            r == stop_dec_ok(*self, i as int),
    {
        if self.nodes[i].stop_count == 0 {
            return false;
        }
        match self.nodes[i].parent {
            Option::None => true,
            Option::Some(p) => {
                proof {
                    assert(self.node_links_ok(i as int));
                }
                self.can_decrement_pass(p)
            },
        }
    }
}

/// The pass headroom of a chain depends only on the pass counts and links.
pub proof fn lemma_pass_inc_ok_same_counts(t1: PypTree, t2: PypTree, i: int)
    requires
        t1.nodes@.len() == t2.nodes@.len(),
        forall|m: int|
            0 <= m < t1.nodes@.len() ==> (#[trigger] t2.nodes@[m]).parent == t1.nodes@[m].parent
                && t2.nodes@[m].depth == t1.nodes@[m].depth && t2.nodes@[m].pass_count
                == t1.nodes@[m].pass_count && t2.nodes@[m].stop_count == t1.nodes@[m].stop_count,
        pass_inc_ok(t1, i),
    ensures
        pass_inc_ok(t2, i),
    decreases (if 0 <= i < t1.nodes@.len() {
        t1.nodes@[i].depth as int
    } else {
        0
    }),
{
    match t1.nodes@[i].parent {
        Option::None => {},
        Option::Some(p) => {
            lemma_pass_inc_ok_same_counts(t1, t2, p as int);
        },
    }
}

pub proof fn lemma_pass_dec_ok_same_counts(t1: PypTree, t2: PypTree, i: int)
    requires
        t1.nodes@.len() == t2.nodes@.len(),
        forall|m: int|
            0 <= m < t1.nodes@.len() ==> (#[trigger] t2.nodes@[m]).parent == t1.nodes@[m].parent
                && t2.nodes@[m].depth == t1.nodes@[m].depth && t2.nodes@[m].pass_count
                == t1.nodes@[m].pass_count && t2.nodes@[m].stop_count == t1.nodes@[m].stop_count,
        pass_dec_ok(t1, i),
    ensures
        pass_dec_ok(t2, i),
    decreases (if 0 <= i < t1.nodes@.len() {
        t1.nodes@[i].depth as int
    } else {
        0
    }),
{
    match t1.nodes@[i].parent {
        Option::None => {},
        Option::Some(p) => {
            lemma_pass_dec_ok_same_counts(t1, t2, p as int);
        },
    }
}

/// A seating chain (customers only) never touches stop or pass counts or
/// links, so the stop bookkeeping conditions survive it.
pub proof fn lemma_stop_ok_after_seating(pre: PypTree, post: PypTree, i: int)
    requires
        post.nodes@.len() == pre.nodes@.len(),
        forall|j: int|
            0 <= j < pre.nodes@.len() ==> post.nodes@[j] == pre.nodes@[j] || (pre.nodes@[j]
                .same_shape(#[trigger] post.nodes@[j]) && post.nodes@[j].model().stop_count
                == pre.nodes@[j].model().stop_count && post.nodes@[j].model().pass_count
                == pre.nodes@[j].model().pass_count),
    ensures
        stop_dec_ok(pre, i) ==> stop_dec_ok(post, i),
        stop_inc_ok(pre, i) ==> stop_inc_ok(post, i),
{
    assert forall|m: int|
        0 <= m < pre.nodes@.len() implies (#[trigger] post.nodes@[m]).parent
        == pre.nodes@[m].parent && post.nodes@[m].depth == pre.nodes@[m].depth
        && post.nodes@[m].pass_count == pre.nodes@[m].pass_count && post.nodes@[m].stop_count
        == pre.nodes@[m].stop_count by {
        if post.nodes@[m] == pre.nodes@[m] {
        } else {
            assert(pre.nodes@[m].same_shape(post.nodes@[m]));
        }
    }
    if stop_dec_ok(pre, i) {
        match pre.nodes@[i].parent {
            Option::None => {},
            Option::Some(p) => {
                lemma_pass_dec_ok_same_counts(pre, post, p as int);
            },
        }
    }
    if stop_inc_ok(pre, i) {
        match pre.nodes@[i].parent {
            Option::None => {},
            Option::Some(p) => {
                lemma_pass_inc_ok_same_counts(pre, post, p as int);
            },
        }
    }
}

/// When only the entry node changed, and its table count stands, neither
/// cascade reaches any parent.
proof fn lemma_cascade_when_only_entry_changed(pre: PypTree, post: PypTree, i: int, dish: u64)
    requires
        pre.wf(),
        pre.live(i),
        post.nodes@.len() == pre.nodes@.len(),
        forall|m: int| 0 <= m < pre.nodes@.len() && m != i ==> post.nodes@[m] == pre.nodes@[m],
        post.nodes@[i].model().ntables == pre.nodes@[i].model().ntables,
    ensures
        add_cascade_links(pre, post, i, dish),
        remove_cascade_links(pre, post, i, dish),
{
    assert forall|j: int|
        #[trigger] on_chain(pre, i, j) && 0 <= j < pre.nodes@.len()
            && pre.nodes@[j].parent is Some implies {
        let p = pre.nodes@[j].parent->Some_0 as int;
        &&& post.nodes@[j].model().ntables == pre.nodes@[j].model().ntables
        &&& post.nodes@[p] == pre.nodes@[p]
    } by {
        lemma_on_chain_live(pre, i, j);
        assert(pre.node_links_ok(j));
        let p = pre.nodes@[j].parent->Some_0 as int;
        if j == i {
            assert(pre.nodes@[p].depth + 1 == pre.nodes@[i].depth);
            assert(p != i);
        } else {
            lemma_on_chain_depth_strict(pre, i, j);
            assert(pre.nodes@[p].depth + 1 == pre.nodes@[j].depth);
            assert(p != i);
            assert(post.nodes@[j] == pre.nodes@[j]);
        }
        assert(post.nodes@[p] == pre.nodes@[p]);
    }
}

/// Every live node can still count one more customer, table, stop and pass
/// event: the whole tree stands clear of the machine bounds.
pub open spec fn counters_have_headroom(t: PypTree) -> bool {
    forall|j: int|
        #[trigger] t.live(j) ==> t.nodes@[j].ncustomers < usize::MAX && t.nodes@[j].ntables
            < usize::MAX && t.nodes@[j].stop_count < usize::MAX && t.nodes@[j].pass_count
            < usize::MAX
}

pub proof fn lemma_pass_inc_from_global(t: PypTree, i: int)
    requires
        t.wf(),
        t.live(i),
        counters_have_headroom(t),
    ensures
        pass_inc_ok(t, i),
    decreases t.nodes@[i].depth,
{
    match t.nodes@[i].parent {
        Option::None => {},
        Option::Some(p) => {
            assert(t.node_links_ok(i));
            lemma_pass_inc_from_global(t, p as int);
        },
    }
}

/// Global headroom lets any live node seat a customer and count a stop.
pub proof fn lemma_headroom_from_global(t: PypTree, i: int)
    requires
        t.wf(),
        t.live(i),
        counters_have_headroom(t),
    ensures
        chain_headroom(t, i),
        stop_inc_ok(t, i),
    decreases t.nodes@[i].depth,
{
    match t.nodes@[i].parent {
        Option::None => {},
        Option::Some(p) => {
            assert(t.node_links_ok(i));
            lemma_headroom_from_global(t, p as int);
            lemma_pass_inc_from_global(t, p as int);
        },
    }
}

/// The node reached from the root by consuming the symbols of `path` in
/// order, one child link per symbol.
pub open spec fn spec_walk(t: PypTree, path: Seq<u64>) -> Option<int>
    decreases path.len(),
{
    if path.len() == 0 {
        Option::Some(0)
    } else {
        match spec_walk(t, path.drop_last()) {
            Option::None => Option::None,
            Option::Some(c) => {
                if 0 <= c < t.nodes@.len() && ch_has(t.nodes@[c].children@, path.last()) {
                    Option::Some(child_of(t.nodes@[c].children@, path.last()))
                } else {
                    Option::None
                }
            },
        }
    }
}

/// A dead-end walk stays a dead end on longer paths.
pub proof fn lemma_walk_none_extends(t: PypTree, p1: Seq<u64>, p2: Seq<u64>)
    requires
        spec_walk(t, p1) is None,
        p1.len() <= p2.len(),
        forall|m: int| 0 <= m < p1.len() ==> p1[m] == #[trigger] p2[m],
    ensures
        spec_walk(t, p2) is None,
    decreases p2.len() - p1.len(),
{
    if p1.len() == p2.len() {
        assert(p1 =~= p2);
    } else {
        lemma_walk_none_extends(t, p1, p2.drop_last());
    }
}

/// In a well-formed tree a defined walk lands on a live node, as deep as the
/// path is long.
pub proof fn lemma_walk_lands_live(t: PypTree, path: Seq<u64>)
    requires
        t.wf(),
        spec_walk(t, path) is Some,
    ensures
        t.live(spec_walk(t, path)->Some_0),
        t.nodes@[spec_walk(t, path)->Some_0].depth == path.len(),
    decreases path.len(),
{
    if path.len() == 0 {
    } else {
        lemma_walk_lands_live(t, path.drop_last());
        let y = spec_walk(t, path.drop_last())->Some_0;
        assert(t.node_links_ok(y));
        let w = ch_idx(t.nodes@[y].children@, path.last());
        assert(t.nodes@[y].children@[w].0 == path.last());
        assert(t.live(t.nodes@[y].children@[w].1 as int));
    }
}

/// Attaching one fresh child leaves every already-defined walk unchanged.
pub proof fn lemma_walk_stable_after_attach(
    t1: PypTree,
    t2: PypTree,
    path: Seq<u64>,
    x: int,
    c: int,
    dish: u64,
)
    requires
        t1.wf(),
        spec_walk(t1, path) is Some,
        t1.nodes@.len() <= t2.nodes@.len(),
        forall|m: int| 0 <= m < t1.nodes@.len() && m != x && m != c ==> t2.nodes@[m]
            == t1.nodes@[m],
        t1.live(x),
        !t1.live(c),
        t2.nodes@[x].children@ == t1.nodes@[x].children@.push((dish, c as usize)),
        !ch_has(t1.nodes@[x].children@, dish),
        ch_distinct(t1.nodes@[x].children@),
    ensures
        spec_walk(t2, path) == spec_walk(t1, path),
    decreases path.len(),
{
    if path.len() > 0 {
        lemma_walk_stable_after_attach(t1, t2, path.drop_last(), x, c, dish);
        lemma_walk_lands_live(t1, path.drop_last());
        let y = spec_walk(t1, path.drop_last())->Some_0;
        assert(y != c);
        if y == x {
            let d = path.last();
            assert(ch_has(t1.nodes@[x].children@, d));
            assert(d != dish) by {
                if d == dish {
                    assert(false);
                }
            }
            let w = ch_idx(t1.nodes@[x].children@, d);
            assert(t1.nodes@[x].children@[w].0 == d);
            assert(t2.nodes@[x].children@[w] == t1.nodes@[x].children@[w]);
            lemma_push_distinct(t1.nodes@[x].children@, dish, c as usize);
            lemma_child_idx_unique(t2.nodes@[x].children@, d, w);
        } else {
            assert(t2.nodes@[y] == t1.nodes@[y]);
        }
    }
}

/// One created child extends the walk's preservation picture: the nodes the
/// tree already had keep their seating state, and the one fresh node is
/// empty.
proof fn lemma_walk_preservation_step(
    orig: PypTree,
    before: PypTree,
    after: PypTree,
    cur: int,
    child: int,
)
    requires
        orig.nodes@.len() <= before.nodes@.len(),
        forall|j: int|
            #[trigger] orig.live(j) ==> before.live(j) && before.nodes@[j].model()
                == orig.nodes@[j].model() && before.nodes@[j].parent == orig.nodes@[j].parent
                && before.nodes@[j].depth == orig.nodes@[j].depth && before.nodes@[j].context
                == orig.nodes@[j].context,
        forall|j: int|
            0 <= j < before.nodes@.len() && #[trigger] before.live(j) && !orig.live(j)
                ==> before.nodes@[j].model() == (NodeModel {
                tablegroups: Seq::empty(),
                ncustomers: 0,
                ntables: 0,
                stop_count: 0,
                pass_count: 0,
            }),
        before.nodes@.len() <= after.nodes@.len(),
        after.nodes@.len() == before.nodes@.len() || (child == before.nodes@.len()
            && after.nodes@.len() == before.nodes@.len() + 1),
        0 <= cur < before.nodes@.len(),
        before.live(cur),
        0 <= child < after.nodes@.len(),
        !before.live(child),
        forall|m: int|
            0 <= m < before.nodes@.len() && m != cur && m != child ==> after.nodes@[m]
                == before.nodes@[m],
        after.live(cur),
        after.nodes@[cur].model() == before.nodes@[cur].model(),
        after.nodes@[cur].parent == before.nodes@[cur].parent,
        after.nodes@[cur].depth == before.nodes@[cur].depth,
        after.nodes@[cur].context == before.nodes@[cur].context,
        after.live(child),
        after.nodes@[child].model().tablegroups.len() == 0,
        after.nodes@[child].ncustomers == 0,
        after.nodes@[child].ntables == 0,
        after.nodes@[child].stop_count == 0,
        after.nodes@[child].pass_count == 0,
    ensures
        orig.nodes@.len() <= after.nodes@.len(),
        forall|j: int|
            #[trigger] orig.live(j) ==> after.live(j) && after.nodes@[j].model()
                == orig.nodes@[j].model() && after.nodes@[j].parent == orig.nodes@[j].parent
                && after.nodes@[j].depth == orig.nodes@[j].depth && after.nodes@[j].context
                == orig.nodes@[j].context,
        forall|j: int|
            0 <= j < after.nodes@.len() && #[trigger] after.live(j) && !orig.live(j)
                ==> after.nodes@[j].model() == (NodeModel {
                tablegroups: Seq::empty(),
                ncustomers: 0,
                ntables: 0,
                stop_count: 0,
                pass_count: 0,
            }),
{
    let empty_model = NodeModel {
        tablegroups: Seq::empty(),
        ncustomers: 0,
        ntables: 0,
        stop_count: 0,
        pass_count: 0,
    };
    assert(after.nodes@[child].model() =~= empty_model) by {
        assert(after.nodes@[child].model().tablegroups =~= Seq::<(u64, Seq<usize>)>::empty());
    }
    assert forall|j: int| #[trigger] orig.live(j) implies after.live(j) && after.nodes@[j].model()
        == orig.nodes@[j].model() && after.nodes@[j].parent == orig.nodes@[j].parent
        && after.nodes@[j].depth == orig.nodes@[j].depth && after.nodes@[j].context
        == orig.nodes@[j].context by {
        assert(before.live(j));
        assert(j != child);
        if j != cur {
            assert(after.nodes@[j] == before.nodes@[j]);
        }
    }
    assert forall|j: int|
        0 <= j < after.nodes@.len() && #[trigger] after.live(j) && !orig.live(j) implies after
        .nodes@[j].model() == empty_model by {
        if j != child {
            assert(j < before.nodes@.len());
            if j == cur {
                assert(after.nodes@[j].model() == before.nodes@[j].model());
                assert(before.live(j));
            } else {
                assert(after.nodes@[j] == before.nodes@[j]);
                assert(before.live(j));
            }
            assert(before.nodes@[j].model() == empty_model);
        }
    }
}

impl PypTree {
    /// Walks `path` from the root, creating every missing child on the way.
    /// Fails only when the arena cannot address one more node; with room for
    /// the whole path, success is certain.
    #[verifier::rlimit(100)]
    #[verifier::spinoff_prover]
    pub fn find_or_create_walk(&mut self, path: &Vec<u64>) -> (r: Option<usize>)
        requires
            old(self).wf(),
            path@.len() < usize::MAX,
        ensures
            final(self).wf(),
            old(self).nodes@.len() <= final(self).nodes@.len(),
            forall|j: int|
                #[trigger] old(self).live(j) ==> final(self).live(j) && final(self).nodes@[j]
                    .model() == old(self).nodes@[j].model() && final(self).nodes@[j].parent == old(self).nodes@[j].parent && final(self).nodes@[j].depth == old(self).nodes@[j].depth
                    && final(self).nodes@[j].context == old(self).nodes@[j].context,
            forall|j: int|
                0 <= j < final(self).nodes@.len() && #[trigger] final(self).live(j) && !old(self).live(j) ==> final(self).nodes@[j].model() == (NodeModel {
                    tablegroups: Seq::empty(),
                    ncustomers: 0,
                    ntables: 0,
                    stop_count: 0,
                    pass_count: 0,
                }),
            old(self).nodes@.len() + path@.len() <= usize::MAX ==> r is Some,
            match r {
                Option::Some(c) => spec_walk(*final(self), path@) == Option::Some(c as int)
                    && final(self).live(c as int) && final(self).nodes@[c as int].depth
                    == path@.len(),
                Option::None => true,
            },
    {
        let ghost orig = *self;
        let depth = path.len();
        let mut cur: usize = 0;
        let mut d: usize = 0;
        proof {
            assert(path@.take(0) =~= Seq::<u64>::empty());
        }
        while d < depth
            invariant
                orig == *old(self),
                self.wf(),
                0 <= d <= depth == path@.len(),
                path@.len() < usize::MAX,
                self.live(cur as int),
                self.nodes@[cur as int].depth == d,
                spec_walk(*self, path@.take(d as int)) == Option::Some(cur as int),
                orig.nodes@.len() <= self.nodes@.len(),
                self.nodes@.len() <= orig.nodes@.len() + d,
                forall|j: int|
                    #[trigger] orig.live(j) ==> self.live(j) && self.nodes@[j].model()
                        == orig.nodes@[j].model() && self.nodes@[j].parent == orig.nodes@[j].parent
                        && self.nodes@[j].depth == orig.nodes@[j].depth && self.nodes@[j].context
                        == orig.nodes@[j].context,
                forall|j: int|
                    0 <= j < self.nodes@.len() && #[trigger] self.live(j) && !orig.live(j)
                        ==> self.nodes@[j].model() == (NodeModel {
                        tablegroups: Seq::empty(),
                        ncustomers: 0,
                        ntables: 0,
                        stop_count: 0,
                        pass_count: 0,
                    }),
            decreases depth - d,
        {
            let ghost before = *self;
            let context = path[d];
            proof {
                assert(path@.take(d + 1).drop_last() =~= path@.take(d as int));
                assert(path@.take(d + 1).last() == context);
            }
            match self.get_or_create_child(cur, context) {
                Option::Some(child) => {
                    proof {
                        if ch_has(before.nodes@[cur as int].children@, context) {
                            assert(*self == before);
                        } else {
                            assert(before.node_links_ok(cur as int));
                            lemma_walk_stable_after_attach(
                                before,
                                *self,
                                path@.take(d as int),
                                cur as int,
                                child as int,
                                context,
                            );
                            lemma_walk_preservation_step(
                                orig,
                                before,
                                *self,
                                cur as int,
                                child as int,
                            );
                        }
                        assert(spec_walk(*self, path@.take(d as int)) == Option::Some(
                            cur as int,
                        ));
                        lemma_child_idx_unique_on_found(
                            self.nodes@[cur as int].children@,
                            context,
                        );
                    }
                    cur = child;
                },
                Option::None => {
                    proof {
                        assert(before.nodes@[cur as int].depth == d);
                        assert(d < usize::MAX);
                        assert(before.free@.len() == 0 && before.nodes@.len() == usize::MAX);
                        assert(orig.nodes@.len() + path@.len() > usize::MAX);
                    }
                    return Option::None;
                },
            }
            d += 1;
        }
        proof {
            assert(path@.take(depth as int) =~= path@);
        }
        Option::Some(cur)
    }
}

/// The walked child entry pins the walk one step deeper.
proof fn lemma_child_idx_unique_on_found(children: Seq<(u64, usize)>, dish: u64)
    requires
        ch_distinct(children),
        ch_has(children, dish),
    ensures
        0 <= ch_idx(children, dish) < children.len(),
        children[ch_idx(children, dish)].0 == dish,
{
    let w = ch_idx(children, dish);
    assert(0 <= w < children.len() && children[w].0 == dish);
}

} // verus!
