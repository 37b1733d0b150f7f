use vstd::prelude::*;
use crate::defs::BOW;
use crate::pyp::{
    PypTree, NodeModel, add_step, remove_step, counters_have_headroom, dish_on_chain,
    lemma_headroom_from_global, lemma_stop_ok_after_seating, lemma_walk_none_extends, spec_walk,
    stop_dec_ok,
};

verus! {

/// The context path of the character at position `n`, read backwards for
/// `depth` steps: the symbol consumed first is the character just before
/// position `n`.
pub open spec fn ctx_path(chars: Seq<char>, n: int, depth: int) -> Seq<u64> {
    Seq::new(depth as nat, |m: int| chars[n - 1 - m] as u64)
}

/// The seating state a context node held before the latest insertion: its
/// recorded state when the arena already knew the slot, the empty state when
/// the walk laid it down freshly.
pub open spec fn prior_model(t: PypTree, c: int) -> NodeModel {
    if t.live(c) {
        t.nodes@[c].model()
    } else {
        NodeModel {
            tablegroups: Seq::empty(),
            ncustomers: 0,
            ntables: 0,
            stop_count: 0,
            pass_count: 0,
        }
    }
}

/// The state of a node after one more stop observation was counted there.
pub open spec fn with_stop_counted(m: NodeModel) -> NodeModel {
    NodeModel {
        tablegroups: m.tablegroups,
        ncustomers: m.ncustomers,
        ntables: m.ntables,
        stop_count: m.stop_count + 1,
        pass_count: m.pass_count,
    }
}

/// The state of a node after one stop observation was uncounted there.
pub open spec fn with_stop_uncounted(m: NodeModel) -> NodeModel {
    NodeModel {
        tablegroups: m.tablegroups,
        ncustomers: m.ncustomers,
        ntables: m.ntables,
        stop_count: m.stop_count - 1,
        pass_count: m.pass_count,
    }
}

/// The character-level hierarchical model's count-bearing state: one tree of
/// character contexts rooted at the begin-of-word symbol. The discount and
/// concentration schedules, which are continuous quantities, live with the
/// caller; everything that counts customers, tables and stop/pass events is
/// here.
pub struct CHPYLM {
    pub tree: PypTree,
    pub max_depth: usize,
}

/// The symbols of the context path as the walk consumes them.
fn build_ctx_path(characters: &Vec<char>, n: usize, depth: usize) -> (r: Vec<u64>)
    requires
        depth <= n,
        n < characters@.len(),
    ensures
        r@ == ctx_path(characters@, n as int, depth as int),
{
    let num_chars = characters.len();
    let mut path: Vec<u64> = Vec::new();
    let mut m: usize = 0;
    while m < depth
        invariant
            0 <= m <= depth <= n < num_chars == characters@.len(),
            path@ =~= ctx_path(characters@, n as int, depth as int).take(m as int),
        decreases depth - m,
    {
        path.push(characters[n - 1 - m] as u64);
        m += 1;
    }
    proof {
        assert(path@ =~= ctx_path(characters@, n as int, depth as int));
    }
    path
}

impl CHPYLM {
    pub open spec fn wf(self) -> bool {
        self.tree.wf()
    }

    pub fn new(max_depth: usize) -> (r: CHPYLM)
        ensures
            r.wf(),
            r.max_depth == max_depth,
            r.tree.nodes@.len() == 1,
            r.tree.free@.len() == 0,
            r.tree.nodes@[0].tablegroups@.len() == 0,
            r.tree.nodes@[0].children@.len() == 0,
            r.tree.nodes@[0].ncustomers == 0,
            r.tree.nodes@[0].ntables == 0,
            r.tree.nodes@[0].stop_count == 0,
            r.tree.nodes@[0].pass_count == 0,
            r.tree.nodes@[0].depth == 0,
            r.tree.nodes@[0].context == BOW as u64,
            r.tree.nodes@[0].parent is None,
    {
        CHPYLM { tree: PypTree::new(BOW as u64), max_depth }
    }

    /// Walks the context of position `n` down for `depth` steps without
    /// creating anything.
    pub fn find_context_node(&self, characters: &Vec<char>, n: usize, depth: usize) -> (r: Option<
        usize,
    >)
        requires
            self.wf(),
            depth <= n,
            n < characters@.len(),
        ensures
            match r {
                Option::Some(c) => spec_walk(self.tree, ctx_path(characters@, n as int, depth as int))
                    == Option::Some(c as int) && self.tree.live(c as int)
                    && self.tree.nodes@[c as int].depth == depth,
                Option::None => spec_walk(self.tree, ctx_path(characters@, n as int, depth as int))
                    is None,
            },
    {
        let ghost path = ctx_path(characters@, n as int, depth as int);
        let mut cur: usize = 0;
        let mut d: usize = 0;
        proof {
            assert(path.take(0) =~= Seq::<u64>::empty());
        }
        while d < depth
            invariant
                self.wf(),
                depth <= n < characters@.len(),
                0 <= d <= depth,
                self.tree.live(cur as int),
                self.tree.nodes@[cur as int].depth == d,
                path == ctx_path(characters@, n as int, depth as int),
                spec_walk(self.tree, path.take(d as int)) == Option::Some(cur as int),
            decreases depth - d,
        {
            let context = characters[n - 1 - d] as u64;
            proof {
                assert(path[d as int] == context);
            }
            match self.tree.find_child(cur, context) {
                Option::Some(child) => {
                    proof {
                        assert(path.take(d + 1).drop_last() =~= path.take(d as int));
                        assert(path.take(d + 1).last() == context);
                        assert(self.tree.node_links_ok(cur as int));
                        let w = crate::pyp::ch_idx(self.tree.nodes@[cur as int].children@, context);
                        assert(self.tree.nodes@[child as int].depth == d + 1);
                    }
                    cur = child;
                },
                Option::None => {
                    proof {
                        assert(path.take(d + 1).drop_last() =~= path.take(d as int));
                        assert(path.take(d + 1).last() == context);
                        assert(spec_walk(self.tree, path.take(d + 1)) is None);
                        lemma_walk_none_extends(self.tree, path.take(d + 1), path);
                    }
                    return Option::None;
                },
            }
            d += 1;
        }
        proof {
            assert(path.take(depth as int) =~= path);
        }
        Option::Some(cur)
    }

    /// Walks the context of position `n` down for `depth` steps, creating
    /// the missing nodes. Every node the tree already had keeps its seating
    /// state, freshly created nodes are empty, and with arena room for the
    /// whole path, success is certain.
    pub fn find_or_create_context_node(
        &mut self,
        characters: &Vec<char>,
        n: usize,
        depth: usize,
    ) -> (r: Option<usize>)
        requires
            old(self).wf(),
            depth <= n,
            n < characters@.len(),
        ensures
            final(self).wf(),
            final(self).max_depth == old(self).max_depth,
            old(self).tree.nodes@.len() <= final(self).tree.nodes@.len(),
            forall|j: int|
                #[trigger] old(self).tree.live(j) ==> final(self).tree.live(j) && final(self).tree.nodes@[j].model() == old(self).tree.nodes@[j].model(),
            forall|j: int|
                0 <= j < final(self).tree.nodes@.len() && #[trigger] final(self).tree.live(j)
                    && !old(self).tree.live(j) ==> final(self).tree.nodes@[j].model()
                    == prior_model(old(self).tree, j),
            old(self).tree.nodes@.len() + depth <= usize::MAX ==> r is Some,
            match r {
                Option::Some(c) => spec_walk(
                    final(self).tree,
                    ctx_path(characters@, n as int, depth as int),
                ) == Option::Some(c as int) && final(self).tree.live(c as int) && final(self).tree.nodes@[c as int].depth == depth,
                Option::None => true,
            },
    {
        let num_chars = characters.len();
        let path = build_ctx_path(characters, n, depth);
        self.tree.find_or_create_walk(&path)
    }

    /// Seats the character at position `n` under its sampled context depth:
    /// the walked context node — laid down freshly when absent — takes
    /// exactly one arriving customer of that character, and one stop
    /// observation is counted there. The choice vector gives, per level, the
    /// table joined on the way up. With the depth in range, enough choices,
    /// and every counter and the arena clear of its machine bound, success
    /// is certain.
    pub fn add_customer_at_index_n(
        &mut self,
        characters: &Vec<char>,
        n: usize,
        depth: usize,
        choices: &Vec<usize>,
    ) -> (r: bool)
        requires
            old(self).wf(),
            n < characters@.len(),
        ensures
            final(self).wf(),
            final(self).max_depth == old(self).max_depth,
            (depth <= n && depth < choices@.len() && counters_have_headroom(old(self).tree) && old(self).tree.nodes@.len() + depth <= usize::MAX) ==> r,
            !r ==> forall|j: int|
                #[trigger] old(self).tree.live(j) ==> final(self).tree.live(j) && final(self).tree.nodes@[j].model() == old(self).tree.nodes@[j].model(),
            r ==> ({
                let path = ctx_path(characters@, n as int, depth as int);
                let dish = characters@[n as int] as u64;
                let c = spec_walk(final(self).tree, path)->Some_0;
                &&& spec_walk(final(self).tree, path) is Some
                &&& final(self).tree.live(c)
                &&& final(self).tree.nodes@[c].depth == depth
                &&& exists|m: NodeModel|
                    #[trigger] add_step(prior_model(old(self).tree, c), m, dish) && final(self).tree.nodes@[c].model() == with_stop_counted(m)
            }),
    {
        if depth > n {
            return false;
        }
        if depth >= choices.len() {
            return false;
        }
        let node = match self.find_or_create_context_node(characters, n, depth) {
            Option::Some(c) => c,
            Option::None => {
                return false;
            },
        };
        let dish = characters[n] as u64;
        let ghost t1 = self.tree;
        let ghost path = ctx_path(characters@, n as int, depth as int);
        proof {
            if counters_have_headroom(old(self).tree) {
                assert(counters_have_headroom(t1)) by {
                    assert forall|j: int| #[trigger] t1.live(j) implies t1.nodes@[j].ncustomers
                        < usize::MAX && t1.nodes@[j].ntables < usize::MAX && t1.nodes@[j].stop_count
                        < usize::MAX && t1.nodes@[j].pass_count < usize::MAX by {
                        if old(self).tree.live(j) {
                            assert(t1.nodes@[j].model() == old(self).tree.nodes@[j].model());
                        } else {
                            assert(t1.nodes@[j].model() == prior_model(old(self).tree, j));
                        }
                    }
                }
                lemma_headroom_from_global(t1, node as int);
            }
        }
        if !self.tree.has_chain_headroom(node) {
            return false;
        }
        if !self.tree.can_increment_stop(node) {
            return false;
        }
        let ghost before_seat = self.tree;
        let _opened_root = self.tree.add_customer_with_choices(node, dish, choices);
        let ghost m_mid = self.tree.model_at(node as int);
        proof {
            lemma_stop_ok_after_seating(before_seat, self.tree, node as int);
        }
        let ghost before_stop = self.tree;
        self.tree.increment_stop_count(node);
        proof {
            assert forall|m: int|
                0 <= m < before_seat.nodes@.len() implies (#[trigger] self.tree.nodes@[m]).children
                == before_seat.nodes@[m].children && self.tree.nodes@[m].live
                == before_seat.nodes@[m].live && self.tree.nodes@[m].depth
                == before_seat.nodes@[m].depth by {
                assert(before_stop.nodes@[m] == before_seat.nodes@[m] || before_seat.nodes@[m]
                    .same_shape(before_stop.nodes@[m]));
                assert(self.tree.nodes@[m] == before_stop.nodes@[m] || crate::pyp::pass_shifted(
                    before_stop.nodes@[m],
                    self.tree.nodes@[m],
                    1,
                ) || crate::pyp::stop_shifted(before_stop.nodes@[m], self.tree.nodes@[m], 1));
            }
            lemma_walk_links_only(before_seat, self.tree, path);
            assert(spec_walk(self.tree, path) == Option::Some(node as int));
            assert(crate::pyp::stop_shifted(
                before_stop.nodes@[node as int],
                self.tree.nodes@[node as int],
                1,
            ));
            assert(before_seat.model_at(node as int) == prior_model(old(self).tree, node as int));
            assert(add_step(prior_model(old(self).tree, node as int), m_mid, dish));
            assert(self.tree.nodes@[node as int].model() == with_stop_counted(m_mid));
        }
        true
    }

    /// Removes the character at position `n` from the node at the recorded
    /// context depth — the exact inverse of the insertion there: one
    /// customer of the character leaves that node, the stop observation is
    /// uncounted, and the node is detached when it is left childless and
    /// tableless. Returns whether the walk, the seated customer and the stop
    /// count were all found; nothing changes otherwise.
    pub fn remove_customer_at_index_n(
        &mut self,
        characters: &Vec<char>,
        n: usize,
        depth: usize,
    ) -> (r: bool)
        requires
            old(self).wf(),
            n < characters@.len(),
        ensures
            final(self).wf(),
            final(self).max_depth == old(self).max_depth,
            r == {
                &&& depth <= n
                &&& spec_walk(old(self).tree, ctx_path(characters@, n as int, depth as int))
                    is Some
                &&& dish_on_chain(
                    old(self).tree,
                    spec_walk(
                        old(self).tree,
                        ctx_path(characters@, n as int, depth as int),
                    )->Some_0,
                    characters@[n as int] as u64,
                )
                &&& stop_dec_ok(
                    old(self).tree,
                    spec_walk(
                        old(self).tree,
                        ctx_path(characters@, n as int, depth as int),
                    )->Some_0,
                )
            },
            !r ==> *final(self) == *old(self),
            r ==> ({
                let path = ctx_path(characters@, n as int, depth as int);
                let dish = characters@[n as int] as u64;
                let c = spec_walk(old(self).tree, path)->Some_0;
                exists|m: NodeModel|
                    #[trigger] remove_step(old(self).tree.nodes@[c].model(), m, dish) && (final(self).tree.live(c) ==> final(self).tree.nodes@[c].model() == with_stop_uncounted(
                        m,
                    )) && (!final(self).tree.live(c) ==> with_stop_uncounted(m).tablegroups.len()
                        == 0)
            }),
    {
        if depth > n {
            return false;
        }
        let node = match self.find_context_node(characters, n, depth) {
            Option::Some(c) => c,
            Option::None => {
                return false;
            },
        };
        let dish = characters[n] as u64;
        if !self.tree.serves_dish_on_chain(node, dish) {
            return false;
        }
        if !self.tree.can_decrement_stop(node) {
            return false;
        }
        let ghost before = self.tree;
        let rr = self.tree.remove_customer(node, dish);
        let ghost m_mid = self.tree.model_at(node as int);
        proof {
            assert(rr is Some);
            lemma_stop_ok_after_seating(before, self.tree, node as int);
        }
        let ghost before_stop = self.tree;
        self.tree.decrement_stop_count(node);
        proof {
            assert(crate::pyp::stop_shifted(
                before_stop.nodes@[node as int],
                self.tree.nodes@[node as int],
                -1,
            ));
            assert(remove_step(old(self).tree.nodes@[node as int].model(), m_mid, dish));
            assert(self.tree.nodes@[node as int].model() == with_stop_uncounted(m_mid));
        }
        let ghost before_prune = self.tree;
        if self.tree.need_to_remove_from_parent(node) {
            proof {
                assert(before_prune.nodes@[node as int].tablegroups@.len() == 0);
                assert(with_stop_uncounted(m_mid).tablegroups.len() == 0);
            }
            self.tree.remove_from_parent(node);
        }
        true
    }
}

/// A walk never reads anything but child links, so any operation that keeps
/// every node's children, liveness and depth keeps the walk.
pub proof fn lemma_walk_links_only(t1: PypTree, t2: PypTree, path: Seq<u64>)
    requires
        t1.nodes@.len() == t2.nodes@.len(),
        forall|m: int|
            0 <= m < t1.nodes@.len() ==> (#[trigger] t2.nodes@[m]).children == t1.nodes@[m].children
                && t2.nodes@[m].live == t1.nodes@[m].live && t2.nodes@[m].depth
                == t1.nodes@[m].depth,
    ensures
        spec_walk(t2, path) == spec_walk(t1, path),
    decreases path.len(),
{
    if path.len() > 0 {
        lemma_walk_links_only(t1, t2, path.drop_last());
        match spec_walk(t1, path.drop_last()) {
            Option::None => {},
            Option::Some(c) => {
                if 0 <= c < t1.nodes@.len() {
                    assert(t2.nodes@[c].children@ == t1.nodes@[c].children@);
                }
            },
        }
    }
}

} // verus!
