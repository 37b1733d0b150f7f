use vstd::prelude::*;
use crate::pyp::PypTree;

verus! {

/// The word-level hierarchical model's count-bearing state: a tree of word
/// contexts of the given order (three for a trigram model), keyed by word
/// ids. The per-depth discount and concentration schedules, continuous
/// quantities, live with the caller.
pub struct WHPYLM {
    pub tree: PypTree,
    pub order: usize,
}

impl WHPYLM {
    pub open spec fn wf(self) -> bool {
        self.tree.wf()
    }

    pub fn new(order: usize) -> (r: WHPYLM)
        ensures
            r.wf(),
            r.order == order,
            r.tree.nodes@.len() == 1,
            r.tree.free@.len() == 0,
            r.tree.nodes@[0].tablegroups@.len() == 0,
            r.tree.nodes@[0].children@.len() == 0,
            r.tree.nodes@[0].ncustomers == 0,
            r.tree.nodes@[0].ntables == 0,
            r.tree.nodes@[0].stop_count == 0,
            r.tree.nodes@[0].pass_count == 0,
            r.tree.nodes@[0].depth == 0,
            r.tree.nodes@[0].context == 0,
            r.tree.nodes@[0].parent is None,
    {
        WHPYLM { tree: PypTree::new(0), order }
    }
}

} // verus!
