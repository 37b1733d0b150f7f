use vstd::prelude::*;
use crate::chpylm::CHPYLM;
use crate::whpylm::WHPYLM;
use crate::pyp::{
    PypTree, prefix_live, prefix_tables, prefix_customers, prefix_stops, prefix_passes, saturated,
};

verus! {

/// The diagnostics both hierarchical Pitman-Yor models expose: node, table,
/// customer and stop/pass totals over the whole tree, the root itself
/// counted once in each, every total clipped at the machine bound.
pub trait HPYLM {
    spec fn inv(&self) -> bool;

    /// The tree whose counts are reported.
    spec fn counts(&self) -> PypTree;

    fn get_num_nodes(&self) -> (r: usize)
        requires
            self.inv(),
        ensures
            r == prefix_live(self.counts(), self.counts().nodes@.len() as int),
    ;

    fn get_num_tables(&self) -> (r: usize)
        requires
            self.inv(),
        ensures
            r == saturated(prefix_tables(self.counts(), self.counts().nodes@.len() as int) + 1),
    ;

    fn get_num_customers(&self) -> (r: usize)
        requires
            self.inv(),
        ensures
            r == saturated(
                prefix_customers(self.counts(), self.counts().nodes@.len() as int) + 1,
            ),
    ;

    fn get_pass_counts(&self) -> (r: usize)
        requires
            self.inv(),
        ensures
            r == saturated(prefix_passes(self.counts(), self.counts().nodes@.len() as int) + 1),
    ;

    fn get_stop_counts(&self) -> (r: usize)
        requires
            self.inv(),
        ensures
            r == saturated(prefix_stops(self.counts(), self.counts().nodes@.len() as int) + 1),
    ;
}

impl HPYLM for CHPYLM {
    open spec fn inv(&self) -> bool {
        self.wf()
    }

    open spec fn counts(&self) -> PypTree {
        self.tree
    }

    fn get_num_nodes(&self) -> usize {
        let v = self.tree.get_num_nodes();
        proof {
            crate::pyp::lemma_prefix_live_le(self.tree, self.tree.nodes@.len() as int);
        }
        if v == usize::MAX {
            v
        } else {
            v + 1
        }
    }

    fn get_num_tables(&self) -> usize {
        let v = self.tree.get_num_tables();
        if v == usize::MAX {
            v
        } else {
            v + 1
        }
    }

    fn get_num_customers(&self) -> usize {
        let v = self.tree.get_num_customers();
        if v == usize::MAX {
            v
        } else {
            v + 1
        }
    }

    fn get_pass_counts(&self) -> usize {
        let v = self.tree.get_pass_counts();
        if v == usize::MAX {
            v
        } else {
            v + 1
        }
    }

    fn get_stop_counts(&self) -> usize {
        let v = self.tree.get_stop_counts();
        if v == usize::MAX {
            v
        } else {
            v + 1
        }
    }
}

impl HPYLM for WHPYLM {
    open spec fn inv(&self) -> bool {
        self.wf()
    }

    open spec fn counts(&self) -> PypTree {
        self.tree
    }

    fn get_num_nodes(&self) -> usize {
        let v = self.tree.get_num_nodes();
        proof {
            crate::pyp::lemma_prefix_live_le(self.tree, self.tree.nodes@.len() as int);
        }
        if v == usize::MAX {
            v
        } else {
            v + 1
        }
    }

    fn get_num_tables(&self) -> usize {
        let v = self.tree.get_num_tables();
        if v == usize::MAX {
            v
        } else {
            v + 1
        }
    }

    fn get_num_customers(&self) -> usize {
        let v = self.tree.get_num_customers();
        if v == usize::MAX {
            v
        } else {
            v + 1
        }
    }

    fn get_pass_counts(&self) -> usize {
        let v = self.tree.get_pass_counts();
        if v == usize::MAX {
            v
        } else {
            v + 1
        }
    }

    fn get_stop_counts(&self) -> usize {
        let v = self.tree.get_stop_counts();
        if v == usize::MAX {
            v
        } else {
            v + 1
        }
    }
}

} // verus!
