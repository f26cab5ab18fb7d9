//! Grids brought up to date through the byte streams that other grids write.

use crate::canvas::whole_region;
use crate::grid::DamageGrid;
use crate::paint::same_state;
use crate::roundtrip::{state_diff_replay, state_replay};
use crate::state::fresh;
use vstd::prelude::*;

verus! {

impl DamageGrid {
    /// Whether a byte stream written by a grid is replayed as a whole: no bytes
    /// are pending, there are no scroll margins, and a parked cursor has its wrap
    /// pending.
    pub open(crate) spec fn ready_for_replay(self) -> bool {
        &&& !self.in_sequence()
        &&& self.held().len() == 0
        &&& whole_region(self@)
        &&& !self@.disarmed
    }

    /// A new grid of the same dimensions that has read `state_formatted()`: it
    /// is equal over the replay contract.
    #[must_use]
    pub fn replica(&self, scrollback_limit: usize) -> (r: Self)
        requires
            self.wf(),
        ensures
            r.wf(),
            same_state(r@, self@),
            r.ready_for_replay(),
    {
        let bytes = self.state_formatted();
        let mut r = DamageGrid::new(self.rows, self.cols, scrollback_limit);
        assert(r@ == fresh(self@.rows, self@.cols, scrollback_limit as int));
        assert(!r.in_sequence());
        r.process(bytes.as_slice());
        proof {
            state_replay(self@, scrollback_limit as int);
        }
        r
    }

    /// Reads `now.state_diff(prev)`. Where the grid was equal to `prev` over the
    /// replay contract, it is then equal to `now`.
    pub fn follow(&mut self, prev: &Self, now: &Self)
        requires
            old(self).wf(),
            prev.wf(),
            now.wf(),
            old(self).ready_for_replay(),
            same_state(old(self)@, prev@),
            prev@.rows == now@.rows,
            prev@.cols == now@.cols,
        ensures
            final(self).wf(),
            same_state(final(self)@, now@),
            final(self).ready_for_replay(),
    {
        let bytes = now.state_diff(prev);
        let ghost before = self@;
        self.process(bytes.as_slice());
        proof {
            state_diff_replay(before, now@, prev@);
        }
    }
}

} // verus!
