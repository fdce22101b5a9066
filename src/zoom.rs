//! The zoom controller: a fixed table of zoom levels and a clamped index.

use vstd::prelude::*;
use crate::keys::VolumeAction;

verus! {

/// The zoom value of the first table entry.
pub const ZOOM_MIN: i32 = 100;

/// The zoom value of the last table entry.
pub const ZOOM_MAX: i32 = 133;

/// How many entries the zoom table holds.
pub const LEVEL_COUNT: usize = 33;

/// The largest index into the zoom table.
pub const TOP_INDEX: usize = 32;

/// Entry `i` of the zoom table: `ZOOM_MIN` to `ZOOM_MAX`, linearly
/// interpolated over `LEVEL_COUNT` entries with the division rounding down.
pub open spec fn level_at(i: int) -> int {
    ZOOM_MIN + i * (ZOOM_MAX - ZOOM_MIN) / (LEVEL_COUNT - 1)
}

/// The zoom table as a sequence.
pub open spec fn zoom_table() -> Seq<int> {
    Seq::new(LEVEL_COUNT as nat, |i: int| level_at(i))
}

/// `x` limited to `[lo, hi]`.
pub open spec fn clamp(x: int, lo: int, hi: int) -> int {
    if x < lo {
        lo
    } else if x > hi {
        hi
    } else {
        x
    }
}

/// The step an action asks for: `+1` for `Up`, `-1` for `Down`.
pub open spec fn delta(a: VolumeAction) -> int {
    match a {
        VolumeAction::Up => 1,
        VolumeAction::Down => -1,
    }
}

/// The index after one action: one step, clamped to the table.
pub open spec fn step(index: int, a: VolumeAction) -> int {
    clamp(index + delta(a), 0, TOP_INDEX as int)
}

/// The index after a sequence of actions, each clamped as it comes.
pub open spec fn run(start: int, actions: Seq<VolumeAction>) -> int
    decreases actions.len(),
{
    if actions.len() == 0 {
        start
    } else {
        step(run(start, actions.drop_last()), actions.last())
    }
}

/// The sum of the steps of a sequence of actions, without any clamping.
pub open spec fn total(actions: Seq<VolumeAction>) -> int
    decreases actions.len(),
{
    if actions.len() == 0 {
        0
    } else {
        total(actions.drop_last()) + delta(actions.last())
    }
}

/// Holds a zoom table and the index of the current zoom level.
pub struct ZoomController {
    levels: Vec<i32>,
    index: usize,
}

impl ZoomController {
    /// The zoom table of this controller.
    pub closed spec fn table(&self) -> Seq<i32> {
        self.levels@
    }

    /// The index of the current zoom level.
    pub closed spec fn current(&self) -> int {
        self.index as int
    }

    /// The table is the fixed zoom table and the index lies within it.
    pub closed spec fn wf(&self) -> bool {
        &&& self.levels@.len() == LEVEL_COUNT
        &&& forall|i: int| 0 <= i < LEVEL_COUNT ==> self.levels@[i] as int == level_at(i)
        &&& self.index <= TOP_INDEX
    }

    /// A controller at index 0 over the fixed zoom table.
    pub fn new() -> (r: ZoomController)
        ensures
            r.wf(),
            r.current() == 0,
            r.table().len() == LEVEL_COUNT,
            forall|i: int| 0 <= i < LEVEL_COUNT ==> r.table()[i] as int == zoom_table()[i],
    {
        let mut levels: Vec<i32> = Vec::new();
        let mut i: usize = 0;
        while i < LEVEL_COUNT
            invariant
                i <= LEVEL_COUNT,
                levels@.len() == i,
                forall|j: int| 0 <= j < i ==> levels@[j] as int == level_at(j),
            decreases LEVEL_COUNT - i,
        {
            assert(0 <= i * 33 <= 33 * 32) by (nonlinear_arith)
                requires
                    i < 33,
            ;
            let v: i32 = ZOOM_MIN + (i as i32) * (ZOOM_MAX - ZOOM_MIN) / ((LEVEL_COUNT - 1) as i32);
            levels.push(v);
            i = i + 1;
        }
        ZoomController { levels, index: 0 }
    }

    /// The index of the current zoom level.
    pub fn index(&self) -> (r: usize)
        ensures
            r == self.current(),
    {
        self.index
    }

    /// The zoom table.
    pub fn levels(&self) -> (r: &Vec<i32>)
        ensures
            r@ == self.table(),
    {
        &self.levels
    }

    /// The current zoom level.
    pub fn level(&self) -> (r: i32)
        requires
            self.wf(),
        ensures
            r as int == level_at(self.current()),
            r == self.table()[self.current()],
    {
        self.levels[self.index]
    }

    /// Applies one action: moves the index one step, clamped to the table, and
    /// returns the zoom level to apply at the new index. At either end of the
    /// table the index stays, and that end's level is returned again.
    pub fn handle(&mut self, action: VolumeAction) -> (r: i32)
        requires
            old(self).wf(),
        ensures
            final(self).wf(),
            final(self).table() == old(self).table(),
            final(self).current() == step(old(self).current(), action),
            r as int == level_at(final(self).current()),
            r == final(self).table()[final(self).current()],
    {
        match action {
            VolumeAction::Up => {
                if self.index < TOP_INDEX {
                    self.index = self.index + 1;
                }
            },
            VolumeAction::Down => {
                if self.index > 0 {
                    self.index = self.index - 1;
                }
            },
        }
        self.levels[self.index]
    }

    /// The table of a well-formed controller has `LEVEL_COUNT` entries, never
    /// decreases, starts at `ZOOM_MIN` and ends at `ZOOM_MAX`.
    pub proof fn lemma_table_shape(&self)
        requires
            self.wf(),
        ensures
            self.table().len() == LEVEL_COUNT,
            self.table()[0] == ZOOM_MIN,
            self.table()[TOP_INDEX as int] == ZOOM_MAX,
            forall|i: int| 0 <= i < LEVEL_COUNT ==> #[trigger] self.table()[i] as int == zoom_table()[i],
            forall|i: int, j: int|
                0 <= i <= j < LEVEL_COUNT ==> #[trigger] self.table()[i] <= #[trigger] self.table()[j],
    {
        assert(level_at(0) == 100);
        assert(level_at(32) == 133);
        assert forall|i: int, j: int| 0 <= i <= j < LEVEL_COUNT implies
            #[trigger] self.table()[i] <= #[trigger] self.table()[j] by {
            assert(level_at(i) == 100 + i * 33 / 32);
            assert(level_at(j) == 100 + j * 33 / 32);
            assert(i * 33 <= j * 33) by (nonlinear_arith)
                requires
                    0 <= i <= j,
            ;
            assert(i * 33 / 32 <= j * 33 / 32) by (nonlinear_arith)
                requires
                    0 <= i * 33 <= j * 33,
            ;
        }
    }
}

/// The index after any sequence of actions stays within the table.
pub proof fn lemma_run_in_range(start: int, actions: Seq<VolumeAction>)
    requires
        0 <= start <= TOP_INDEX,
    ensures
        0 <= run(start, actions) <= TOP_INDEX,
    decreases actions.len(),
{
    if actions.len() > 0 {
        lemma_run_in_range(start, actions.drop_last());
    }
}

/// Where the running sum of the steps never leaves the table, no step is
/// clamped, and the index after the actions is the clamped sum of their steps.
pub proof fn lemma_run_is_clamped_sum(start: int, actions: Seq<VolumeAction>)
    requires
        0 <= start <= TOP_INDEX,
        forall|k: int|
            0 <= k <= actions.len() ==> 0 <= start + #[trigger] total(actions.take(k)) <= TOP_INDEX,
    ensures
        run(start, actions) == start + total(actions),
        run(start, actions) == clamp(start + total(actions), 0, TOP_INDEX as int),
    decreases actions.len(),
{
    assert(actions.take(actions.len() as int) == actions);
    if actions.len() > 0 {
        let rest = actions.drop_last();
        assert forall|k: int| 0 <= k <= rest.len() implies 0 <= start + #[trigger] total(rest.take(k))
            <= TOP_INDEX by {
            assert(rest.take(k) == actions.take(k));
        }
        lemma_run_is_clamped_sum(start, rest);
    }
}

/// Where every action is the same, the index after the actions is the clamped
/// sum of their steps: repeated steps saturate at the end they run into.
pub proof fn lemma_uniform_run_is_clamped_sum(start: int, actions: Seq<VolumeAction>)
    requires
        0 <= start <= TOP_INDEX,
        forall|i: int| 0 <= i < actions.len() ==> #[trigger] actions[i] == actions[0],
    ensures
        run(start, actions) == clamp(start + total(actions), 0, TOP_INDEX as int),
    decreases actions.len(),
{
    if actions.len() > 0 {
        let rest = actions.drop_last();
        assert forall|i: int| 0 <= i < rest.len() implies #[trigger] rest[i] == rest[0] by {}
        lemma_uniform_run_is_clamped_sum(start, rest);
        lemma_uniform_total(actions);
        lemma_uniform_total(rest);
        assert(actions.last() == actions[0]);
        if rest.len() > 0 {
            assert(rest[0] == actions[0]);
        }
    }
}

/// The sum of the steps of `n` equal actions is `n` steps in their direction.
proof fn lemma_uniform_total(actions: Seq<VolumeAction>)
    requires
        forall|i: int| 0 <= i < actions.len() ==> #[trigger] actions[i] == actions[0],
    ensures
        actions.len() > 0 && actions[0] == VolumeAction::Up ==> total(actions) == actions.len(),
        actions.len() > 0 && actions[0] == VolumeAction::Down ==> total(actions) == -actions.len(),
    decreases actions.len(),
{
    if actions.len() > 0 {
        let rest = actions.drop_last();
        assert(actions.last() == actions[0]);
        assert forall|i: int| 0 <= i < rest.len() implies #[trigger] rest[i] == rest[0] by {}
        lemma_uniform_total(rest);
        if rest.len() > 0 {
            assert(rest[0] == actions[0]);
        } else {
            assert(total(rest) == 0);
        }
    }
}

} // verus!
