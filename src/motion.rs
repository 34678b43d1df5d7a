//! The relative-motion accumulator shared by the report loop and the motion
//! emitter.
use vstd::prelude::*;

verus! {

/// Net relative motion received since the last drain.
#[derive(PartialEq, Eq, Structural, Clone, Copy, Debug)]
pub struct MotionAccumulator {
    pub dx: i32,
    pub dy: i32,
}

/// Whether a delta can be added to a total without leaving the `i32` range.
pub open spec fn fits(total: (int, int), delta: (int, int)) -> bool {
    i32::MIN <= total.0 + delta.0 <= i32::MAX && i32::MIN <= total.1 + delta.1 <= i32::MAX
}

/// The total after adding a sequence of deltas in order, each one taken only
/// when it fits.
pub open spec fn accumulate_all(total: (int, int), deltas: Seq<(int, int)>) -> (int, int)
    decreases deltas.len(),
{
    if deltas.len() == 0 {
        total
    } else {
        let before = accumulate_all(total, deltas.drop_last());
        let d = deltas.last();
        if fits(before, d) {
            (before.0 + d.0, before.1 + d.1)
        } else {
            before
        }
    }
}

/// Sum of the horizontal parts of a sequence of deltas.
pub open spec fn sum_x(deltas: Seq<(int, int)>) -> int
    decreases deltas.len(),
{
    if deltas.len() == 0 {
        0
    } else {
        sum_x(deltas.drop_last()) + deltas.last().0
    }
}

/// Sum of the vertical parts of a sequence of deltas.
pub open spec fn sum_y(deltas: Seq<(int, int)>) -> int
    decreases deltas.len(),
{
    if deltas.len() == 0 {
        0
    } else {
        sum_y(deltas.drop_last()) + deltas.last().1
    }
}

impl MotionAccumulator {
    pub open spec fn total(self) -> (int, int) {
        (self.dx as int, self.dy as int)
    }

    /// An accumulator holding no motion.
    pub fn new() -> (r: MotionAccumulator)
        ensures
            r.total() == (0int, 0int),
    {
        MotionAccumulator { dx: 0, dy: 0 }
    }

    /// Adds a delta to the running total. Returns `false`, and leaves the total
    /// as it was, only when the sum would leave the `i32` range.
    pub fn accumulate(&mut self, dx: i32, dy: i32) -> (added: bool)
        ensures
            added == fits(old(self).total(), (dx as int, dy as int)),
            added ==> final(self).total() == (old(self).dx + dx, old(self).dy + dy),
            !added ==> *final(self) == *old(self),
    {
        match (self.dx.checked_add(dx), self.dy.checked_add(dy)) {
            (Some(x), Some(y)) => {
                self.dx = x;
                self.dy = y;
                true
            },
            _ => false,
        }
    }

    /// Takes the accumulated motion out, leaving zero behind.
    pub fn drain(&mut self) -> (r: (i32, i32))
        ensures
            r == (old(self).dx, old(self).dy),
            final(self).total() == (0int, 0int),
    {
        let r = (self.dx, self.dy);
        self.dx = 0;
        self.dy = 0;
        r
    }

    /// Drains the accumulated motion when there is any: `None`, with nothing
    /// changed, when the total is zero on both axes.
    pub fn take(&mut self) -> (r: Option<(i32, i32)>)
        ensures
            old(self).dx == 0 && old(self).dy == 0 ==> r is None && *final(self) == *old(self),
            !(old(self).dx == 0 && old(self).dy == 0) ==> r == Some((old(self).dx, old(self).dy))
                && final(self).total() == (0int, 0int),
    {
        if self.dx == 0 && self.dy == 0 {
            None
        } else {
            Some(self.drain())
        }
    }
}

/// Accumulation is associative: deltas added one by one before a drain give
/// the same net motion as their sum added at once, whenever every partial sum
/// stays in range.
pub proof fn lemma_accumulation_associative(total: (int, int), deltas: Seq<(int, int)>)
    requires
        forall|k: int|
            0 <= k <= deltas.len() ==> #[trigger] fits(
                total,
                (sum_x(deltas.subrange(0, k)), sum_y(deltas.subrange(0, k))),
            ),
    ensures
        accumulate_all(total, deltas) == (total.0 + sum_x(deltas), total.1 + sum_y(deltas)),
        accumulate_all(total, deltas) == accumulate_all(total, seq![(sum_x(deltas), sum_y(deltas))]),
    decreases deltas.len(),
{
    if deltas.len() > 0 {
        let prefix = deltas.drop_last();
        assert forall|k: int| 0 <= k <= prefix.len() implies #[trigger] fits(
            total,
            (sum_x(prefix.subrange(0, k)), sum_y(prefix.subrange(0, k))),
        ) by {
            assert(prefix.subrange(0, k) =~= deltas.subrange(0, k));
        }
        lemma_accumulation_associative(total, prefix);
    }
    assert(deltas.subrange(0, deltas.len() as int) =~= deltas);
    assert(fits(total, (sum_x(deltas.subrange(0, deltas.len() as int)), sum_y(deltas.subrange(0, deltas.len() as int)))));
    let single = seq![(sum_x(deltas), sum_y(deltas))];
    assert(single.drop_last() =~= Seq::<(int, int)>::empty());
    assert(accumulate_all(total, single.drop_last()) == total);
    assert(single.last() == (sum_x(deltas), sum_y(deltas)));
}

} // verus!
