//! The outline trace buffer: a fixed-capacity, forward-filled record of
//! the epicycle chain's tip positions, always readable as a full-length,
//! render-ready point sequence.

use vstd::prelude::*;
use crate::UNIT;
use crate::point::Point;

verus! {

/// Largest capacity a trace buffer accepts, so that the fill fraction
/// below can be computed in 64 bits.
pub const MAX_CAPACITY: usize = 0x4000_0000;

/// A fixed-capacity trace buffer.  `size` is the capacity and `cursor`
/// the fill cursor: positions `[0, cursor)` of `inner` hold the points
/// traced so far in this animation cycle.
pub struct Buffer {
    pub inner: Vec<Point>,
    pub size: usize,
    pub cursor: usize,
}

impl Buffer {
    /// The buffer invariant: the cursor never passes the capacity and
    /// counts exactly the stored points.
    pub open spec fn wf(self) -> bool {
        &&& self.cursor <= self.size
        &&& self.size <= MAX_CAPACITY
        &&& self.inner@.len() == self.cursor
    }

    /// What a padded read yields: the stored prefix, then the last
    /// stored point replicated over the unfilled tail — or the origin
    /// if nothing has been stored yet.
    pub open spec fn padded_seq(self) -> Seq<Point> {
        Seq::new(
            self.size as nat,
            |j: int|
                if j < self.cursor {
                    self.inner@[j]
                } else if self.cursor > 0 {
                    self.inner@[self.cursor - 1]
                } else {
                    Point { x: 0, y: 0 }
                },
        )
    }

    /// An empty buffer of the given capacity.
    pub fn new(size: usize) -> (b: Buffer)
        requires
            size <= MAX_CAPACITY,
        ensures
            b.wf(),
            b.size == size,
            b.cursor == 0,
            b.inner@.len() == 0,
    {
        Buffer { inner: Vec::new(), size, cursor: 0 }
    }

    /// Whether the fill cursor is still short of the capacity.
    pub fn has_capacity(&self) -> (r: bool)
        ensures
            r == (self.cursor < self.size),
    {
        self.cursor < self.size
    }

    /// The fill fraction `cursor / size`, in `1/UNIT` steps of a cycle.
    pub fn percent_full(&self) -> (r: u64)
        requires
            self.wf(),
            self.size > 0,
        ensures
            r == self.cursor * UNIT / (self.size as int),
    {
        ((self.cursor as u64) * 65536) / (self.size as u64)
    }

    /// Records a traced point at the cursor.  Callers check
    /// `has_capacity` first: pushing past capacity is a contract
    /// violation, not a buffer feature.
    pub fn push(&mut self, value: Point)
        requires
            old(self).wf(),
            old(self).cursor < old(self).size,
        ensures
            final(self).wf(),
            final(self).size == old(self).size,
            final(self).cursor == old(self).cursor + 1,
            final(self).inner@ == old(self).inner@.push(value),
    {
        self.inner.push(value);
        self.cursor = self.cursor + 1;
    }

    /// A render-ready copy of the trace: exactly `size` points, the
    /// stored prefix followed by the last stored point replicated.  The
    /// padding is recomputed on every read and never touches the stored
    /// prefix; with nothing stored the tail is the origin, and with
    /// capacity zero the result is empty.
    pub fn read_padded(&self) -> (r: Vec<Point>)
        requires
            self.wf(),
        ensures
            r@ == self.padded_seq(),
            r@.len() == self.size,
    {
        let mut out: Vec<Point> = Vec::new();
        let mut j: usize = 0;
        while j < self.size
            invariant
                j <= self.size,
                self.wf(),
                out@.len() == j,
                forall|i: int| 0 <= i < j ==> out@[i] == self.padded_seq()[i],
            decreases self.size - j,
        {
            if j < self.cursor {
                let p = self.inner[j];
                out.push(p);
            } else if self.cursor > 0 {
                let p = self.inner[self.cursor - 1];
                out.push(p);
            } else {
                out.push(Point { x: 0, y: 0 });
            }
            j += 1;
        }
        proof {
            assert(out@ =~= self.padded_seq());
        }
        out
    }
}

/// A padded read depends on nothing but the buffer's state: without an
/// intervening `push`, repeated reads return identical sequences.
pub proof fn lemma_read_padded_idempotent(a: Buffer, b: Buffer)
    requires
        a.size == b.size,
        a.cursor == b.cursor,
        a.inner@ == b.inner@,
    ensures
        a.padded_seq() == b.padded_seq(),
{
    assert(a.padded_seq() =~= b.padded_seq());
}

/// A padded read always yields exactly `size` points, whatever the fill
/// cursor in `[0, size]`.
pub proof fn lemma_read_padded_full_length(b: Buffer)
    ensures
        b.padded_seq().len() == b.size,
{
}

} // verus!
