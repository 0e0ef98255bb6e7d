//! Fixed-capacity circular queue of pixel-color codes: the pixel FIFO.
//!
//! Overflowing pushes and empty pops are best-effort, as on the hardware: the
//! operation is dropped and a diagnostic counter stepped, never a hard error.

use vstd::prelude::*;

verus! {

/// Backing-array slot that the `j`-th queued element occupies, for a queue
/// whose oldest element sits at `head`. Defined for `0 <= head < cap` and
/// `0 <= j <= cap`, where it equals `(head + j) % cap` without a modulo.
pub open spec fn slot(head: int, j: int, cap: int) -> int {
    if head + j < cap {
        head + j
    } else {
        head + j - cap
    }
}

/// One step of the diagnostic counter, stopping at its ceiling.
pub open spec fn bump(x: u64) -> u64 {
    if x < u64::MAX {
        (x + 1) as u64
    } else {
        x
    }
}

/// Bounded circular buffer. The backing array always holds 16 bytes; `cap`
/// is the capacity the queue was built with, at most 16.
pub struct RingBuffer {
    pub cap: i16,
    pub len: i16,
    pub head: i16,
    pub tail: i16,
    pub data: Vec<u8>,
    pub faults: u64,
}

impl View for RingBuffer {
    type V = Seq<u8>;

    /// The queued elements, oldest first.
    open spec fn view(&self) -> Seq<u8> {
        Seq::new(
            self.len as nat,
            |j: int| self.data@[slot(self.head as int, j, self.cap as int)],
        )
    }
}

impl RingBuffer {
    /// Shape every operation keeps: the array is full-size, the counters sit
    /// inside the capacity, and `tail` is one slot behind the next free one.
    pub open spec fn wf(&self) -> bool {
        &&& self.data@.len() == 16
        &&& 1 <= self.cap <= 16
        &&& 0 <= self.len <= self.cap
        &&& 0 <= self.head < self.cap
        &&& -1 <= self.tail < self.cap
        &&& (if self.tail + 1 == self.cap {
            0int
        } else {
            self.tail + 1
        }) == slot(self.head as int, self.len as int, self.cap as int)
    }

    /// An empty queue of capacity `cap`.
    pub fn new(cap: i16) -> (r: Self)
        requires
            1 <= cap <= 16,
        ensures
            r.wf(),
            r@ == Seq::<u8>::empty(),
            r.cap == cap,
            r.len == 0,
            r.faults == 0,
            r.data@ == Seq::new(16, |i: int| 0u8),
    {
        let mut data: Vec<u8> = Vec::new();
        let mut i: usize = 0;
        while i < 16
            invariant
                i <= 16,
                data@.len() == i,
                forall|j: int| 0 <= j < i ==> data@[j] == 0u8,
            decreases 16 - i,
        {
            data.push(0u8);
            i = i + 1;
        }
        let r = RingBuffer { cap, len: 0, head: 0, tail: -1, data, faults: 0 };
        proof {
            assert(r@ =~= Seq::<u8>::empty());
            assert(r.data@ =~= Seq::new(16, |i: int| 0u8));
        }
        r
    }

    /// Pushes `e` at the back; a push onto a full queue is dropped and
    /// counted.
    pub fn add(&mut self, e: u8)
        requires
            old(self).wf(),
        ensures
            final(self).wf(),
            final(self).cap == old(self).cap,
            final(self).head == old(self).head,
            old(self)@.len() < old(self).cap ==> final(self)@ == old(self)@.push(e)
                && final(self).faults == old(self).faults,
            old(self)@.len() == old(self).cap ==> *final(self) == (RingBuffer {
                faults: bump(old(self).faults),
                ..*old(self)
            }),
            old(self)@.len() == old(self).cap ==> final(self)@ == old(self)@,
    {
        if self.len == self.cap {
            if self.faults < u64::MAX {
                self.faults = self.faults + 1;
            }
        } else {
            self.tail = if self.tail + 1 < self.cap {
                self.tail + 1
            } else {
                0
            };
            self.data[self.tail as usize] = e;
            self.len = self.len + 1;
            proof {
                assert(self@ =~= old(self)@.push(e));
            }
        }
    }

    /// Pops the oldest element; a pop from an empty queue yields 0 and is
    /// counted.
    pub fn get(&mut self) -> (r: u8)
        requires
            old(self).wf(),
        ensures
            final(self).wf(),
            final(self).cap == old(self).cap,
            final(self).data@ == old(self).data@,
            old(self)@.len() > 0 ==> r == old(self)@[0]
                && final(self)@ == old(self)@.drop_first()
                && final(self).faults == old(self).faults,
            old(self)@.len() == 0 ==> r == 0 && *final(self) == (RingBuffer {
                faults: bump(old(self).faults),
                ..*old(self)
            }),
            old(self)@.len() == 0 ==> final(self)@ == old(self)@,
    {
        if self.len == 0 {
            if self.faults < u64::MAX {
                self.faults = self.faults + 1;
            }
            0
        } else {
            let tmp = self.data[self.head as usize];
            self.head = if self.head + 1 < self.cap {
                self.head + 1
            } else {
                0
            };
            self.len = self.len - 1;
            proof {
                assert(self@ =~= old(self)@.drop_first());
            }
            tmp
        }
    }

    /// Empties the queue and zeroes the backing array.
    pub fn clear(&mut self)
        requires
            old(self).wf(),
        ensures
            final(self).wf(),
            final(self)@ == Seq::<u8>::empty(),
            final(self).cap == old(self).cap,
            final(self).faults == old(self).faults,
            final(self).len == 0,
            final(self).data@ == Seq::new(16, |i: int| 0u8),
    {
        let mut i: usize = 0;
        while i < 16
            invariant
                i <= 16,
                self.data@.len() == 16,
                forall|j: int| 0 <= j < i ==> self.data@[j] == 0u8,
                self.cap == old(self).cap,
                self.faults == old(self).faults,
            decreases 16 - i,
        {
            self.data[i] = 0;
            i = i + 1;
        }
        self.len = 0;
        self.head = 0;
        self.tail = -1;
        proof {
            assert(self@ =~= Seq::<u8>::empty());
            assert(self.data@ =~= Seq::new(16, |i: int| 0u8));
        }
    }

    /// How many elements are queued.
    pub fn size(&self) -> (r: i16)
        ensures
            r == self.len,
            self.wf() ==> r as nat == self@.len(),
    {
        self.len
    }
}

} // verus!
