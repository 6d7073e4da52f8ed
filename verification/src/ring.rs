//! The bounded queue of samples between the capture callback and the
//! segmentation loop.
use vstd::prelude::*;

verus! {

/// The storage position of the `offset`-th queued sample when the oldest one
/// sits at `head` in storage of `capacity` positions: `head + offset`,
/// wrapped round at the end of the storage.
pub open spec fn slot_of(head: int, offset: int, capacity: int) -> int {
    if head + offset < capacity {
        head + offset
    } else {
        head + offset - capacity
    }
}

/// A fixed-capacity circular queue of samples. A write that does not fit is
/// dropped whole; a drain takes out everything that is queued.
pub struct SampleRing {
    slots: Vec<i16>,
    head: usize,
    len: usize,
}

impl View for SampleRing {
    type V = Seq<i16>;

    /// The queued samples, oldest first.
    closed spec fn view(&self) -> Seq<i16> {
        Seq::new(
            self.len as nat,
            |i: int| self.slots@[slot_of(self.head as int, i, self.slots@.len() as int)],
        )
    }
}

impl SampleRing {
    /// The number of samples the queue can hold.
    pub closed spec fn capacity(&self) -> nat {
        self.slots@.len()
    }

    /// The queue holds no more than its capacity, and its oldest sample
    /// sits inside the storage.
    pub closed spec fn wf(&self) -> bool {
        &&& self.len <= self.slots@.len()
        &&& self.head <= self.slots@.len()
        &&& (self.slots@.len() > 0 ==> self.head < self.slots@.len())
    }

    /// The number of samples that still fit.
    pub open spec fn free(&self) -> int {
        self.capacity() - self@.len()
    }

    /// What a well-formed queue holds fits its capacity.
    pub proof fn lemma_len_within_capacity(&self)
        requires
            self.wf(),
        ensures
            self@.len() <= self.capacity(),
    {
    }

    /// An empty queue that holds up to `capacity` samples.
    pub fn new(capacity: usize) -> (ring: SampleRing)
        ensures
            ring.wf(),
            ring.capacity() == capacity,
            ring@ == Seq::<i16>::empty(),
    {
        let ring = SampleRing { slots: vec![0i16; capacity], head: 0, len: 0 };
        assert(ring@ =~= Seq::<i16>::empty());
        ring
    }

    /// The number of samples the queue can hold.
    pub fn max_len(&self) -> (capacity: usize)
        ensures
            capacity == self.capacity(),
    {
        self.slots.len()
    }

    /// The number of samples queued.
    pub fn len(&self) -> (len: usize)
        ensures
            len == self@.len(),
    {
        self.len
    }

    /// Whether nothing is queued.
    pub fn is_empty(&self) -> (empty: bool)
        ensures
            empty == (self@.len() == 0),
    {
        self.len == 0
    }

    /// Whether nothing more fits.
    pub fn is_full(&self) -> (full: bool)
        requires
            self.wf(),
        ensures
            full == (self.free() == 0),
    {
        self.len == self.slots.len()
    }

    /// The number of samples that still fit.
    pub fn vacant(&self) -> (free: usize)
        requires
            self.wf(),
        ensures
            free == self.free(),
    {
        self.slots.len() - self.len
    }

    /// Queues `batch` behind what is already queued if all of it fits.
    /// Otherwise the batch is dropped and the queue stays as it was. Either
    /// way the call returns at once; the result says whether the batch was
    /// queued.
    pub fn write(&mut self, batch: &[i16]) -> (queued: bool)
        requires
            old(self).wf(),
        ensures
            final(self).wf(),
            final(self).capacity() == old(self).capacity(),
            queued == (batch@.len() <= old(self).free()),
            queued ==> final(self)@ == old(self)@ + batch@,
            !queued ==> final(self)@ == old(self)@,
    {
        let capacity: usize = self.slots.len();
        if batch.len() > capacity - self.len {
            return false;
        }
        let ghost before = self@;
        let ghost start = self.len as int;
        let mut written: usize = 0;
        while written < batch.len()
            invariant
                self.wf(),
                self.slots@.len() == capacity,
                self.head == old(self).head,
                self.len == start + written,
                start == before.len(),
                written <= batch@.len(),
                start + batch@.len() <= capacity,
                forall|i: int|
                    0 <= i < start ==> self.slots@[slot_of(
                        self.head as int,
                        i,
                        capacity as int,
                    )] == before[i],
                forall|i: int|
                    0 <= i < written ==> self.slots@[slot_of(
                        self.head as int,
                        start + i,
                        capacity as int,
                    )] == batch@[i],
            decreases batch@.len() - written,
        {
            let at: usize = if self.head >= capacity - self.len {
                self.head - (capacity - self.len)
            } else {
                self.head + self.len
            };
            assert(at == slot_of(self.head as int, self.len as int, capacity as int));
            self.slots[at] = batch[written];
            self.len = self.len + 1;
            written = written + 1;
        }
        assert(self@ =~= before + batch@);
        true
    }

    /// Takes out everything that is queued, oldest first, and leaves the
    /// queue empty.
    pub fn drain(&mut self) -> (samples: Vec<i16>)
        requires
            old(self).wf(),
        ensures
            final(self).wf(),
            final(self).capacity() == old(self).capacity(),
            samples@ == old(self)@,
            final(self)@ == Seq::<i16>::empty(),
    {
        let capacity: usize = self.slots.len();
        let mut samples: Vec<i16> = Vec::new();
        let mut taken: usize = 0;
        while taken < self.len
            invariant
                self.wf(),
                *self == *old(self),
                capacity == self.slots@.len(),
                taken <= self.len,
                samples@.len() == taken,
                forall|i: int| 0 <= i < taken ==> samples@[i] == self@[i],
            decreases self.len - taken,
        {
            let at: usize = if self.head >= capacity - taken {
                self.head - (capacity - taken)
            } else {
                self.head + taken
            };
            assert(at == slot_of(self.head as int, taken as int, capacity as int));
            samples.push(self.slots[at]);
            taken = taken + 1;
        }
        assert(samples@ =~= self@);
        self.head = if self.head >= capacity - self.len {
            self.head - (capacity - self.len)
        } else {
            self.head + self.len
        };
        self.len = 0;
        assert(self@ =~= Seq::<i16>::empty());
        samples
    }
}

} // verus!
