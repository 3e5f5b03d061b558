use vstd::prelude::*;

verus! {

/// A fixed-capacity register holding the most recent samples, newest first.
///
/// The samples live in a ring of slots; `head` is the slot of the newest one
/// and older samples follow it, wrapping around the end of the ring.
pub struct History<T> {
    slots: Vec<T>,
    head: usize,
}

impl<T> History<T> {
    /// The ring is non-empty and the cursor points into it.
    pub closed spec fn wf(&self) -> bool {
        &&& self.slots@.len() >= 1
        &&& self.head < self.slots@.len()
    }

    /// The slot that holds the sample of age `i` (0 is the newest).
    spec fn slot(&self, i: int) -> int {
        if self.head + i < self.slots@.len() {
            self.head + i
        } else {
            self.head + i - self.slots@.len()
        }
    }
}

impl<T> View for History<T> {
    type V = Seq<T>;

    /// The stored samples, newest first.
    closed spec fn view(&self) -> Seq<T> {
        Seq::new(self.slots@.len(), |i: int| self.slots@[self.slot(i)])
    }
}

impl<T: Copy> History<T> {
    /// A register of `capacity` samples, each equal to `fill`.
    pub fn new(capacity: usize, fill: T) -> (r: History<T>)
        requires
            capacity >= 1,
        ensures
            r.wf(),
            r@ == Seq::new(capacity as nat, |_i: int| fill),
    {
        let mut slots: Vec<T> = Vec::new();
        while slots.len() < capacity
            invariant
                slots.len() <= capacity,
                forall|k: int| 0 <= k < slots.len() ==> slots@[k] == fill,
            decreases capacity - slots.len(),
        {
            slots.push(fill);
        }
        let r = History { slots, head: 0 };
        assert(r@ =~= Seq::new(capacity as nat, |_i: int| fill));
        r
    }

    /// The number of samples the register holds.
    pub fn capacity(&self) -> (r: usize)
        requires
            self.wf(),
        ensures
            r == self@.len(),
    {
        self.slots.len()
    }

    /// The sample of age `i`: 0 is the newest.
    pub fn get(&self, i: usize) -> (r: T)
        requires
            self.wf(),
            i < self@.len(),
        ensures
            r == self@[i as int],
    {
        let n = self.slots.len();
        let k = if i < n - self.head {
            self.head + i
        } else {
            i - (n - self.head)
        };
        self.slots[k]
    }

    /// Makes `x` the newest sample and drops the oldest one.
    pub fn push(&mut self, x: T)
        requires
            old(self).wf(),
        ensures
            final(self).wf(),
            final(self)@ == seq![x] + old(self)@.take(old(self)@.len() - 1),
    {
        let n = self.slots.len();
        let h = if self.head == 0 {
            n - 1
        } else {
            self.head - 1
        };
        self.slots.set(h, x);
        self.head = h;
        assert(self@ =~= seq![x] + old(self)@.take(old(self)@.len() - 1));
    }

    /// Sets every sample to `fill`, as for a restart from rest.
    pub fn reset(&mut self, fill: T)
        requires
            old(self).wf(),
        ensures
            final(self).wf(),
            final(self)@ == Seq::new(old(self)@.len(), |_i: int| fill),
    {
        let n = self.slots.len();
        let mut k: usize = 0;
        while k < n
            invariant
                n == self.slots.len(),
                n == old(self).slots.len(),
                self.head == old(self).head,
                k <= n,
                forall|j: int| 0 <= j < k ==> self.slots@[j] == fill,
            decreases n - k,
        {
            self.slots.set(k, fill);
            k = k + 1;
        }
        assert(self@ =~= Seq::new(old(self)@.len(), |_i: int| fill));
    }

    /// The stored samples, newest first.
    pub fn to_vec(&self) -> (r: Vec<T>)
        requires
            self.wf(),
        ensures
            r@ == self@,
    {
        let n = self.slots.len();
        let mut r: Vec<T> = Vec::new();
        let mut i: usize = 0;
        while i < n
            invariant
                self.wf(),
                n == self@.len(),
                i <= n,
                r@ == self@.take(i as int),
            decreases n - i,
        {
            r.push(self.get(i));
            i = i + 1;
            assert(r@ =~= self@.take(i as int));
        }
        assert(r@ =~= self@);
        r
    }
}

} // verus!
