use vstd::prelude::*;
use crate::metric::MetricPoint;

verus! {

/// What a buffer of capacity `cap` holds after the points `s` were pushed
/// into it in order: the most recent `cap` of them, oldest first.
pub open spec fn kept(s: Seq<MetricPoint>, cap: nat) -> Seq<MetricPoint> {
    if s.len() <= cap {
        s
    } else {
        s.subrange(s.len() - cap, s.len() as int)
    }
}

/// The most recent `n` points of `s` (all of `s` when it holds fewer), oldest first.
pub open spec fn last_n(s: Seq<MetricPoint>, n: nat) -> Seq<MetricPoint> {
    if n >= s.len() {
        s
    } else {
        s.subrange(s.len() - n, s.len() as int)
    }
}

/// A fixed-capacity circular store of points. Once full, each push
/// overwrites the oldest point.
pub struct RingBuffer {
    buf: Vec<MetricPoint>,
    head: usize,
    capacity: usize,
}

impl RingBuffer {
    /// The slot of `buf` that holds the `j`-th oldest stored point.
    pub closed spec fn slot(self, j: int) -> int {
        if self.head + j < self.buf.len() {
            self.head + j
        } else {
            self.head + j - self.buf.len()
        }
    }

    pub closed spec fn wf(self) -> bool {
        &&& self.capacity > 0
        &&& self.buf.len() <= self.capacity
        &&& (self.buf.len() < self.capacity ==> self.head == 0)
        &&& (self.buf.len() == self.capacity ==> self.head < self.capacity)
    }

    pub closed spec fn cap(self) -> nat {
        self.capacity as nat
    }

    /// The stored points, oldest first.
    pub closed spec fn view(self) -> Seq<MetricPoint> {
        Seq::new(self.buf.len() as nat, |j: int| self.buf[self.slot(j)])
    }

    pub fn new(capacity: usize) -> (r: Self)
        requires
            capacity > 0,
        ensures
            r.wf(),
            r.cap() == capacity,
            r@ == Seq::<MetricPoint>::empty(),
    {
        RingBuffer { buf: Vec::new(), head: 0, capacity }
    }

    pub fn capacity(&self) -> (r: usize)
        ensures
            r == self.cap(),
    {
        self.capacity
    }

    pub fn len(&self) -> (r: usize)
        requires
            self.wf(),
        ensures
            r == self@.len(),
    {
        self.buf.len()
    }

    /// Appends `p` as the newest point, dropping the oldest one when full.
    pub fn push(&mut self, p: MetricPoint)
        requires
            old(self).wf(),
        ensures
            final(self).wf(),
            final(self).cap() == old(self).cap(),
            final(self)@ == kept(old(self)@.push(p), old(self).cap()),
    {
        let ghost pre = self@;
        if self.buf.len() < self.capacity {
            self.buf.push(p);
            assert(self@ =~= pre.push(p));
        } else {
            let h = self.head;
            self.buf[h] = p;
            self.head = if h + 1 == self.capacity { 0 } else { h + 1 };
            let ghost s = pre.push(p);
            assert forall|j: int| 0 <= j < self@.len() implies self@[j] == s[j + 1] by {
                if j + 1 < pre.len() {
                    assert(self.slot(j) != h as int);
                }
            }
            assert(self@ =~= s.subrange(s.len() - self.capacity, s.len() as int));
        }
    }

    /// A fresh copy of the most recent `min(n, len)` points, oldest first.
    pub fn snapshot_last(&self, n: usize) -> (r: Vec<MetricPoint>)
        requires
            self.wf(),
        ensures
            r@ == last_n(self@, n as nat),
            r@.len() <= self.cap(),
    {
        let len = self.buf.len();
        let k: usize = if n < len { n } else { len };
        let mut out: Vec<MetricPoint> = Vec::with_capacity(k);
        let mut j: usize = len - k;
        while j < len
            invariant
                self.wf(),
                len == self.buf.len(),
                k <= len,
                len - k <= j <= len,
                out@ =~= self@.subrange(len - k, j as int),
            decreases len - j,
        {
            let s: usize = if j < len - self.head { self.head + j } else { j - (len - self.head) };
            out.push(self.buf[s]);
            j = j + 1;
        }
        out
    }
}

} // verus!
