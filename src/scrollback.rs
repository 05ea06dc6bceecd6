use std::collections::VecDeque;
use vstd::prelude::*;

verus! {

/// Default capacity of the scrollback buffer in bytes (128 KiB).
pub const SCROLLBACK_MAX: usize = 131072;

/// The most recent `cap` bytes of `s` (all of `s` when it is shorter).
pub open spec fn tail(s: Seq<u8>, cap: nat) -> Seq<u8> {
    if s.len() <= cap {
        s
    } else {
        s.subrange(s.len() - cap, s.len() as int)
    }
}

/// Keeping the last `cap` bytes chunk by chunk gives the same buffer as
/// keeping the last `cap` bytes of everything received at once.
pub proof fn lemma_tail_append(s: Seq<u8>, t: Seq<u8>, cap: nat)
    ensures
        tail(tail(s, cap) + t, cap) == tail(s + t, cap),
{
    let a = tail(s, cap) + t;
    let b = s + t;
    if b.len() <= cap {
        assert(tail(s, cap) == s);
    } else {
        let ra = tail(a, cap);
        let rb = tail(b, cap);
        assert(ra.len() == rb.len());
        assert forall|i: int| 0 <= i < ra.len() implies ra[i] == rb[i] by {
            if s.len() <= cap {
            } else {
                assert(a.len() == cap + t.len());
            }
        }
        assert(ra =~= rb);
    }
}

/// The buffer never holds more than `cap` bytes, and once more than `cap`
/// bytes were received it holds exactly the most recent `cap` of them.
pub proof fn lemma_tail_bounded(s: Seq<u8>, cap: nat)
    ensures
        tail(s, cap).len() <= cap,
        s.len() >= cap ==> tail(s, cap).len() == cap,
        forall|i: int|
            0 <= i < tail(s, cap).len() ==> #[trigger] tail(s, cap)[i] == s[s.len() - tail(
                s,
                cap,
            ).len() + i],
{
}

/// A client that takes the buffer as a snapshot after `s` was received and
/// then follows the live stream `t` sees a contiguous run of the whole stream
/// `s + t` that reaches its end: nothing is skipped or repeated at the seam.
pub proof fn lemma_replay_then_live(s: Seq<u8>, t: Seq<u8>, cap: nat)
    ensures
        tail(s, cap) + t == (s + t).subrange(s.len() - tail(s, cap).len(), (s + t).len() as int),
        tail(s, cap).len() == if s.len() <= cap {
            s.len()
        } else {
            cap
        },
{
    let lhs = tail(s, cap) + t;
    let rhs = (s + t).subrange(s.len() - tail(s, cap).len(), (s + t).len() as int);
    assert(lhs =~= rhs);
}

/// A bounded FIFO store of the most recent bytes received from the device.
pub struct Scrollback {
    buf: VecDeque<u8>,
    cap: usize,
}

impl View for Scrollback {
    type V = Seq<u8>;

    closed spec fn view(&self) -> Seq<u8> {
        self.buf@
    }
}

impl Scrollback {
    /// The capacity the buffer was made with.
    pub closed spec fn capacity(&self) -> nat {
        self.cap as nat
    }

    pub closed spec fn wf(&self) -> bool {
        self.buf@.len() <= self.cap
    }

    /// An empty buffer that keeps at most `cap` bytes.
    pub fn new(cap: usize) -> (r: Scrollback)
        ensures
            r.wf(),
            r@ == Seq::<u8>::empty(),
            r.capacity() == cap,
    {
        Scrollback { buf: VecDeque::new(), cap }
    }

    pub fn cap(&self) -> (r: usize)
        ensures
            r == self.capacity(),
    {
        self.cap
    }

    pub fn len(&self) -> (r: usize)
        requires
            self.wf(),
        ensures
            r == self@.len(),
    {
        self.buf.len()
    }

    pub fn is_empty(&self) -> (r: bool)
        requires
            self.wf(),
        ensures
            r == (self@.len() == 0),
    {
        self.buf.len() == 0
    }

    /// Appends `data`, evicting the oldest bytes beyond the capacity.
    pub fn append(&mut self, data: &[u8])
        requires
            old(self).wf(),
        ensures
            final(self).wf(),
            final(self).capacity() == old(self).capacity(),
            final(self)@ == tail(old(self)@ + data@, old(self).capacity()),
            final(self)@.len() <= final(self).capacity(),
    {
        let ghost start = self@;
        let ghost cap = self.capacity();
        proof {
            assert(tail(start, cap) == start);
        }
        let mut i: usize = 0;
        while i < data.len()
            invariant
                0 <= i <= data@.len(),
                self.cap == cap,
                self.wf(),
                self@ == tail(start + data@.subrange(0, i as int), cap),
            decreases data@.len() - i,
        {
            let ghost before = self@;
            self.buf.push_back(data[i]);
            if self.buf.len() > self.cap {
                self.buf.pop_front();
            }
            proof {
                let p = start + data@.subrange(0, i as int);
                let q = start + data@.subrange(0, i + 1);
                assert(q =~= p + seq![data@[i as int]]);
                lemma_tail_append(p, seq![data@[i as int]], cap);
                let x = before + seq![data@[i as int]];
                if x.len() <= cap {
                    assert(self@ =~= x);
                } else {
                    assert(self@ =~= x.subrange(x.len() - cap, x.len() as int));
                }
            }
            i = i + 1;
        }
        proof {
            assert(data@.subrange(0, data@.len() as int) =~= data@);
        }
    }

    /// Empties the buffer.
    pub fn clear(&mut self)
        requires
            old(self).wf(),
        ensures
            final(self).wf(),
            final(self).capacity() == old(self).capacity(),
            final(self)@ == Seq::<u8>::empty(),
    {
        self.buf.clear();
    }

    /// A copy of the current contents, oldest byte first.
    pub fn contents(&self) -> (r: Vec<u8>)
        requires
            self.wf(),
        ensures
            r@ == self@,
    {
        let mut out: Vec<u8> = Vec::new();
        let mut i: usize = 0;
        while i < self.buf.len()
            invariant
                0 <= i <= self@.len(),
                self.wf(),
                out@ == self@.subrange(0, i as int),
            decreases self@.len() - i,
        {
            out.push(self.buf[i]);
            proof {
                assert(out@ =~= self@.subrange(0, i + 1));
            }
            i = i + 1;
        }
        proof {
            assert(self@.subrange(0, self@.len() as int) =~= self@);
        }
        out
    }
}

} // verus!
