use vstd::prelude::*;
use std::collections::VecDeque;

verus! {

/// The queue after handing out up to `n` items: what stays behind.
pub open spec fn remaining_after<T>(q: Seq<T>, n: nat) -> Seq<T> {
    if n <= q.len() { q.skip(n as int) } else { Seq::empty() }
}

/// What a drain of `n` items hands out: the queue's front in order, then
/// `silence` for each item the queue lacked.
pub open spec fn drained<T>(q: Seq<T>, n: nat, silence: T) -> Seq<T> {
    Seq::new(n, |i: int| if i < q.len() { q[i] } else { silence })
}

/// A first-in first-out queue of samples whose consumer never waits: a drain
/// that asks for more than is queued is padded with silence.
pub struct SampleQueue<T> {
    items: VecDeque<T>,
}

impl<T: Copy> SampleQueue<T> {
    pub closed spec fn view(&self) -> Seq<T> {
        self.items@
    }

    pub fn new() -> (r: SampleQueue<T>)
        ensures
            r.view() == Seq::<T>::empty(),
    {
        SampleQueue { items: VecDeque::new() }
    }

    /// Number of queued samples.
    pub fn len(&self) -> (r: usize)
        ensures
            r == self.view().len(),
    {
        self.items.len()
    }

    /// Appends all of `samples`, in order.
    pub fn write_samples(&mut self, samples: &[T])
        ensures
            final(self).view() == old(self).view() + samples@,
    {
        let mut i: usize = 0;
        while i < samples.len()
            invariant
                i <= samples@.len(),
                self.view() == old(self).view() + samples@.take(i as int),
            decreases samples@.len() - i,
        {
            self.items.push_back(samples[i]);
            i = i + 1;
            assert(samples@.take(i as int) == samples@.take(i as int - 1).push(samples@[i as int - 1]));
        }
        assert(samples@.take(i as int) == samples@);
    }

    /// Fills `out` from the front of the queue, in order; once the queue is
    /// empty the rest of `out` is set to `silence`. Never waits for more.
    pub fn output_samples(&mut self, out: &mut [T], silence: T)
        ensures
            final(out)@ == drained(old(self).view(), old(out)@.len(), silence),
            final(self).view() == remaining_after(old(self).view(), old(out)@.len()),
    {
        let ghost q = self.view();
        let n = out.len();
        let mut i: usize = 0;
        while i < n
            invariant
                n == out@.len(),
                n == old(out)@.len(),
                i <= n,
                self.view() == remaining_after(q, i as nat),
                forall|j: int| 0 <= j < i ==> out@[j] == (if j < q.len() { q[j] } else { silence }),
            decreases n - i,
        {
            let x = match self.items.pop_front() {
                Some(v) => v,
                None => silence,
            };
            proof {
                if i < q.len() {
                    assert(q.skip(i as int)[0] == q[i as int]);
                    assert(q.skip(i as int).drop_first() == q.skip(i as int + 1));
                }
            }
            out[i] = x;
            i = i + 1;
        }
        assert(out@ == drained(q, n as nat, silence));
    }

    /// Drops every queued sample.
    pub fn clear(&mut self)
        ensures
            final(self).view() == Seq::<T>::empty(),
    {
        self.items.clear();
    }
}

/// Whatever the split into drains, the samples handed out followed by those
/// still queued are exactly the queued ones, in order: none is lost,
/// repeated or reordered.
pub proof fn lemma_drain_keeps_order<T>(q: Seq<T>, n: nat, m: nat, silence: T)
    requires
        n + m <= q.len(),
    ensures
        drained(q, n, silence) + drained(remaining_after(q, n), m, silence)
            + remaining_after(remaining_after(q, n), m) == q,
{
    let a = drained(q, n, silence);
    let b = drained(remaining_after(q, n), m, silence);
    let c = remaining_after(remaining_after(q, n), m);
    assert(a + b + c =~= q);
}

} // verus!
