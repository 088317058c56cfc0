use vstd::prelude::*;
use std::collections::VecDeque;

verus! {

/// How many of the latest frame times are averaged.
pub const MAX_READINGS: usize = 60;

/// The last `k` items of `s` (all of them if it holds fewer).
pub open spec fn last_items(s: Seq<u64>, k: nat) -> Seq<u64> {
    if s.len() <= k { s } else { s.skip(s.len() - k) }
}

pub open spec fn sum(s: Seq<u64>) -> int
    decreases s.len(),
{
    if s.len() == 0 { 0 } else { sum(s.drop_last()) + s.last() }
}

/// Frame counter and a sliding window of the latest frame times, in nanoseconds.
pub struct FrameStats {
    frame_count: u32,
    frame_times: VecDeque<u64>,
}

impl FrameStats {
    pub closed spec fn readings(&self) -> Seq<u64> {
        self.frame_times@
    }

    pub closed spec fn count(&self) -> u32 {
        self.frame_count
    }

    /// Frames counted so far.
    pub fn frame_count(&self) -> (r: u32)
        ensures
            r == self.count(),
    {
        self.frame_count
    }

    pub open spec fn wf(&self) -> bool {
        self.readings().len() <= MAX_READINGS
    }

    pub fn new() -> (r: FrameStats)
        ensures
            r.count() == 0,
            r.readings() == Seq::<u64>::empty(),
            r.wf(),
    {
        FrameStats { frame_count: 0, frame_times: VecDeque::with_capacity(MAX_READINGS) }
    }

    /// Counts a frame and records its time, keeping only the latest readings.
    pub fn add_reading(&mut self, time_ns: u64)
        requires
            old(self).wf(),
            old(self).count() < u32::MAX,
        ensures
            final(self).count() == old(self).count() + 1,
            final(self).readings() == last_items(old(self).readings().push(time_ns), MAX_READINGS as nat),
            final(self).wf(),
    {
        self.frame_count = self.frame_count + 1;
        let ghost start = self.readings();
        if self.frame_times.len() >= MAX_READINGS {
            self.frame_times.pop_front();
            assert(self.readings() =~= start.skip(1));
        }
        self.frame_times.push_back(time_ns);
        assert(self.readings() =~= last_items(start.push(time_ns), MAX_READINGS as nat));
    }

    /// The mean of the recorded frame times in nanoseconds, rounded down;
    /// 0 when none is recorded.
    pub fn avg_frame_time_ns(&self) -> (r: u64)
        requires
            self.wf(),
        ensures
            self.readings().len() == 0 ==> r == 0,
            self.readings().len() > 0 ==> r == sum(self.readings()) / self.readings().len() as int,
    {
        let n = self.frame_times.len();
        if n == 0 {
            return 0;
        }
        let mut total: u128 = 0;
        let mut i: usize = 0;
        while i < n
            invariant
                n == self.readings().len(),
                n <= MAX_READINGS,
                i <= n,
                total == sum(self.readings().take(i as int)),
                total <= i * 0xFFFF_FFFF_FFFF_FFFF,
            decreases n - i,
        {
            assert(self.readings().take(i as int + 1).drop_last() == self.readings().take(i as int));
            total = total + self.frame_times[i] as u128;
            i = i + 1;
        }
        assert(self.readings().take(n as int) == self.readings());
        proof {
            lemma_sum_bound(self.readings());
            let t = total as int;
            let k = n as int;
            assert(t / k <= 0xFFFF_FFFF_FFFF_FFFF) by (nonlinear_arith)
                requires 0 <= t <= k * 0xFFFF_FFFF_FFFF_FFFF, k > 0;
        }
        (total / n as u128) as u64
    }
}

proof fn lemma_sum_bound(s: Seq<u64>)
    ensures
        0 <= sum(s) <= s.len() * 0xFFFF_FFFF_FFFF_FFFF,
    decreases s.len(),
{
    if s.len() > 0 {
        lemma_sum_bound(s.drop_last());
    }
}

} // verus!
