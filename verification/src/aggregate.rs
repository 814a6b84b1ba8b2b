//! Counting records and deciding when progress is reported.

use vstd::prelude::*;

verus! {

/// Progress is reported each time the count reaches a multiple of this.
pub const PROGRESS_INTERVAL: u64 = 1000;

/// Whether a line with the given parse outcome is counted under a policy.
pub open spec fn is_counted(parsed: bool, count_failed: bool) -> bool {
    parsed || count_failed
}

/// By how much a line with the given parse outcome raises the count.
pub open spec fn step_of(parsed: bool, count_failed: bool) -> nat {
    if is_counted(parsed, count_failed) {
        1
    } else {
        0
    }
}

/// What is reported after a line with the given parse outcome leaves the count
/// at `count`.
pub open spec fn report_at(parsed: bool, count_failed: bool, count: nat) -> Option<u64> {
    if is_counted(parsed, count_failed) && count % (PROGRESS_INTERVAL as nat) == 0 {
        Some(count as u64)
    } else {
        None
    }
}

/// The progress reports owed while the count rises from `from` to `to`: the
/// multiples of the interval in `(from, to]`, ascending.
pub open spec fn progress_marks(from: nat, to: nat) -> Seq<u64>
    decreases to,
{
    if to <= from {
        Seq::empty()
    } else if to % (PROGRESS_INTERVAL as nat) == 0 {
        progress_marks(from, (to - 1) as nat).push(to as u64)
    } else {
        progress_marks(from, (to - 1) as nat)
    }
}

/// A running record count under a fixed policy for lines that failed to parse.
pub struct Aggregator {
    count: u64,
    count_failed: bool,
}

impl Aggregator {
    /// The number of records counted so far.
    pub closed spec fn counted(&self) -> nat {
        self.count as nat
    }

    /// Whether lines that fail to parse are counted.
    pub closed spec fn counts_failed(&self) -> bool {
        self.count_failed
    }

    /// An aggregator that has counted nothing.
    pub fn new(count_failed: bool) -> (a: Self)
        ensures
            a.counted() == 0,
            a.counts_failed() == count_failed,
    {
        Aggregator { count: 0, count_failed }
    }

    /// The number of records counted so far.
    pub fn record_count(&self) -> (n: u64)
        ensures
            n == self.counted(),
    {
        self.count
    }

    /// Whether lines that fail to parse are counted.
    pub fn policy(&self) -> (count_failed: bool)
        ensures
            count_failed == self.counts_failed(),
    {
        self.count_failed
    }

    /// Takes the outcome of parsing one line. Returns the count to report where
    /// it has just reached a multiple of the interval.
    pub fn record(&mut self, parsed: bool) -> (progress: Option<u64>)
        requires
            old(self).counted() < u64::MAX,
        ensures
            final(self).counts_failed() == old(self).counts_failed(),
            final(self).counted() == old(self).counted() + step_of(parsed, old(self).counts_failed()),
            progress == report_at(parsed, old(self).counts_failed(), final(self).counted()),
            match progress {
                Some(n) => progress_marks(old(self).counted(), final(self).counted()) == seq![n],
                None => progress_marks(old(self).counted(), final(self).counted())
                    == Seq::<u64>::empty(),
            },
    {
        if !parsed && !self.count_failed {
            return None;
        }
        self.count = self.count + 1;
        proof {
            let to = self.count as nat;
            assert(progress_marks((to - 1) as nat, (to - 1) as nat) == Seq::<u64>::empty());
            assert(Seq::<u64>::empty().push(self.count) =~= seq![self.count]);
        }
        if self.count % PROGRESS_INTERVAL == 0 {
            Some(self.count)
        } else {
            None
        }
    }
}

/// Progress reports owed over two consecutive stretches are those owed over
/// the first, then those owed over the second.
pub proof fn lemma_marks_concat(from: nat, mid: nat, to: nat)
    requires
        from <= mid <= to,
    ensures
        progress_marks(from, to) == progress_marks(from, mid) + progress_marks(mid, to),
    decreases to,
{
    if to == mid {
        assert(progress_marks(from, mid) + Seq::<u64>::empty() =~= progress_marks(from, mid));
    } else {
        lemma_marks_concat(from, mid, (to - 1) as nat);
        let a = progress_marks(from, mid);
        let b = progress_marks(mid, (to - 1) as nat);
        assert((a + b).push(to as u64) =~= a + b.push(to as u64));
    }
}

} // verus!
