//! The resource sampler and aggregator: a bounded first-in-first-out window of
//! memory readings, drained once per aggregation cycle into one summary.
//!
//! Readings are byte counts. Ratios are kept in basis points (hundredths of a
//! percent), so that nothing here needs floating point.

use vstd::prelude::*;

verus! {

/// Readings the window keeps: one per second gives one minute of history.
pub const WINDOW_CAPACITY: usize = 60;

/// Basis points in a whole: 100 % is 10 000 basis points.
pub const BASIS_POINTS: u128 = 10_000;

/// Sum of a sequence of readings.
pub open spec fn sum_of(s: Seq<u64>) -> nat
    decreases s.len(),
{
    if s.len() == 0 {
        0
    } else {
        sum_of(s.drop_last()) + s.last() as nat
    }
}

/// `m` is the least reading of `s`.
pub open spec fn is_least(m: u64, s: Seq<u64>) -> bool {
    &&& s.contains(m)
    &&& forall|i: int| 0 <= i < s.len() ==> m <= #[trigger] s[i]
}

/// `m` is the greatest reading of `s`.
pub open spec fn is_greatest(m: u64, s: Seq<u64>) -> bool {
    &&& s.contains(m)
    &&& forall|i: int| 0 <= i < s.len() ==> #[trigger] s[i] <= m
}

/// Share of `total` that `part` makes up, in basis points, rounded down;
/// zero when `total` is zero (a failed probe reports zero memory).
pub open spec fn share_of(part: u64, total: u64) -> nat {
    if total == 0 {
        0
    } else {
        (part as nat * 10_000) / (total as nat)
    }
}

/// What a window holds after one more reading: the reading goes to the back,
/// and the oldest one leaves first when the window is full.
pub open spec fn after_push(s: Seq<u64>, sample: u64) -> Seq<u64> {
    if s.len() >= WINDOW_CAPACITY {
        s.drop_first().push(sample)
    } else {
        s.push(sample)
    }
}

/// One row of the minute-level history.
#[derive(Clone, Copy, Debug, PartialEq, Eq, Structural)]
pub struct RamAggregate {
    /// Least reading of the window, in bytes.
    pub min_bytes: u64,
    /// Greatest reading of the window, in bytes.
    pub max_bytes: u64,
    /// Mean reading of the window, in bytes, rounded down.
    pub avg_bytes: u64,
    /// Installed memory at the time of aggregation, in bytes.
    pub total_bytes: u64,
    /// `avg_bytes` as a share of `total_bytes`, in basis points.
    pub usage_basis_points: u128,
}

/// `a` summarises the non-empty window `s` against `total` bytes of memory.
pub open spec fn summarises(a: RamAggregate, s: Seq<u64>, total: u64) -> bool {
    &&& is_least(a.min_bytes, s)
    &&& is_greatest(a.max_bytes, s)
    &&& a.avg_bytes as nat == sum_of(s) / s.len()
    &&& a.total_bytes == total
    &&& a.usage_basis_points as nat == share_of(a.avg_bytes, total)
}

/// The sum of a sequence is at most its length times the largest `u64`.
pub proof fn lemma_sum_bound(s: Seq<u64>)
    ensures
        sum_of(s) <= s.len() * 0xffff_ffff_ffff_ffff,
    decreases s.len(),
{
    if s.len() > 0 {
        lemma_sum_bound(s.drop_last());
        assert(s.len() * 0xffff_ffff_ffff_ffff == (s.len() - 1) * 0xffff_ffff_ffff_ffff
            + 0xffff_ffff_ffff_ffff) by (nonlinear_arith);
    }
}

/// Two aggregates that summarise the same window against the same total are
/// the same row: the summary is a function of the window.
pub proof fn lemma_summary_unique(a: RamAggregate, b: RamAggregate, s: Seq<u64>, total: u64)
    requires
        summarises(a, s, total),
        summarises(b, s, total),
    ensures
        a == b,
{
    let i = choose|i: int| 0 <= i < s.len() && s[i] == a.min_bytes;
    let j = choose|j: int| 0 <= j < s.len() && s[j] == b.min_bytes;
    assert(a.min_bytes <= s[j] && b.min_bytes <= s[i]);
    let k = choose|k: int| 0 <= k < s.len() && s[k] == a.max_bytes;
    let l = choose|l: int| 0 <= l < s.len() && s[l] == b.max_bytes;
    assert(s[l] <= a.max_bytes && s[k] <= b.max_bytes);
}

/// Summarises a drained window: `None` for an empty one, else the least,
/// greatest and mean reading and the mean's share of `total_bytes`.
pub fn aggregate(samples: &Vec<u64>, total_bytes: u64) -> (row: Option<RamAggregate>)
    ensures
        row.is_none() <==> samples@.len() == 0,
        row.is_some() ==> summarises(row.unwrap(), samples@, total_bytes),
{
    let n: usize = samples.len();
    if n == 0 {
        return None;
    }
    let mut low: u64 = samples[0];
    let mut high: u64 = samples[0];
    let mut sum: u128 = samples[0] as u128;
    let mut i: usize = 1;
    proof {
        assert(samples@.take(1).drop_last() =~= Seq::<u64>::empty());
        assert(sum_of(samples@.take(1)) == samples@[0] as nat) by {
            reveal_with_fuel(sum_of, 2);
        }
        assert(samples@.take(1)[0] == samples@[0]);
    }
    while i < n
        invariant
            1 <= i <= n,
            n == samples@.len(),
            is_least(low, samples@.take(i as int)),
            is_greatest(high, samples@.take(i as int)),
            sum as nat == sum_of(samples@.take(i as int)),
        decreases n - i,
    {
        let x: u64 = samples[i];
        proof {
            let prev = samples@.take(i as int);
            let next = samples@.take(i + 1);
            assert(next.drop_last() =~= prev);
            assert(next.last() == x);
            lemma_sum_bound(next);
            assert(next.len() * 0xffff_ffff_ffff_ffff <= 0xffff_ffff_ffff_ffff
                * 0xffff_ffff_ffff_ffff) by (nonlinear_arith)
                requires
                    next.len() <= 0xffff_ffff_ffff_ffff,
            ;
            let a = choose|a: int| 0 <= a < prev.len() && prev[a] == low;
            let b = choose|b: int| 0 <= b < prev.len() && prev[b] == high;
            assert(next[a] == low && next[b] == high);
            assert(next[i as int] == x);
            assert forall|k: int| 0 <= k < next.len() implies (if x < low {
                x
            } else {
                low
            }) <= #[trigger] next[k] by {
                if k < i {
                    assert(next[k] == prev[k]);
                }
            }
            assert forall|k: int| 0 <= k < next.len() implies #[trigger] next[k] <= (if x > high {
                x
            } else {
                high
            }) by {
                if k < i {
                    assert(next[k] == prev[k]);
                }
            }
        }
        if x < low {
            low = x;
        }
        if x > high {
            high = x;
        }
        sum = sum + x as u128;
        i = i + 1;
    }
    proof {
        assert(samples@.take(n as int) =~= samples@);
    }
    let mean128: u128 = sum / (n as u128);
    proof {
        lemma_sum_bound(samples@);
        assert(sum_of(samples@) / (n as nat) <= 0xffff_ffff_ffff_ffff) by (nonlinear_arith)
            requires
                sum_of(samples@) <= n * 0xffff_ffff_ffff_ffff,
                n > 0,
        ;
    }
    let mean: u64 = mean128 as u64;
    let share: u128 = if total_bytes == 0 {
        0
    } else {
        (mean as u128) * BASIS_POINTS / (total_bytes as u128)
    };
    Some(
        RamAggregate {
            min_bytes: low,
            max_bytes: high,
            avg_bytes: mean,
            total_bytes,
            usage_basis_points: share,
        },
    )
}

/// The rolling buffer of raw readings.
pub struct SampleWindow {
    samples: Vec<u64>,
}

impl View for SampleWindow {
    type V = Seq<u64>;

    closed spec fn view(&self) -> Seq<u64> {
        self.samples@
    }
}

impl SampleWindow {
    /// The window never holds more than `WINDOW_CAPACITY` readings.
    pub open spec fn wf(&self) -> bool {
        self@.len() <= WINDOW_CAPACITY
    }

    /// An empty window.
    pub fn new() -> (w: SampleWindow)
        ensures
            w@ == Seq::<u64>::empty(),
            w.wf(),
    {
        SampleWindow { samples: Vec::new() }
    }

    /// Number of readings held.
    pub fn len(&self) -> (n: usize)
        ensures
            n == self@.len(),
    {
        self.samples.len()
    }

    /// Whether the window holds no reading.
    pub fn is_empty(&self) -> (b: bool)
        ensures
            b == (self@.len() == 0),
    {
        self.samples.len() == 0
    }

    /// The readings held, oldest first.
    pub fn samples(&self) -> (v: Vec<u64>)
        ensures
            v@ == self@,
    {
        self.samples.clone()
    }

    /// Appends one reading, evicting the oldest when the window is full.
    pub fn push(&mut self, sample: u64)
        requires
            old(self).wf(),
        ensures
            final(self)@ == after_push(old(self)@, sample),
            final(self).wf(),
    {
        if self.samples.len() >= WINDOW_CAPACITY {
            let _oldest: u64 = self.samples.remove(0);
            assert(self.samples@ =~= old(self)@.drop_first());
        }
        self.samples.push(sample);
    }

    /// Empties the window and hands back what it held, oldest first.
    pub fn drain(&mut self) -> (drained: Vec<u64>)
        ensures
            drained@ == old(self)@,
            final(self)@ == Seq::<u64>::empty(),
            final(self).wf(),
    {
        let mut drained: Vec<u64> = Vec::new();
        std::mem::swap(&mut self.samples, &mut drained);
        drained
    }

    /// One aggregation cycle: drains the window and summarises what it held.
    /// An empty window gives no row.
    pub fn flush(&mut self, total_bytes: u64) -> (row: Option<RamAggregate>)
        ensures
            final(self)@ == Seq::<u64>::empty(),
            final(self).wf(),
            row.is_none() <==> old(self)@.len() == 0,
            row.is_some() ==> summarises(row.unwrap(), old(self)@, total_bytes),
    {
        let drained = self.drain();
        aggregate(&drained, total_bytes)
    }
}

/// A window that was just flushed gives no row when flushed again before any
/// new reading arrives: no summary can exist of an empty window.
pub proof fn lemma_no_row_without_samples(a: RamAggregate, total: u64)
    ensures
        !summarises(a, Seq::<u64>::empty(), total),
{
    assert(!Seq::<u64>::empty().contains(a.min_bytes));
}

/// Pushing never grows the window past its capacity, and the newest reading
/// is always the last one held.
pub proof fn lemma_push_bounded(s: Seq<u64>, sample: u64)
    requires
        s.len() <= WINDOW_CAPACITY,
    ensures
        after_push(s, sample).len() <= WINDOW_CAPACITY,
        after_push(s, sample).last() == sample,
        s.len() < WINDOW_CAPACITY ==> after_push(s, sample) == s.push(sample),
        s.len() == WINDOW_CAPACITY ==> after_push(s, sample) == s.subrange(1, s.len() as int).push(
            sample,
        ),
{
}

} // verus!
