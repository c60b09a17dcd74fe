//! The time pebble: a fixed ring of 100 weighted buckets that turns a stream
//! of appended scalars into a rolling sum or mean over a fixed duration.

use vstd::prelude::*;
use crate::num::{f64_add, f64_div, f64_mul, i64_to_f64_bits};
use crate::num::{float_add_bits, float_div_bits, float_mul_bits, float_of_i64};

verus! {

/// How many buckets a pebble ring holds.
pub const PEBBLE_RING_SIZE: usize = 100;

/// One ring bucket: how many values landed in it, and the folded value
/// (an IEEE-754 double as its bit pattern).
#[derive(Debug, Clone, Copy, PartialEq, Eq, Structural)]
pub struct PebbleEntry {
    pub weight: i32,
    pub value: u64,
}

/// How two pebble entries fold together: a running sum or a weighted mean.
#[derive(Debug, Clone, Copy, PartialEq, Eq, Structural)]
pub enum MergeStrategy {
    Sum,
    Mean,
}

/// The entry in which every bucket starts: no weight, value zero.
pub open spec fn spec_zero_entry() -> PebbleEntry {
    PebbleEntry { weight: 0, value: 0 }
}

/// The folded value of `old` and `new` under the sum strategy.
pub open spec fn spec_sum_merge(old: PebbleEntry, new: PebbleEntry) -> u64 {
    float_add_bits(old.value, new.value)
}

/// The folded value of `old` and `new` under the mean strategy: the weighted
/// mean of the two values, or zero when the combined weight is zero.
pub open spec fn spec_mean_merge(old: PebbleEntry, new: PebbleEntry) -> u64 {
    let bottom = vstd::wrapping::i32_specs::wrapping_add(old.weight, new.weight);
    if bottom == 0 {
        0
    } else {
        float_div_bits(
            float_add_bits(
                float_mul_bits(float_of_i64(old.weight as i64), old.value),
                float_mul_bits(float_of_i64(new.weight as i64), new.value),
            ),
            float_of_i64(bottom as i64),
        )
    }
}

/// The folded value of `old` and `new` under the given strategy.
pub open spec fn spec_strategy_merge(st: MergeStrategy, old: PebbleEntry, new: PebbleEntry) -> u64 {
    match st {
        MergeStrategy::Sum => spec_sum_merge(old, new),
        MergeStrategy::Mean => spec_mean_merge(old, new),
    }
}

/// Folds two entries by adding their values.
pub fn sum_merge_strategy(old: &PebbleEntry, new: &PebbleEntry) -> (r: u64)
    ensures
        r == spec_sum_merge(*old, *new),
{
    f64_add(old.value, new.value)
}

/// Folds two entries into the weighted mean of their values; zero when the
/// combined weight is zero.
pub fn mean_merge_strategy(old: &PebbleEntry, new: &PebbleEntry) -> (r: u64)
    ensures
        r == spec_mean_merge(*old, *new),
{
    let bottom = old.weight.wrapping_add(new.weight);
    if bottom == 0 {
        return 0;
    }
    let top = f64_add(
        f64_mul(i64_to_f64_bits(old.weight as i64), old.value),
        f64_mul(i64_to_f64_bits(new.weight as i64), new.value),
    );
    f64_div(top, i64_to_f64_bits(bottom as i64))
}

/// Folds two entries under the given strategy.
pub fn strategy_merge(st: MergeStrategy, old: &PebbleEntry, new: &PebbleEntry) -> (r: u64)
    ensures
        r == spec_strategy_merge(st, *old, *new),
{
    match st {
        MergeStrategy::Sum => sum_merge_strategy(old, new),
        MergeStrategy::Mean => mean_merge_strategy(old, new),
    }
}

/// A rolling window: a ring of weighted buckets, the size of one bucket in
/// nanoseconds, and where (in ring index and in bucket-sized ticks since the
/// epoch) the last value landed.
#[derive(Debug, PartialEq)]
pub struct TimePebble {
    pub buckets: Vec<PebbleEntry>,
    pub merge: MergeStrategy,
    pub bucket_size_nanos: u128,
    pub last_bucket_index: usize,
    pub last_bucket_time_nanos: u128,
}

/// The mathematical shadow of a `TimePebble`.
pub ghost struct PebbleV {
    pub buckets: Seq<PebbleEntry>,
    pub merge: MergeStrategy,
    pub bucket_size_nanos: u128,
    pub last_bucket_index: usize,
    pub last_bucket_time_nanos: u128,
}

impl View for TimePebble {
    type V = PebbleV;

    open spec fn view(&self) -> PebbleV {
        PebbleV {
            buckets: self.buckets@,
            merge: self.merge,
            bucket_size_nanos: self.bucket_size_nanos,
            last_bucket_index: self.last_bucket_index,
            last_bucket_time_nanos: self.last_bucket_time_nanos,
        }
    }
}

impl PebbleV {
    /// A pebble the ring can work with: the fixed ring size, a bucket size
    /// one can divide by, and a ring index in range.
    pub open spec fn wf(self) -> bool {
        &&& self.buckets.len() == 100
    &&& self.bucket_size_nanos >= 1
    &&& self.last_bucket_index < 100
    }
}

/// The pebble a duration and strategy start from: an all-zero ring. The
/// bucket size is a hundredth of the duration, and at least one nanosecond.
pub open spec fn spec_pebble_new(duration_secs: u64, granularity: usize, merge: MergeStrategy) -> PebbleV {
    let raw = (duration_secs * 1_000_000_000) as u128 / granularity as u128;
    PebbleV {
        buckets: Seq::new(100, |i: int| spec_zero_entry()),
        merge,
        bucket_size_nanos: if raw == 0 {
            1
        } else {
            raw
        },
        last_bucket_index: 0,
        last_bucket_time_nanos: 0,
    }
}

/// `count - 1` buckets after `last` in ring order, zeroed one by one.
pub open spec fn spec_zero_steps(bs: Seq<PebbleEntry>, last: int, count: int) -> Seq<PebbleEntry>
    decreases count,
{
    if count <= 1 {
        bs
    } else {
        spec_zero_steps(bs, last, count - 1).update((last + count - 1) % 100, spec_zero_entry())
    }
}

/// The consistency pass before an append: a jump of more than one full ring
/// (or a step back in time) zeroes everything; a shorter forward jump zeroes
/// the buckets strictly between the last index and the new offset.
pub open spec fn spec_keep_consistent(p: PebbleV, t: u128, offset: int) -> PebbleV {
    let last = p.last_bucket_time_nanos;
    if t < last || t - last > 100 {
        PebbleV { buckets: Seq::new(100, |i: int| spec_zero_entry()), ..p }
    } else if t != last && t - last < 100 {
        let distance = if offset >= p.last_bucket_index as int {
            offset - p.last_bucket_index as int
        } else {
            100 - p.last_bucket_index as int + offset
        };
        PebbleV {
            buckets: spec_zero_steps(p.buckets, p.last_bucket_index as int, distance),
            ..p
        }
    } else {
        p
    }
}

/// One append at tick `t`: run the consistency pass, then land the value in
/// the bucket at `t mod 100`, bumping its weight first and folding the value
/// under the pebble's strategy, and remember where and when.
pub open spec fn spec_pebble_append(p: PebbleV, value: u64, t: u128) -> PebbleV {
    let offset = (t % 100) as int;
    let p1 = spec_keep_consistent(p, t, offset);
    let bumped = PebbleEntry {
        weight: vstd::wrapping::i32_specs::wrapping_add(p1.buckets[offset].weight, 1),
        value: p1.buckets[offset].value,
    };
    let folded = PebbleEntry {
        weight: bumped.weight,
        value: spec_strategy_merge(p.merge, bumped, PebbleEntry { weight: 1, value }),
    };
    PebbleV {
        buckets: p1.buckets.update(offset, folded),
        last_bucket_index: (t % 100) as usize,
        last_bucket_time_nanos: t,
        ..p1
    }
}

/// The fold of the first `n` buckets, skipping those with weight zero.
pub open spec fn spec_aggregate_upto(p: PebbleV, n: int) -> PebbleEntry
    decreases n,
{
    if n <= 0 {
        spec_zero_entry()
    } else {
        let acc = spec_aggregate_upto(p, n - 1);
        let b = p.buckets[n - 1];
        if b.weight == 0 {
            acc
        } else {
            PebbleEntry {
                weight: vstd::wrapping::i32_specs::wrapping_add(acc.weight, b.weight),
                value: spec_strategy_merge(p.merge, acc, b),
            }
        }
    }
}

/// The rolling value of a pebble: every weighted bucket folded together,
/// then folded once more with the zero entry.
pub open spec fn spec_pebble_aggregate(p: PebbleV) -> u64 {
    spec_strategy_merge(p.merge, spec_aggregate_upto(p, p.buckets.len() as int), spec_zero_entry())
}

/// Zeroing steps keep the ring's length.
pub proof fn lemma_zero_steps_len(bs: Seq<PebbleEntry>, last: int, count: int)
    requires
        bs.len() == 100,
        0 <= last < 100,
    ensures
        spec_zero_steps(bs, last, count).len() == 100,
    decreases count,
{
    if count > 1 {
        lemma_zero_steps_len(bs, last, count - 1);
    }
}

/// An append keeps a pebble well-formed.
pub proof fn lemma_pebble_append_wf(p: PebbleV, value: u64, t: u128)
    requires
        p.wf(),
    ensures
        spec_pebble_append(p, value, t).wf(),
{
    let offset = (t % 100) as int;
    let p1 = spec_keep_consistent(p, t, offset);
    assert(p1.buckets.len() == 100) by {
        let last = p.last_bucket_time_nanos;
        if t < last || t - last > 100 {
        } else if t != last && t - last < 100 {
            let distance = if offset >= p.last_bucket_index as int {
                offset - p.last_bucket_index as int
            } else {
                100 - p.last_bucket_index as int + offset
            };
            lemma_zero_steps_len(p.buckets, p.last_bucket_index as int, distance);
        }
    }
}

impl TimePebble {
    /// A fresh pebble over the given duration: an all-zero ring whose bucket
    /// size is the duration split over `granularity` slots (at least one
    /// nanosecond each).
    pub fn new(duration_secs: u64, granularity: usize, merge: MergeStrategy) -> (r: TimePebble)
        requires
            granularity >= 1,
        ensures
            r@ == spec_pebble_new(duration_secs, granularity, merge),
            r@.wf(),
    {
        let nanos: u128 = duration_secs as u128 * 1_000_000_000;
        let raw: u128 = nanos / granularity as u128;
        let r = TimePebble {
            buckets: vec![PebbleEntry { weight: 0, value: 0 }; 100],
            merge,
            bucket_size_nanos: if raw == 0 {
                1
            } else {
                raw
            },
            last_bucket_index: 0,
            last_bucket_time_nanos: 0,
        };
        proof {
            assert(r@.buckets =~= spec_pebble_new(duration_secs, granularity, merge).buckets);
        }
        r
    }

    /// Zeroes every bucket.
    fn reset_window(&mut self)
        requires
            old(self)@.wf(),
        ensures
            final(self)@ == (PebbleV { buckets: Seq::new(100, |i: int| spec_zero_entry()), ..old(self)@ }),
            final(self)@.wf(),
    {
        let n = self.buckets.len();
        let mut i: usize = 0;
        while i < n
            invariant
                0 <= i <= n,
                n == 100,
                self.buckets.len() == 100,
                self.merge == old(self).merge,
                self.bucket_size_nanos == old(self).bucket_size_nanos,
                self.last_bucket_index == old(self).last_bucket_index,
                self.last_bucket_time_nanos == old(self).last_bucket_time_nanos,
                old(self)@.wf(),
                forall|k: int| 0 <= k < i ==> self.buckets@[k] == spec_zero_entry(),
                forall|k: int| i <= k < 100 ==> self.buckets@[k] == old(self).buckets@[k],
            decreases n - i,
        {
            self.buckets.set(i, PebbleEntry { weight: 0, value: 0 });
            i = i + 1;
        }
        proof {
            assert(self.buckets@ =~= Seq::new(100, |i: int| spec_zero_entry()));
        }
    }

    /// Zeroes the buckets strictly between the last index and `window_offset`
    /// in ring order.
    fn reset_buckets(&mut self, window_offset: usize)
        requires
            old(self)@.wf(),
            window_offset < 100,
        ensures
            final(self)@ == (PebbleV {
                buckets: spec_zero_steps(
                    old(self)@.buckets,
                    old(self)@.last_bucket_index as int,
                    if window_offset >= old(self)@.last_bucket_index {
                        window_offset - old(self)@.last_bucket_index
                    } else {
                        100 - old(self)@.last_bucket_index + window_offset
                    },
                ),
                ..old(self)@
            }),
            final(self)@.wf(),
    {
        let last = self.last_bucket_index;
        let distance: usize = if window_offset >= last {
            window_offset - last
        } else {
            100 - last + window_offset
        };
        let mut i: usize = 1;
        while i < distance
            invariant
                1 <= i,
                i <= distance || distance < 1,
                distance < 1 ==> i == 1,
                distance < 100,
                last == old(self)@.last_bucket_index,
                last < 100,
                self.buckets.len() == 100,
                self.merge == old(self).merge,
                self.bucket_size_nanos == old(self).bucket_size_nanos,
                self.last_bucket_index == old(self).last_bucket_index,
                self.last_bucket_time_nanos == old(self).last_bucket_time_nanos,
                self.buckets@ == spec_zero_steps(old(self)@.buckets, last as int, i as int),
            decreases distance - i,
        {
            let offset = (last + i) % 100;
            self.buckets.set(offset, PebbleEntry { weight: 0, value: 0 });
            i = i + 1;
        }
        proof {
            assert(self.buckets@ == spec_zero_steps(
                old(self)@.buckets,
                last as int,
                distance as int,
            ));
        }
    }

    /// Runs the consistency pass for an append at tick `adjusted_time`.
    fn keep_consistent(&mut self, adjusted_time: u128, window_offset: usize)
        requires
            old(self)@.wf(),
            window_offset < 100,
        ensures
            final(self)@ == spec_keep_consistent(old(self)@, adjusted_time, window_offset as int),
            final(self)@.wf(),
    {
        let last = self.last_bucket_time_nanos;
        if adjusted_time < last || adjusted_time - last > 100 {
            self.reset_window();
        } else if adjusted_time != last && adjusted_time - last < 100 {
            self.reset_buckets(window_offset);
        }
    }

    /// Appends a value (a double as bits) at the bucket tick `adjusted_time`.
    pub fn append_at_tick(&mut self, value: u64, adjusted_time: u128)
        requires
            old(self)@.wf(),
        ensures
            final(self)@ == spec_pebble_append(old(self)@, value, adjusted_time),
            final(self)@.wf(),
    {
        let window_offset: usize = (adjusted_time % 100) as usize;
        self.keep_consistent(adjusted_time, window_offset);
        let entry = self.buckets[window_offset];
        let bumped = PebbleEntry { weight: entry.weight.wrapping_add(1), value: entry.value };
        let folded = PebbleEntry {
            weight: bumped.weight,
            value: strategy_merge(self.merge, &bumped, &PebbleEntry { weight: 1, value }),
        };
        self.buckets.set(window_offset, folded);
        self.last_bucket_time_nanos = adjusted_time;
        self.last_bucket_index = window_offset;
    }

    /// Appends a value stamped with a wall-clock time in nanoseconds since
    /// the epoch; the tick is the time split by the bucket size.
    pub fn append_with_timestamp(&mut self, value: u64, now_nanos: u128)
        requires
            old(self)@.wf(),
        ensures
            final(self)@ == spec_pebble_append(
                old(self)@,
                value,
                now_nanos / old(self)@.bucket_size_nanos,
            ),
            final(self)@.wf(),
    {
        let adjusted_time = now_nanos / self.bucket_size_nanos;
        self.append_at_tick(value, adjusted_time);
    }

    /// Appends a value at the present moment, read from the system clock.
    pub fn append(&mut self, value: u64)
        requires
            old(self)@.wf(),
        ensures
            exists|t: u128| final(self)@ == spec_pebble_append(old(self)@, value, t),
            final(self)@.wf(),
    {
        let now = crate::pebble::now_nanos();
        let ghost t = now / self@.bucket_size_nanos;
        self.append_with_timestamp(value, now);
        proof {
            assert(self@ == spec_pebble_append(old(self)@, value, t));
        }
    }

    /// The rolling value over the window, as a double's bit pattern.
    pub fn aggregate(&self) -> (r: u64)
        requires
            self@.wf(),
        ensures
            r == spec_pebble_aggregate(self@),
    {
        let mut acc = PebbleEntry { weight: 0, value: 0 };
        let n = self.buckets.len();
        let mut i: usize = 0;
        while i < n
            invariant
                0 <= i <= n,
                n == self.buckets.len(),
                self@.wf(),
                acc == spec_aggregate_upto(self@, i as int),
            decreases n - i,
        {
            let b = self.buckets[i];
            if b.weight != 0 {
                acc = PebbleEntry {
                    weight: acc.weight.wrapping_add(b.weight),
                    value: strategy_merge(self.merge, &acc, &b),
                };
            }
            i = i + 1;
        }
        strategy_merge(self.merge, &acc, &PebbleEntry { weight: 0, value: 0 })
    }
}

/// Relies on the system clock: nanoseconds since the Unix epoch, zero if the
/// clock stands before it.  Nothing is promised of the value.
#[verifier::external_body]
fn now_nanos() -> u128 {
    std::time::SystemTime::now().duration_since(std::time::SystemTime::UNIX_EPOCH).map(
        |d| d.as_nanos(),
    ).unwrap_or(0)
}

/// The numeric value of a run of ASCII digits.
pub open spec fn spec_digits_val(s: Seq<u8>) -> int
    decreases s.len(),
{
    if s.len() == 0 {
        0
    } else {
        spec_digits_val(s.drop_last()) * 10 + (s.last() - 0x30)
    }
}

/// Whether every byte of `s` is an ASCII digit.
pub open spec fn spec_all_digits(s: Seq<u8>) -> bool {
    forall|i: int| 0 <= i < s.len() ==> 0x30 <= #[trigger] s[i] <= 0x39
}

/// The seconds a duration string denotes: one or more digits followed by a
/// unit (`s`, `m` or `h`).  Anything else — and any value too large for 64
/// bits — denotes nothing.
pub open spec fn spec_parse_duration(s: Seq<u8>) -> Option<u64> {
    if s.len() >= 2 && spec_all_digits(s.drop_last()) {
        let mag = spec_digits_val(s.drop_last());
        let unit: nat = if s.last() == 0x73 {
            1
        } else if s.last() == 0x6d {
            60
        } else if s.last() == 0x68 {
            3600
        } else {
            0
        };
        if unit == 0 || mag > u64::MAX || mag * unit > u64::MAX {
            None
        } else {
            Some((mag * unit) as u64)
        }
    } else {
        None
    }
}

/// A run of ASCII digits has a value of at least zero.
proof fn lemma_digits_val_nonneg(s: Seq<u8>)
    requires
        spec_all_digits(s),
    ensures
        spec_digits_val(s) >= 0,
    decreases s.len(),
{
    if s.len() > 0 {
        assert(spec_all_digits(s.drop_last()));
        lemma_digits_val_nonneg(s.drop_last());
    }
}

/// Extending a run of ASCII digits never shrinks its value.
proof fn lemma_digits_val_grows(s: Seq<u8>, i: int)
    requires
        0 <= i <= s.len(),
        spec_all_digits(s),
    ensures
        spec_digits_val(s.take(i)) <= spec_digits_val(s),
    decreases s.len() - i,
{
    if i < s.len() {
        lemma_digits_val_grows(s, i + 1);
        assert(s.take(i + 1).drop_last() =~= s.take(i));
        assert(spec_all_digits(s.take(i as int)));
        lemma_digits_val_nonneg(s.take(i as int));
        assert(spec_digits_val(s.take(i + 1)) == spec_digits_val(s.take(i)) * 10 + (s.take(
            i + 1,
        ).last() - 0x30));
    } else {
        assert(s.take(i) =~= s);
    }
}

/// Parses a duration string: one or more digits and a unit letter, as
/// `spec_parse_duration` says.  Values that do not fit 64 bits give `None`.
pub fn parse_duration(s: &str) -> (r: Option<u64>)
    ensures
        r == spec_parse_duration(vstd::utf8::encode_utf8(s@)),
{
    parse_duration_bytes(s.as_bytes())
}

/// Parses a duration from its UTF-8 bytes; see `parse_duration`.
pub fn parse_duration_bytes(b: &[u8]) -> (r: Option<u64>)
    ensures
        r == spec_parse_duration(b@),
{
    let ghost bs = b@;
    let n = b.len();
    if n < 2 {
        return None;
    }
    let unit: u64 = match b[n - 1] {
        0x73 => 1,
        0x6d => 60,
        0x68 => 3600,
        _ => {
            return None;
        },
    };
    let mut mag: u64 = 0;
    let mut i: usize = 0;
    while i < n - 1
        invariant
            0 <= i <= n - 1,
            n == b@.len() >= 2,
            b@ == bs,
            bs == b@,
            spec_all_digits(bs.take(i as int)),
            mag == spec_digits_val(bs.take(i as int)),
        decreases n - 1 - i,
    {
        let c = b[i];
        if c < 0x30 || c > 0x39 {
            proof {
                assert(bs.drop_last()[i as int] == bs[i as int]);
                assert(!spec_all_digits(bs.drop_last()));
            }
            return None;
        }
        let d: u64 = (c - 0x30) as u64;
        if mag > (u64::MAX - d) / 10 {
            proof {
                assert(bs.take(i + 1).drop_last() =~= bs.take(i as int));
                assert(spec_digits_val(bs.take(i + 1)) == mag * 10 + d);
                assert(mag * 10 + d > u64::MAX) by {
                    let q = (u64::MAX - d) / 10;
                    assert(u64::MAX - d == q * 10 + (u64::MAX - d) % 10) by {
                        vstd::arithmetic::div_mod::lemma_fundamental_div_mod(
                            (u64::MAX - d) as int,
                            10,
                        );
                    }
                    assert(mag >= q + 1);
                    assert(mag * 10 >= (q + 1) * 10) by (nonlinear_arith)
                        requires
                            mag >= q + 1,
                    ;
                }
                if spec_all_digits(bs.drop_last()) {
                    lemma_digits_val_grows(bs.drop_last(), i + 1);
                    assert(bs.drop_last().take(i + 1) =~= bs.take(i + 1));
                    assert(spec_digits_val(bs.drop_last()) > u64::MAX);
                }
            }
            return None;
        }
        proof {
            assert(bs.take(i + 1).drop_last() =~= bs.take(i as int));
        }
        mag = mag * 10 + d;
        i = i + 1;
    }
    proof {
        assert(bs.take(n - 1) =~= bs.drop_last());
    }
    match mag.checked_mul(unit) {
        Some(secs) => Some(secs),
        None => {
            proof {
                assert(spec_digits_val(bs.drop_last()) * unit > u64::MAX);
            }
            None
        },
    }
}

} // verus!
