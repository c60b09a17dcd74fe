//! Metric values and the merge algebra: how an incoming sample value folds
//! into a stored one under a clear mode.

use vstd::prelude::*;
use crate::clearmode::ClearMode;
use crate::errors::AggregationError;
use crate::labels::{Label, LabelV};
use crate::num::{spec_num_add, spec_num_f64_bits, GravelNumber};
use crate::num::{f64_lt, float_lt_bits};
use crate::pebble::{spec_pebble_append, spec_pebble_new, MergeStrategy, PebbleV, TimePebble};
use openmetrics_parser::Exemplar;

verus! {

/// The exemplar type of the `openmetrics_parser` crate, carried through
/// merges untouched.  To verified code it is an opaque value.
#[verifier::external_type_specification]
#[verifier::external_body]
pub struct ExExemplar(Exemplar);

/// Relies on the `Clone` impl that `openmetrics_parser` derives for
/// `Exemplar`: the clone is the same value.
pub assume_specification[ <Exemplar as Clone>::clone ](e: &Exemplar) -> (r: Exemplar)
    ensures
        r == *e,
;

/// What kind of metric a family holds.
#[derive(Debug, Clone, Copy, PartialEq, Eq, Structural)]
pub enum MetricKind {
    Counter,
    Gauge,
    Histogram,
    Summary,
    Unknown,
}

/// A counter's value: the running total and the exemplar seen last.
#[derive(Debug, Clone, PartialEq)]
pub struct CounterValue {
    pub value: GravelNumber,
    pub exemplar: Option<Exemplar>,
}

/// One histogram bucket: its upper bound (a double as bits), the count of
/// events at or under it, and an optional exemplar.
#[derive(Debug, Clone, PartialEq)]
pub struct Bucket {
    pub count: GravelNumber,
    pub upper_bound: u64,
    pub exemplar: Option<Exemplar>,
}

/// A histogram's value.  The timestamps are doubles as bit patterns.
#[derive(Debug, Clone, PartialEq)]
pub struct HistogramData {
    pub sum: Option<GravelNumber>,
    pub count: Option<u64>,
    pub created: Option<u64>,
    pub buckets: Vec<Bucket>,
}

/// One summary quantile: the quantile (a double as bits) and its value.
#[derive(Debug, Clone, Copy, PartialEq)]
pub struct SummaryQuantile {
    pub quantile: u64,
    pub value: GravelNumber,
}

/// A summary's value.  Merging summaries is unimplemented; the value is
/// carried and rendered only.
#[derive(Debug, Clone, PartialEq)]
pub struct SummaryData {
    pub sum: Option<GravelNumber>,
    pub count: Option<u64>,
    pub created: Option<u64>,
    pub quantiles: Vec<SummaryQuantile>,
}

/// A stored sample value: one of the Prometheus value shapes, or the pebble
/// that a `sum<d>` / `mean<d>` clear mode turns a scalar into.
#[derive(Debug, PartialEq)]
pub enum GravelValue {
    Unknown(GravelNumber),
    Gauge(GravelNumber),
    Counter(CounterValue),
    Histogram(HistogramData),
    Summary(SummaryData),
    Pebble(TimePebble),
}

/// The mathematical shadow of a `GravelValue`.
pub ghost enum ValueV {
    Unknown(GravelNumber),
    Gauge(GravelNumber),
    Counter { value: GravelNumber, exemplar: Option<Exemplar> },
    Histogram {
        sum: Option<GravelNumber>,
        count: Option<u64>,
        created: Option<u64>,
        buckets: Seq<Bucket>,
    },
    Summary {
        sum: Option<GravelNumber>,
        count: Option<u64>,
        created: Option<u64>,
        quantiles: Seq<SummaryQuantile>,
    },
    Pebble(PebbleV),
}

impl View for GravelValue {
    type V = ValueV;

    open spec fn view(&self) -> ValueV {
        match self {
            GravelValue::Unknown(n) => ValueV::Unknown(*n),
            GravelValue::Gauge(n) => ValueV::Gauge(*n),
            GravelValue::Counter(c) => ValueV::Counter { value: c.value, exemplar: c.exemplar },
            GravelValue::Histogram(h) => ValueV::Histogram {
                sum: h.sum,
                count: h.count,
                created: h.created,
                buckets: h.buckets@,
            },
            GravelValue::Summary(s) => ValueV::Summary {
                sum: s.sum,
                count: s.count,
                created: s.created,
                quantiles: s.quantiles@,
            },
            GravelValue::Pebble(p) => ValueV::Pebble(p@),
        }
    }
}

/// One sample: its labels, an optional timestamp (a double as bits), and its
/// value.
#[derive(Debug, PartialEq)]
pub struct GravelSample {
    pub labels: Vec<Label>,
    pub timestamp: Option<u64>,
    pub value: GravelValue,
}

/// The mathematical shadow of a `GravelSample`.
pub ghost struct GravelSampleV {
    pub labels: Seq<LabelV>,
    pub timestamp: Option<u64>,
    pub value: ValueV,
}

impl View for GravelSample {
    type V = GravelSampleV;

    open spec fn view(&self) -> GravelSampleV {
        GravelSampleV { labels: self.labels.deep_view(), timestamp: self.timestamp, value: self.value@ }
    }
}

impl DeepView for GravelSample {
    type V = GravelSampleV;

    open spec fn deep_view(&self) -> GravelSampleV {
        self.view()
    }
}

impl GravelSample {
    /// A sample from its parts.
    pub fn new(labels: Vec<Label>, timestamp: Option<u64>, value: GravelValue) -> (r: GravelSample)
        ensures
            r@ == (GravelSampleV { labels: labels.deep_view(), timestamp, value: value@ }),
    {
        GravelSample { labels, timestamp, value }
    }
}

/// Copies an optional exemplar; relies on the exemplar's `Clone`.
fn clone_exemplar_opt(e: &Option<Exemplar>) -> (r: Option<Exemplar>)
    ensures
        r == *e,
{
    match e {
        Some(x) => Some(x.clone()),
        None => None,
    }
}

impl Bucket {
    /// A copy of this bucket.
    fn duplicate(&self) -> (r: Bucket)
        ensures
            r == *self,
    {
        Bucket {
            count: self.count,
            upper_bound: self.upper_bound,
            exemplar: clone_exemplar_opt(&self.exemplar),
        }
    }
}

/// Copies a bucket list.
fn clone_buckets(v: &Vec<Bucket>) -> (r: Vec<Bucket>)
    ensures
        r@ == v@,
{
    let mut out: Vec<Bucket> = Vec::new();
    let n = v.len();
    let mut i: usize = 0;
    while i < n
        invariant
            0 <= i <= n,
            n == v.len(),
            out@ =~= v@.take(i as int),
        decreases n - i,
    {
        out.push(v[i].duplicate());
        i = i + 1;
    }
    proof {
        assert(v@.take(n as int) =~= v@);
    }
    out
}

/// Copies a quantile list.
fn clone_quantiles(v: &Vec<SummaryQuantile>) -> (r: Vec<SummaryQuantile>)
    ensures
        r@ == v@,
{
    let mut out: Vec<SummaryQuantile> = Vec::new();
    let n = v.len();
    let mut i: usize = 0;
    while i < n
        invariant
            0 <= i <= n,
            n == v.len(),
            out@ =~= v@.take(i as int),
        decreases n - i,
    {
        out.push(v[i]);
        i = i + 1;
    }
    proof {
        assert(v@.take(n as int) =~= v@);
    }
    out
}

/// Copies a pebble ring.
fn clone_entries(v: &Vec<crate::pebble::PebbleEntry>) -> (r: Vec<crate::pebble::PebbleEntry>)
    ensures
        r@ == v@,
{
    let mut out: Vec<crate::pebble::PebbleEntry> = Vec::new();
    let n = v.len();
    let mut i: usize = 0;
    while i < n
        invariant
            0 <= i <= n,
            n == v.len(),
            out@ =~= v@.take(i as int),
        decreases n - i,
    {
        out.push(v[i]);
        i = i + 1;
    }
    proof {
        assert(v@.take(n as int) =~= v@);
    }
    out
}

impl GravelValue {
    /// A copy of this value, equal at the view level.
    pub fn duplicate(&self) -> (r: GravelValue)
        ensures
            r@ == self@,
    {
        match self {
            GravelValue::Unknown(n) => GravelValue::Unknown(*n),
            GravelValue::Gauge(n) => GravelValue::Gauge(*n),
            GravelValue::Counter(c) => GravelValue::Counter(
                CounterValue { value: c.value, exemplar: clone_exemplar_opt(&c.exemplar) },
            ),
            GravelValue::Histogram(h) => GravelValue::Histogram(
                HistogramData {
                    sum: h.sum,
                    count: h.count,
                    created: h.created,
                    buckets: clone_buckets(&h.buckets),
                },
            ),
            GravelValue::Summary(s) => GravelValue::Summary(
                SummaryData {
                    sum: s.sum,
                    count: s.count,
                    created: s.created,
                    quantiles: clone_quantiles(&s.quantiles),
                },
            ),
            GravelValue::Pebble(p) => GravelValue::Pebble(
                TimePebble {
                    buckets: clone_entries(&p.buckets),
                    merge: p.merge,
                    bucket_size_nanos: p.bucket_size_nanos,
                    last_bucket_index: p.last_bucket_index,
                    last_bucket_time_nanos: p.last_bucket_time_nanos,
                },
            ),
        }
    }
}

/// Copies a label list.
pub fn duplicate_labels(v: &Vec<Label>) -> (r: Vec<Label>)
    ensures
        r.deep_view() == v.deep_view(),
{
    let mut out: Vec<Label> = Vec::new();
    let n = v.len();
    let mut i: usize = 0;
    while i < n
        invariant
            0 <= i <= n,
            n == v.len(),
            out@.len() == i,
            forall|k: int| 0 <= k < i ==> #[trigger] out@[k].deep_view() == v@[k].deep_view(),
        decreases n - i,
    {
        let l = Label { name: v[i].name.clone(), value: v[i].value.clone() };
        proof {
            assert(l@ == v@[i as int]@);
        }
        out.push(l);
        i = i + 1;
    }
    proof {
        assert(out.deep_view() =~= v.deep_view());
    }
    out
}

/// The merge-walk of two bucket lists, both taken as sorted ascending by
/// upper bound: equal bounds fold their counts (the exemplar comes from the
/// right), an unequal lesser bound is emitted alone, and either tail is
/// appended.
pub open spec fn spec_merge_buckets(a: Seq<Bucket>, b: Seq<Bucket>) -> Seq<Bucket>
    decreases a.len() + b.len(),
{
    if a.len() == 0 {
        b
    } else if b.len() == 0 {
        a
    } else if float_lt_bits(a[0].upper_bound, b[0].upper_bound) {
        seq![a[0]] + spec_merge_buckets(a.drop_first(), b)
    } else if float_lt_bits(b[0].upper_bound, a[0].upper_bound) {
        seq![b[0]] + spec_merge_buckets(a, b.drop_first())
    } else {
        seq![
            Bucket {
                count: spec_num_add(a[0].count, b[0].count),
                upper_bound: a[0].upper_bound,
                exemplar: b[0].exemplar,
            },
        ] + spec_merge_buckets(a.drop_first(), b.drop_first())
    }
}

/// Merges two bucket lists as `spec_merge_buckets` says.
pub fn merge_buckets(a: &Vec<Bucket>, b: &Vec<Bucket>) -> (r: Vec<Bucket>)
    ensures
        r@ == spec_merge_buckets(a@, b@),
{
    let mut out: Vec<Bucket> = Vec::new();
    let mut i: usize = 0;
    let mut j: usize = 0;
    let n = a.len();
    let m = b.len();
    proof {
        assert(a@.skip(0) =~= a@);
        assert(b@.skip(0) =~= b@);
        assert(out@ + spec_merge_buckets(a@, b@) =~= spec_merge_buckets(a@, b@));
    }
    while i < n && j < m
        invariant
            0 <= i <= n,
            0 <= j <= m,
            n == a.len(),
            m == b.len(),
            spec_merge_buckets(a@, b@) == out@ + spec_merge_buckets(
                a@.skip(i as int),
                b@.skip(j as int),
            ),
        decreases n - i + m - j,
    {
        proof {
            assert(a@.skip(i as int)[0] == a@[i as int]);
            assert(b@.skip(j as int)[0] == b@[j as int]);
            assert(a@.skip(i as int).drop_first() =~= a@.skip(i + 1));
            assert(b@.skip(j as int).drop_first() =~= b@.skip(j + 1));
        }
        let b1 = &a[i];
        let b2 = &b[j];
        if f64_lt(b1.upper_bound, b2.upper_bound) {
            out.push(b1.duplicate());
            i = i + 1;
        } else if f64_lt(b2.upper_bound, b1.upper_bound) {
            out.push(b2.duplicate());
            j = j + 1;
        } else {
            out.push(
                Bucket {
                    count: b1.count.plus(b2.count),
                    upper_bound: b1.upper_bound,
                    exemplar: clone_exemplar_opt(&b2.exemplar),
                },
            );
            i = i + 1;
            j = j + 1;
        }
        proof {
            assert(spec_merge_buckets(a@, b@) == out@ + spec_merge_buckets(
                a@.skip(i as int),
                b@.skip(j as int),
            ));
        }
    }
    if i < n {
        proof {
            assert(j == m);
        }
        while i < n
            invariant
                0 <= i <= n,
                n == a.len(),
                j == m == b.len(),
                spec_merge_buckets(a@, b@) == out@ + spec_merge_buckets(
                    a@.skip(i as int),
                    b@.skip(j as int),
                ),
            decreases n - i,
        {
            proof {
                assert(b@.skip(j as int) =~= Seq::<Bucket>::empty());
                assert(a@.skip(i as int) =~= seq![a@[i as int]] + a@.skip(i + 1));
            }
            out.push(a[i].duplicate());
            i = i + 1;
            proof {
                assert(b@.skip(j as int) =~= Seq::<Bucket>::empty());
                if i < n {
                    assert(spec_merge_buckets(a@.skip(i as int), b@.skip(j as int)) == a@.skip(
                        i as int,
                    ));
                }
            }
        }
    }
    if j < m {
        proof {
            assert(i == n);
        }
        while j < m
            invariant
                0 <= j <= m,
                i == n == a.len(),
                m == b.len(),
                spec_merge_buckets(a@, b@) == out@ + spec_merge_buckets(
                    a@.skip(i as int),
                    b@.skip(j as int),
                ),
            decreases m - j,
        {
            proof {
                assert(a@.skip(i as int) =~= Seq::<Bucket>::empty());
                assert(b@.skip(j as int) =~= seq![b@[j as int]] + b@.skip(j + 1));
            }
            out.push(b[j].duplicate());
            j = j + 1;
        }
    }
    proof {
        assert(a@.skip(i as int) =~= Seq::<Bucket>::empty());
        assert(b@.skip(j as int) =~= Seq::<Bucket>::empty());
        assert(out@ + Seq::<Bucket>::empty() =~= out@);
    }
    out
}

/// The merged value of a stored value `a` and an incoming value `b` under
/// clear mode `m` at pebble tick `t` — or nothing, when the shapes do not
/// match, the mode fits no rule, or the merge is unimplemented (summaries).
pub open spec fn spec_merge_value(a: ValueV, b: ValueV, m: ClearMode, now_nanos: u128) -> Option<ValueV> {
    match (a, b) {
        (ValueV::Unknown(x), ValueV::Unknown(y)) => match m {
            ClearMode::Aggregate => Some(ValueV::Unknown(spec_num_add(x, y))),
            ClearMode::Replace => Some(ValueV::Unknown(y)),
            _ => None,
        },
        (ValueV::Gauge(x), ValueV::Gauge(y)) => match m {
            ClearMode::Aggregate => Some(ValueV::Gauge(spec_num_add(x, y))),
            ClearMode::Replace => Some(ValueV::Gauge(y)),
            _ => None,
        },
        (
            ValueV::Counter { value: x, exemplar: _ },
            ValueV::Counter { value: y, exemplar: e2 },
        ) => match m {
            ClearMode::Aggregate => Some(
                ValueV::Counter { value: spec_num_add(x, y), exemplar: e2 },
            ),
            ClearMode::Replace => Some(ValueV::Counter { value: y, exemplar: e2 }),
            _ => None,
        },
        (
            ValueV::Histogram { sum: s1, count: c1, created: _, buckets: bk1 },
            ValueV::Histogram { sum: s2, count: c2, created: cr2, buckets: bk2 },
        ) => match m {
            ClearMode::Aggregate => Some(
                ValueV::Histogram {
                    sum: match (s1, s2) {
                        (Some(x), Some(y)) => Some(spec_num_add(x, y)),
                        _ => None,
                    },
                    count: match (c1, c2) {
                        (Some(x), Some(y)) => Some(
                            vstd::wrapping::u64_specs::wrapping_add(x, y),
                        ),
                        _ => None,
                    },
                    created: cr2,
                    buckets: spec_merge_buckets(bk1, bk2),
                },
            ),
            ClearMode::Replace => Some(
                ValueV::Histogram {
                    sum: match (s1, s2) {
                        (Some(_), Some(y)) => Some(y),
                        _ => None,
                    },
                    count: match (c1, c2) {
                        (Some(_), Some(y)) => Some(y),
                        _ => None,
                    },
                    created: cr2,
                    buckets: bk2,
                },
            ),
            _ => None,
        },
        (ValueV::Pebble(p), ValueV::Counter { value: y, exemplar: _ }) => Some(
            ValueV::Pebble(
                spec_pebble_append(p, spec_num_f64_bits(y), now_nanos / p.bucket_size_nanos),
            ),
        ),
        (ValueV::Pebble(p), ValueV::Gauge(y)) => Some(
            ValueV::Pebble(
                spec_pebble_append(p, spec_num_f64_bits(y), now_nanos / p.bucket_size_nanos),
            ),
        ),
        (ValueV::Pebble(p), ValueV::Unknown(y)) => Some(
            ValueV::Pebble(
                spec_pebble_append(p, spec_num_f64_bits(y), now_nanos / p.bucket_size_nanos),
            ),
        ),
        (ValueV::Pebble(p), _) => Some(ValueV::Pebble(p)),
        _ => None,
    }
}

/// The merged sample: the stored sample with its value merged as
/// `spec_merge_value` says; its labels and timestamp stay.
pub open spec fn spec_merge_sample(a: GravelSampleV, b: GravelSampleV, m: ClearMode, now_nanos: u128) -> Option<
    GravelSampleV,
> {
    match spec_merge_value(a.value, b.value, m, now_nanos) {
        Some(v) => Some(GravelSampleV { value: v, ..a }),
        None => None,
    }
}

/// Merges `merge` into `into` under `clear_mode`, any pebble append landing
/// at tick `t`.  On `Err` nothing changes; `Ok` and `Err` follow
/// `spec_merge_sample` exactly.
pub fn merge_metric_at(
    into: &mut GravelSample,
    merge: &GravelSample,
    clear_mode: ClearMode,
    now_nanos: u128,
) -> (r: Result<(), AggregationError>)
    requires
        old(into)@.value matches ValueV::Pebble(p) ==> p.wf(),
    ensures
        match r {
            Ok(()) => spec_merge_sample(old(into)@, merge@, clear_mode, now_nanos) == Some(
                final(into)@,
            ),
            Err(AggregationError::Error(_)) => spec_merge_sample(
                old(into)@,
                merge@,
                clear_mode,
                now_nanos,
            ) is None && final(into)@ == old(into)@,
            Err(AggregationError::ParseError(_)) => false,
        },
        (final(into)@.value matches ValueV::Pebble(p) ==> p.wf()),
{
    let aggregate_only = match clear_mode {
        ClearMode::Aggregate => true,
        ClearMode::Replace => false,
        _ => {
            match &into.value {
                GravelValue::Pebble(_) => false,
                _ => {
                    return Err(
                        AggregationError::Error(
                            String::from_str("Cannot merge under this clear mode"),
                        ),
                    );
                },
            }
        },
    };
    match (&mut into.value, &merge.value) {
        (GravelValue::Unknown(x), GravelValue::Unknown(y)) => {
            if aggregate_only {
                *x = x.plus(*y);
            } else {
                *x = *y;
            }
            Ok(())
        },
        (GravelValue::Gauge(x), GravelValue::Gauge(y)) => {
            if aggregate_only {
                *x = x.plus(*y);
            } else {
                *x = *y;
            }
            Ok(())
        },
        (GravelValue::Counter(c1), GravelValue::Counter(c2)) => {
            if aggregate_only {
                c1.value = c1.value.plus(c2.value);
            } else {
                c1.value = c2.value;
            }
            c1.exemplar = clone_exemplar_opt(&c2.exemplar);
            Ok(())
        },
        (GravelValue::Histogram(h1), GravelValue::Histogram(h2)) => {
            let sum = match (&h1.sum, &h2.sum) {
                (Some(x), Some(y)) => if aggregate_only {
                    Some(x.plus(*y))
                } else {
                    Some(*y)
                },
                _ => None,
            };
            let count = match (&h1.count, &h2.count) {
                (Some(x), Some(y)) => if aggregate_only {
                    Some(x.wrapping_add(*y))
                } else {
                    Some(*y)
                },
                _ => None,
            };
            let buckets = if aggregate_only {
                merge_buckets(&h1.buckets, &h2.buckets)
            } else {
                clone_buckets(&h2.buckets)
            };
            h1.sum = sum;
            h1.count = count;
            h1.buckets = buckets;
            h1.created = h2.created;
            Ok(())
        },
        (GravelValue::Pebble(p), GravelValue::Counter(c)) => {
            p.append_with_timestamp(c.value.as_f64_bits(), now_nanos);
            Ok(())
        },
        (GravelValue::Pebble(p), GravelValue::Gauge(y)) => {
            p.append_with_timestamp(y.as_f64_bits(), now_nanos);
            Ok(())
        },
        (GravelValue::Pebble(p), GravelValue::Unknown(y)) => {
            p.append_with_timestamp(y.as_f64_bits(), now_nanos);
            Ok(())
        },
        (GravelValue::Pebble(_), _) => Ok(()),
        _ => Err(
            AggregationError::Error(String::from_str("Cannot merge values of different shapes")),
        ),
    }
}

/// Merges `merge` into `into` under `clear_mode`; a pebble append lands at
/// the tick the system clock gives now.
pub fn merge_metric(into: &mut GravelSample, merge: GravelSample, clear_mode: ClearMode) -> (r: Result<
    (),
    AggregationError,
>)
    requires
        old(into)@.value matches ValueV::Pebble(p) ==> p.wf(),
    ensures
        exists|t: u128|
            match r {
                Ok(()) => spec_merge_sample(old(into)@, merge@, clear_mode, t) == Some(
                    final(into)@,
                ),
                Err(AggregationError::Error(_)) => spec_merge_sample(
                    old(into)@,
                    merge@,
                    clear_mode,
                    t,
                ) is None && final(into)@ == old(into)@,
                Err(AggregationError::ParseError(_)) => false,
            },
        (final(into)@.value matches ValueV::Pebble(p) ==> p.wf()),
{
    let now = crate::value::wall_clock_nanos();
    merge_metric_at(into, &merge, clear_mode, now)
}

/// Relies on the system clock: nanoseconds since the Unix epoch, zero if the
/// clock stands before it.  Nothing is promised of the value.
#[verifier::external_body]
pub(crate) fn wall_clock_nanos() -> u128 {
    std::time::SystemTime::now().duration_since(std::time::SystemTime::UNIX_EPOCH).map(
        |d| d.as_nanos(),
    ).unwrap_or(0)
}

/// Whether a value's pebble, if it holds one, is well-formed.
pub open spec fn spec_pebble_ok(v: ValueV) -> bool {
    match v {
        ValueV::Pebble(p) => p.wf(),
        _ => true,
    }
}

/// Checks that a value's pebble, if it holds one, is well-formed.
pub fn value_pebble_ok(v: &GravelValue) -> (r: bool)
    ensures
        r == spec_pebble_ok(v@),
{
    match v {
        GravelValue::Pebble(p) => p.buckets.len() == 100 && p.bucket_size_nanos >= 1
            && p.last_bucket_index < 100,
        _ => true,
    }
}

/// The scalar a value carries, if it is a plain number.
pub open spec fn spec_scalar_of(v: ValueV) -> Option<GravelNumber> {
    match v {
        ValueV::Unknown(n) => Some(n),
        ValueV::Gauge(n) => Some(n),
        ValueV::Counter { value, exemplar } => Some(value),
        _ => None,
    }
}

/// A value converted at family construction: a `sum<d>` or `mean<d>` clear
/// mode turns it into a fresh pebble over that duration, seeded with the
/// sample's own scalar at the present tick; any other mode leaves the value
/// alone.
pub open spec fn spec_convert_with_clearmode(v: ValueV, clearmode: ClearMode, now: u128) -> ValueV {
    match clearmode {
        ClearMode::Sum(d) => ValueV::Pebble(
            spec_seeded_pebble(spec_pebble_new(d, 100, MergeStrategy::Sum), v, now),
        ),
        ClearMode::Mean(d) => ValueV::Pebble(
            spec_seeded_pebble(spec_pebble_new(d, 100, MergeStrategy::Mean), v, now),
        ),
        _ => v,
    }
}

/// A fresh pebble with the converted value's scalar appended, when it has
/// one.
pub open spec fn spec_seeded_pebble(p: PebbleV, v: ValueV, now: u128) -> PebbleV {
    match spec_scalar_of(v) {
        Some(n) => spec_pebble_append(p, spec_num_f64_bits(n), now / p.bucket_size_nanos),
        None => p,
    }
}

impl GravelValue {
    /// Applies the clear-mode conversion at family construction, seeding a
    /// fresh pebble from the clock.
    pub fn convert_with_clearmode(self, clearmode: ClearMode, now_nanos: u128) -> (r: GravelValue)
        ensures
            r@ == spec_convert_with_clearmode(self@, clearmode, now_nanos),
            (self@ matches ValueV::Pebble(p) && p.wf() ==> (r@ matches ValueV::Pebble(
                q,
            ) ==> q.wf())),
            (clearmode matches ClearMode::Sum(d) ==> (r@ matches ValueV::Pebble(q) && q.wf())),
            (clearmode matches ClearMode::Mean(d) ==> (r@ matches ValueV::Pebble(q) && q.wf())),
    {
        match clearmode {
            ClearMode::Sum(d) => GravelValue::Pebble(
                seed_pebble(TimePebble::new(d, 100, MergeStrategy::Sum), &self, now_nanos),
            ),
            ClearMode::Mean(d) => GravelValue::Pebble(
                seed_pebble(TimePebble::new(d, 100, MergeStrategy::Mean), &self, now_nanos),
            ),
            _ => self,
        }
    }
}

/// Seeds a fresh pebble with the converted value's scalar, when it has one.
fn seed_pebble(p: TimePebble, v: &GravelValue, now_nanos: u128) -> (r: TimePebble)
    requires
        p@.wf(),
    ensures
        r@ == spec_seeded_pebble(p@, v@, now_nanos),
        r@.wf(),
{
    let mut p = p;
    match v {
        GravelValue::Unknown(n) => p.append_with_timestamp(n.as_f64_bits(), now_nanos),
        GravelValue::Gauge(n) => p.append_with_timestamp(n.as_f64_bits(), now_nanos),
        GravelValue::Counter(c) => p.append_with_timestamp(c.value.as_f64_bits(), now_nanos),
        _ => {
        },
    }
    p
}

} // verus!
