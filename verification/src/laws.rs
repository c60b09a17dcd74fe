//! The algebra's laws, stated and proved once over the specification
//! functions the executable contracts use.

use vstd::prelude::*;
use crate::clearmode::ClearMode;
use crate::family::{
    clearmode_bytes, family_ok, spec_apply_family, spec_clean_family, spec_wants_family_clear,
    FamilyV,
};
use crate::labels::{names_of, spec_has_label, spec_has_name};
use crate::num::{float_lt_bits, GravelNumber};
use crate::value::{spec_merge_buckets, spec_merge_value, Bucket, ValueV};
use openmetrics_parser::Exemplar;

verus! {

/// A sequence of incoming values folded into a stored one, first value
/// first, under one clear mode.
pub open spec fn spec_fold_merge(a: ValueV, bs: Seq<ValueV>, m: ClearMode, t: u128) -> Option<
    ValueV,
>
    decreases bs.len(),
{
    if bs.len() == 0 {
        Some(a)
    } else {
        match spec_merge_value(a, bs[0], m, t) {
            Some(a2) => spec_fold_merge(a2, bs.drop_first(), m, t),
            None => None,
        }
    }
}

/// The sum of a sequence of integers.
pub open spec fn spec_sum(vs: Seq<i64>) -> int
    decreases vs.len(),
{
    if vs.len() == 0 {
        0
    } else {
        vs[0] + spec_sum(vs.drop_first())
    }
}

/// Whether every running sum starting from `acc` stays within 64 bits.
pub open spec fn spec_sums_in_range(acc: int, vs: Seq<i64>) -> bool
    decreases vs.len(),
{
    if vs.len() == 0 {
        true
    } else {
        &&& i64::MIN <= acc + vs[0] <= i64::MAX
        &&& spec_sums_in_range(acc + vs[0], vs.drop_first())
    }
}

/// Whether a value is an integer counter holding `v`.
pub open spec fn spec_is_int_counter(x: ValueV, v: i64) -> bool {
    match x {
        ValueV::Counter { value, exemplar } => value == GravelNumber::Int(v),
        _ => false,
    }
}

/// Counter monotonicity under `aggregate`: folding integer counter pushes
/// v1..vn into a stored integer counter leaves the sum of all of them, as
/// long as no running sum leaves 64 bits.
pub proof fn lemma_counter_aggregate_sum(
    v0: i64,
    e0: Option<Exemplar>,
    bs: Seq<ValueV>,
    vs: Seq<i64>,
    t: u128,
)
    requires
        bs.len() == vs.len(),
        forall|i: int| 0 <= i < bs.len() ==> spec_is_int_counter(#[trigger] bs[i], vs[i]),
        spec_sums_in_range(v0 as int, vs),
    ensures
        spec_fold_merge(
            ValueV::Counter { value: GravelNumber::Int(v0), exemplar: e0 },
            bs,
            ClearMode::Aggregate,
            t,
        ) matches Some(r) && (match r {
            ValueV::Counter { value, exemplar } => value == GravelNumber::Int(
                (v0 + spec_sum(vs)) as i64,
            ),
            _ => false,
        }),
    decreases bs.len(),
{
    if bs.len() == 0 {
    } else {
        let a = ValueV::Counter { value: GravelNumber::Int(v0), exemplar: e0 };
        assert(spec_is_int_counter(bs[0], vs[0]));
        let e1 = match bs[0] {
            ValueV::Counter { value, exemplar } => exemplar,
            _ => e0,
        };
        let v1 = (v0 + vs[0]) as i64;
        assert(spec_merge_value(a, bs[0], ClearMode::Aggregate, t) == Some(
            ValueV::Counter { value: GravelNumber::Int(v1), exemplar: e1 },
        ));
        assert(forall|i: int|
            0 <= i < bs.drop_first().len() ==> #[trigger] bs.drop_first()[i] == bs[i + 1]
                && vs.drop_first()[i] == vs[i + 1]);
        lemma_counter_aggregate_sum(v1, e1, bs.drop_first(), vs.drop_first(), t);
        assert(v1 + spec_sum(vs.drop_first()) == v0 + spec_sum(vs));
    }
}

/// Gauge replacement: folding gauge pushes under `replace` stores exactly
/// the value pushed last.
pub proof fn lemma_gauge_replace(g0: GravelNumber, bs: Seq<ValueV>, t: u128)
    requires
        bs.len() >= 1,
        forall|i: int| 0 <= i < bs.len() ==> (#[trigger] bs[i]) is Gauge,
    ensures
        spec_fold_merge(ValueV::Gauge(g0), bs, ClearMode::Replace, t) == Some(bs.last()),
    decreases bs.len(),
{
    assert(bs[0] is Gauge);
    let g1 = match bs[0] {
        ValueV::Gauge(g) => g,
        _ => g0,
    };
    assert(spec_merge_value(ValueV::Gauge(g0), bs[0], ClearMode::Replace, t) == Some(
        ValueV::Gauge(g1),
    ));
    if bs.len() == 1 {
        assert(bs.last() == bs[0]);
        assert(ValueV::Gauge(g1) == bs[0]);
    } else {
        assert(forall|i: int|
            0 <= i < bs.drop_first().len() ==> #[trigger] bs.drop_first()[i] == bs[i + 1]);
        lemma_gauge_replace(g1, bs.drop_first(), t);
        assert(bs.drop_first().last() == bs.last());
    }
}

/// Whether a value is a histogram, and whether its sum is absent.
pub open spec fn spec_is_hist(x: ValueV) -> bool {
    x is Histogram
}

pub open spec fn spec_hist_sum_none(x: ValueV) -> bool {
    match x {
        ValueV::Histogram { sum, count, created, buckets } => sum is None,
        _ => false,
    }
}

/// Once a stored histogram's sum is absent, aggregating keeps it absent.
pub proof fn lemma_hist_fold_keeps_none(a: ValueV, bs: Seq<ValueV>, t: u128)
    requires
        spec_hist_sum_none(a),
        forall|i: int| 0 <= i < bs.len() ==> spec_is_hist(#[trigger] bs[i]),
        spec_fold_merge(a, bs, ClearMode::Aggregate, t) is Some,
    ensures
        spec_hist_sum_none(spec_fold_merge(a, bs, ClearMode::Aggregate, t).unwrap()),
    decreases bs.len(),
{
    if bs.len() > 0 {
        let a2 = spec_merge_value(a, bs[0], ClearMode::Aggregate, t).unwrap();
        assert(spec_hist_sum_none(a2));
        assert(forall|i: int|
            0 <= i < bs.drop_first().len() ==> #[trigger] bs.drop_first()[i] == bs[i + 1]);
        lemma_hist_fold_keeps_none(a2, bs.drop_first(), t);
    }
}

/// Histogram sum presence: if any push in an aggregated sequence lacks a
/// sum (or the stored histogram already lacks one), the aggregate's sum is
/// absent.
pub proof fn lemma_hist_sum_presence(a: ValueV, bs: Seq<ValueV>, t: u128)
    requires
        spec_is_hist(a),
        forall|i: int| 0 <= i < bs.len() ==> spec_is_hist(#[trigger] bs[i]),
        spec_hist_sum_none(a) || exists|i: int|
            0 <= i < bs.len() && spec_hist_sum_none(#[trigger] bs[i]),
        spec_fold_merge(a, bs, ClearMode::Aggregate, t) is Some,
    ensures
        spec_hist_sum_none(spec_fold_merge(a, bs, ClearMode::Aggregate, t).unwrap()),
    decreases bs.len(),
{
    if spec_hist_sum_none(a) {
        lemma_hist_fold_keeps_none(a, bs, t);
    } else {
        let w = choose|i: int| 0 <= i < bs.len() && spec_hist_sum_none(#[trigger] bs[i]);
        let a2 = spec_merge_value(a, bs[0], ClearMode::Aggregate, t).unwrap();
        assert(spec_is_hist(a2));
        assert(forall|i: int|
            0 <= i < bs.drop_first().len() ==> #[trigger] bs.drop_first()[i] == bs[i + 1]);
        if w == 0 {
            assert(spec_hist_sum_none(a2));
            lemma_hist_fold_keeps_none(a2, bs.drop_first(), t);
        } else {
            assert(spec_hist_sum_none(bs.drop_first()[w - 1]));
            lemma_hist_sum_presence(a2, bs.drop_first(), t);
        }
    }
}

/// The integer a scalar holds, zero for a double.
pub open spec fn spec_int_of(n: GravelNumber) -> int {
    match n {
        GravelNumber::Int(i) => i as int,
        GravelNumber::Float(_) => 0,
    }
}

/// Whether three bucket lists walk in lockstep: the same bounds in the same
/// places, `<` failing on a bound against itself, integer counts, and all
/// their partial sums within 64 bits.
pub open spec fn spec_zip_ok(a: Seq<Bucket>, b: Seq<Bucket>, c: Seq<Bucket>) -> bool {
    &&& a.len() == b.len()
    &&& b.len() == c.len()
    &&& forall|i: int|
        0 <= i < a.len() ==> {
            let ub = (#[trigger] a[i]).upper_bound;
            &&& b[i].upper_bound == ub
            &&& c[i].upper_bound == ub
            &&& !float_lt_bits(ub, ub)
            &&& a[i].count is Int
            &&& b[i].count is Int
            &&& c[i].count is Int
            &&& i64::MIN <= spec_int_of(a[i].count) + spec_int_of(b[i].count) <= i64::MAX
            &&& i64::MIN <= spec_int_of(b[i].count) + spec_int_of(c[i].count) <= i64::MAX
            &&& i64::MIN <= spec_int_of(a[i].count) + spec_int_of(b[i].count) + spec_int_of(
                c[i].count,
            ) <= i64::MAX
        }
}

/// Bucket merge associativity over identical bound sets: merging (A, B)
/// then C equals merging A then (B merged into C), for integer counts whose
/// sums stay within 64 bits.
pub proof fn lemma_bucket_merge_assoc(a: Seq<Bucket>, b: Seq<Bucket>, c: Seq<Bucket>)
    requires
        spec_zip_ok(a, b, c),
    ensures
        spec_merge_buckets(spec_merge_buckets(a, b), c) == spec_merge_buckets(
            a,
            spec_merge_buckets(b, c),
        ),
    decreases a.len(),
{
    if a.len() == 0 {
        assert(spec_merge_buckets(a, b) == b);
        assert(spec_merge_buckets(b, c) == c);
    } else {
        let ub = a[0].upper_bound;
        let ab = Bucket {
            count: crate::num::spec_num_add(a[0].count, b[0].count),
            upper_bound: ub,
            exemplar: b[0].exemplar,
        };
        let bc = Bucket {
            count: crate::num::spec_num_add(b[0].count, c[0].count),
            upper_bound: ub,
            exemplar: c[0].exemplar,
        };
        let abc = Bucket {
            count: GravelNumber::Int(
                (spec_int_of(a[0].count) + spec_int_of(b[0].count) + spec_int_of(
                    c[0].count,
                )) as i64,
            ),
            upper_bound: ub,
            exemplar: c[0].exemplar,
        };
        assert(spec_merge_buckets(a, b) == seq![ab] + spec_merge_buckets(
            a.drop_first(),
            b.drop_first(),
        ));
        assert(spec_merge_buckets(b, c) == seq![bc] + spec_merge_buckets(
            b.drop_first(),
            c.drop_first(),
        ));
        assert(forall|i: int|
            0 <= i < a.drop_first().len() ==> #[trigger] a.drop_first()[i] == a[i + 1]
                && b.drop_first()[i] == b[i + 1] && c.drop_first()[i] == c[i + 1]);
        lemma_bucket_merge_assoc(a.drop_first(), b.drop_first(), c.drop_first());
        let mab = spec_merge_buckets(a.drop_first(), b.drop_first());
        let mbc = spec_merge_buckets(b.drop_first(), c.drop_first());
        lemma_zip_merge_shape(a.drop_first(), b.drop_first());
        lemma_zip_merge_shape(b.drop_first(), c.drop_first());
        assert((seq![ab] + mab)[0] == ab);
        assert((seq![bc] + mbc)[0] == bc);
        assert((seq![ab] + mab).drop_first() =~= mab);
        assert((seq![bc] + mbc).drop_first() =~= mbc);
        assert(spec_num_add_int(ab.count, c[0].count) == abc.count);
        assert(spec_num_add_int(a[0].count, bc.count) == abc.count);
        assert(spec_merge_buckets(seq![ab] + mab, c) == seq![abc] + spec_merge_buckets(mab, c.drop_first()));
        assert(spec_merge_buckets(a, seq![bc] + mbc) == seq![abc] + spec_merge_buckets(a.drop_first(), mbc));
    }
}

/// Integer scalar addition, written out.
pub open spec fn spec_num_add_int(x: GravelNumber, y: GravelNumber) -> GravelNumber {
    crate::num::spec_num_add(x, y)
}

/// Merging lockstep lists keeps length and bounds.
proof fn lemma_zip_merge_shape(a: Seq<Bucket>, b: Seq<Bucket>)
    requires
        a.len() == b.len(),
        forall|i: int|
            0 <= i < a.len() ==> (#[trigger] b[i]).upper_bound == a[i].upper_bound
                && !float_lt_bits(a[i].upper_bound, a[i].upper_bound),
    ensures
        spec_merge_buckets(a, b).len() == a.len(),
        forall|i: int|
            0 <= i < a.len() ==> (#[trigger] spec_merge_buckets(a, b)[i]).upper_bound == a[
                i
            ].upper_bound,
    decreases a.len(),
{
    if a.len() > 0 {
        assert(forall|i: int|
            0 <= i < a.drop_first().len() ==> #[trigger] a.drop_first()[i] == a[i + 1]
                && b.drop_first()[i] == b[i + 1]);
        lemma_zip_merge_shape(a.drop_first(), b.drop_first());
        let m = spec_merge_buckets(a.drop_first(), b.drop_first());
        let h = Bucket {
            count: crate::num::spec_num_add(a[0].count, b[0].count),
            upper_bound: a[0].upper_bound,
            exemplar: b[0].exemplar,
        };
        assert(spec_merge_buckets(a, b) == seq![h] + m);
        assert(forall|i: int|
            1 <= i < a.len() ==> (#[trigger] (seq![h] + m)[i]) == m[i - 1]);
    }
}

/// No stored sample carries the control label: a family fit for the store
/// has it stripped everywhere, so no scrape can return it.
pub proof fn lemma_no_clearmode_label(f: FamilyV, i: int)
    requires
        family_ok(f),
        0 <= i < f.samples.len(),
    ensures
        !spec_has_label(f.samples[i].labels, clearmode_bytes()),
{
    reveal(family_ok);
    if spec_has_label(f.samples[i].labels, clearmode_bytes()) {
        let j = choose|j: int|
            0 <= j < f.samples[i].labels.len() && f.samples[i].labels[j].name
                == clearmode_bytes();
        assert(names_of(f.samples[i].labels)[j] == clearmode_bytes());
        assert(f.label_names[j] == clearmode_bytes());
        assert(spec_has_name(f.label_names, clearmode_bytes()));
    }
}

/// Family-reset idempotence: a push that resets the family, pushed again,
/// leaves the same stored family — and so the same rendered text, which is
/// a function of the stored state.
pub proof fn lemma_family_reset_idempotent(a: FamilyV, b: FamilyV, t1: u128, t2: u128)
    requires
        spec_wants_family_clear(b.kind, b.samples),
        spec_apply_family(a, b, t1).1,
    ensures
        spec_apply_family(a, b, t1).0 == spec_clean_family(b),
        spec_apply_family(spec_apply_family(a, b, t1).0, b, t2) == (spec_clean_family(b), true),
{
    let c = spec_clean_family(b);
    assert(spec_apply_family(a, b, t1).0 == c);
    assert(c.name == b.name && c.kind == b.kind);
}

} // verus!
