//! Rendering the stored state back into Prometheus text exposition format.
//!
//! The specifications are over character sequences.  Doubles are printed by
//! the machine's formatter behind a trusted wrapper whose result is named;
//! the special values render as `+Inf`, `-Inf` and `NaN`.

use vstd::prelude::*;
use vstd::utf8::decode_utf8;
use core::primitive::f64 as Binary64;
use crate::labels::{Label, LabelV};
use crate::num::GravelNumber;
use crate::pebble::spec_pebble_aggregate;
use crate::value::{Bucket, GravelValue, MetricKind, SummaryQuantile, GravelSample, GravelSampleV, ValueV};
use crate::family::FamilyV;
use openmetrics_parser::Exemplar;

verus! {

pub uninterp spec fn float_str_of(b: u64) -> Seq<char>;

/// Relies on `f64`'s `Display`: the text depends on the bit pattern alone.
#[verifier::external_body]
fn f64_display(b: u64) -> (r: String)
    ensures
        r@ == float_str_of(b),
{
    format!("{}", Binary64::from_bits(b))
}

/// Relies on the upstream exemplar rendering.  The text walks a hash map,
/// so nothing is promised of it.
#[verifier::external_body]
fn exemplar_text(e: &Exemplar) -> String {
    format!("{}", e)
}

/// The bit pattern of positive infinity.
pub const F64_INF_BITS: u64 = 0x7FF0000000000000;

/// The bit pattern of negative infinity.
pub const F64_NEG_INF_BITS: u64 = 0xFFF0000000000000;

/// Whether a bit pattern encodes a NaN.
pub open spec fn spec_is_nan_bits(b: u64) -> bool {
    (b >> 52) & 0x7FF == 0x7FF && b & 0xFFFFFFFFFFFFF != 0
}

/// The text of a double: the special values by name, anything else as the
/// machine formats it.
pub open spec fn spec_float_text(b: u64) -> Seq<char> {
    if b == F64_NEG_INF_BITS {
        "-Inf"@
    } else if b == F64_INF_BITS {
        "+Inf"@
    } else if spec_is_nan_bits(b) {
        "NaN"@
    } else {
        float_str_of(b)
    }
}

/// The decimal text of a number that is at least zero.
pub open spec fn spec_dec_nat(n: int) -> Seq<char>
    decreases n,
{
    if n < 10 {
        seq![spec_digit_char(n)]
    } else {
        spec_dec_nat(n / 10) + seq![spec_digit_char(n % 10)]
    }
}

/// The character of one decimal digit.
pub open spec fn spec_digit_char(d: int) -> char {
    if d == 0 {
        '0'
    } else if d == 1 {
        '1'
    } else if d == 2 {
        '2'
    } else if d == 3 {
        '3'
    } else if d == 4 {
        '4'
    } else if d == 5 {
        '5'
    } else if d == 6 {
        '6'
    } else if d == 7 {
        '7'
    } else if d == 8 {
        '8'
    } else {
        '9'
    }
}

/// The decimal text of a signed integer.
pub open spec fn spec_dec_i64(i: int) -> Seq<char> {
    if i < 0 {
        seq!['-'] + spec_dec_nat(-i)
    } else {
        spec_dec_nat(i)
    }
}

/// The text of a metric scalar.
pub open spec fn spec_num_text(n: GravelNumber) -> Seq<char> {
    match n {
        GravelNumber::Int(i) => spec_dec_i64(i as int),
        GravelNumber::Float(b) => spec_float_text(b),
    }
}

/// The ` <timestamp>` suffix of a sample line, empty when there is none.
pub open spec fn spec_ts_suffix(ts: Option<u64>) -> Seq<char> {
    match ts {
        Some(t) => seq![' '] + spec_float_text(t),
        None => Seq::<char>::empty(),
    }
}

/// The text of one `name="value"` pair.
pub open spec fn spec_pair_text(p: (Seq<char>, Seq<char>)) -> Seq<char> {
    p.0 + "=\""@ + p.1 + "\""@
}

/// The pairs joined with commas.
pub open spec fn spec_pairs_join(ps: Seq<(Seq<char>, Seq<char>)>) -> Seq<char>
    decreases ps.len(),
{
    if ps.len() == 0 {
        Seq::<char>::empty()
    } else if ps.len() == 1 {
        spec_pair_text(ps[0])
    } else {
        spec_pair_text(ps[0]) + seq![','] + spec_pairs_join(ps.drop_first())
    }
}

/// The `{...}` label block, or nothing when there are no pairs.
pub open spec fn spec_labels_text(ps: Seq<(Seq<char>, Seq<char>)>) -> Seq<char> {
    if ps.len() == 0 {
        Seq::<char>::empty()
    } else {
        seq!['{'] + spec_pairs_join(ps) + seq!['}']
    }
}

/// The character pairs of a label sequence.
pub open spec fn spec_label_pairs(ls: Seq<LabelV>) -> Seq<(Seq<char>, Seq<char>)> {
    ls.map_values(|l: LabelV| (decode_utf8(l.name), decode_utf8(l.value)))
}

/// The character pairs of owned string pairs.
pub open spec fn spec_string_pairs(ps: Seq<(String, String)>) -> Seq<(Seq<char>, Seq<char>)> {
    ps.map_values(|p: (String, String)| (p.0@, p.1@))
}

/// The text of one sample's value lines, under the sample's labels.  The
/// exemplars are taken absent; rendering with exemplars present is not
/// specified.
pub open spec fn spec_sample_text(name: Seq<char>, s: GravelSampleV) -> Seq<char> {
    let labels = spec_labels_text(spec_label_pairs(s.labels));
    let ts = spec_ts_suffix(s.timestamp);
    match s.value {
        ValueV::Unknown(n) => name + labels + seq![' '] + spec_num_text(n) + ts + "\n"@,
        ValueV::Gauge(n) => name + labels + seq![' '] + spec_num_text(n) + ts + "\n"@,
        ValueV::Counter { value, exemplar } => name + labels + seq![' '] + spec_num_text(value)
            + ts + "\n"@,
        ValueV::Histogram { sum, count, created, buckets } => spec_buckets_text(
            name,
            s.labels,
            buckets,
        ) + (match sum {
            Some(x) => name + "_sum"@ + labels + seq![' '] + spec_num_text(x) + "\n"@,
            None => Seq::<char>::empty(),
        }) + (match count {
            Some(c) => name + "_count"@ + labels + seq![' '] + spec_dec_nat(c as int) + "\n"@,
            None => Seq::<char>::empty(),
        }) + (match created {
            Some(c) => name + "_created"@ + labels + seq![' '] + float_str_of(c) + "\n"@,
            None => Seq::<char>::empty(),
        }),
        ValueV::Summary { sum, count, created, quantiles } => spec_quantiles_text(
            name,
            s.labels,
            quantiles,
        ) + (match sum {
            Some(x) => name + "_sum"@ + labels + seq![' '] + spec_num_text(x) + "\n"@,
            None => Seq::<char>::empty(),
        }) + (match count {
            Some(c) => name + "_count"@ + labels + seq![' '] + spec_dec_nat(c as int) + "\n"@,
            None => Seq::<char>::empty(),
        }) + (match created {
            Some(c) => name + "_created"@ + labels + seq![' '] + float_str_of(c) + "\n"@,
            None => Seq::<char>::empty(),
        }),
        ValueV::Pebble(p) => name + labels + seq![' '] + spec_float_text(spec_pebble_aggregate(p))
            + ts + "\n"@,
    }
}

/// The bucket lines of a histogram.
pub open spec fn spec_buckets_text(name: Seq<char>, ls: Seq<LabelV>, bs: Seq<Bucket>) -> Seq<char>
    decreases bs.len(),
{
    if bs.len() == 0 {
        Seq::<char>::empty()
    } else {
        name + "_bucket"@ + spec_labels_text(
            spec_label_pairs(ls).push(("le"@, spec_float_text(bs[0].upper_bound))),
        ) + seq![' '] + spec_num_text(bs[0].count) + "\n"@ + spec_buckets_text(
            name,
            ls,
            bs.drop_first(),
        )
    }
}

/// The quantile lines of a summary.
pub open spec fn spec_quantiles_text(name: Seq<char>, ls: Seq<LabelV>, qs: Seq<SummaryQuantile>) -> Seq<
    char,
>
    decreases qs.len(),
{
    if qs.len() == 0 {
        Seq::<char>::empty()
    } else {
        name + spec_labels_text(
            spec_label_pairs(ls).push(("quantile"@, spec_float_text(qs[0].quantile))),
        ) + seq![' '] + spec_num_text(qs[0].value) + "\n"@ + spec_quantiles_text(
            name,
            ls,
            qs.drop_first(),
        )
    }
}

/// The text of a metric kind.
pub open spec fn spec_kind_text(k: MetricKind) -> Seq<char> {
    match k {
        MetricKind::Counter => "counter"@,
        MetricKind::Gauge => "gauge"@,
        MetricKind::Histogram => "histogram"@,
        MetricKind::Summary => "summary"@,
        MetricKind::Unknown => "unknown"@,
    }
}

/// The sample lines of a family, in order.
pub open spec fn spec_samples_text(name: Seq<char>, ss: Seq<GravelSampleV>) -> Seq<char>
    decreases ss.len(),
{
    if ss.len() == 0 {
        Seq::<char>::empty()
    } else {
        spec_sample_text(name, ss[0]) + spec_samples_text(name, ss.drop_first())
    }
}

/// The text of a whole family: a HELP line when the help text is not empty,
/// a TYPE line when the kind is known, a UNIT line when the unit is not
/// empty, then every sample.
pub open spec fn spec_family_text(f: FamilyV) -> Seq<char> {
    let name = decode_utf8(f.name);
    let help = decode_utf8(f.help);
    let unit = decode_utf8(f.unit);
    (if help.len() > 0 {
        "# HELP "@ + name + " "@ + help + "\n"@
    } else {
        Seq::<char>::empty()
    }) + (if f.kind != MetricKind::Unknown {
        "# TYPE "@ + name + " "@ + spec_kind_text(f.kind) + "\n"@
    } else {
        Seq::<char>::empty()
    }) + (if unit.len() > 0 {
        "# UNIT "@ + name + " "@ + unit + "\n"@
    } else {
        Seq::<char>::empty()
    }) + spec_samples_text(name, f.samples)
}

/// Whether a value carries no exemplar.
pub open spec fn spec_value_no_exemplar(v: ValueV) -> bool {
    match v {
        ValueV::Counter { value, exemplar } => exemplar is None,
        ValueV::Histogram { sum, count, created, buckets } => forall|i: int|
            0 <= i < buckets.len() ==> (#[trigger] buckets[i]).exemplar is None,
        _ => true,
    }
}

/// Whether no sample of a family carries an exemplar.
pub open spec fn spec_family_no_exemplars(f: FamilyV) -> bool {
    forall|i: int| 0 <= i < f.samples.len() ==> spec_value_no_exemplar((#[trigger] f.samples[i]).value)
}

/// Appends the decimal text of `n`.
fn push_dec_u64(out: &mut String, n: u64)
    ensures
        final(out)@ == old(out)@ + spec_dec_nat(n as int),
    decreases n,
{
    if n < 10 {
        push_digit(out, (n % 10) as u8);
    } else {
        push_dec_u64(out, n / 10);
        push_digit(out, (n % 10) as u8);
    }
}

/// Appends one decimal digit.
fn push_digit(out: &mut String, d: u8)
    requires
        d < 10,
    ensures
        final(out)@ == old(out)@ + seq![spec_digit_char(d as int)],
{
    let piece: &str = match d {
        0 => "0",
        1 => "1",
        2 => "2",
        3 => "3",
        4 => "4",
        5 => "5",
        6 => "6",
        7 => "7",
        8 => "8",
        _ => "9",
    };
    proof {
        reveal_strlit("0");
        reveal_strlit("1");
        reveal_strlit("2");
        reveal_strlit("3");
        reveal_strlit("4");
        reveal_strlit("5");
        reveal_strlit("6");
        reveal_strlit("7");
        reveal_strlit("8");
        reveal_strlit("9");
    }
    out.append(piece);
}

/// Appends the decimal text of a signed integer.
fn push_dec_i64(out: &mut String, i: i64)
    ensures
        final(out)@ == old(out)@ + spec_dec_i64(i as int),
{
    if i < 0 {
        out.append("-");
        proof {
            reveal_strlit("-");
        }
        let mag: u64 = ((-(i + 1)) as u64) + 1;
        push_dec_u64(out, mag);
    } else {
        push_dec_u64(out, i as u64);
    }
}

/// Appends the text of a double, special values by name.
fn push_float(out: &mut String, b: u64)
    ensures
        final(out)@ == old(out)@ + spec_float_text(b),
{
    if b == 0xFFF0000000000000 {
        out.append("-Inf");
    } else if b == 0x7FF0000000000000 {
        out.append("+Inf");
    } else if (b >> 52) & 0x7FF == 0x7FF && b & 0xFFFFFFFFFFFFF != 0 {
        out.append("NaN");
    } else {
        let s = f64_display(b);
        out.append(s.as_str());
    }
}

/// Appends the text of a metric scalar.
fn push_num(out: &mut String, n: &GravelNumber)
    ensures
        final(out)@ == old(out)@ + spec_num_text(*n),
{
    match n {
        GravelNumber::Int(i) => push_dec_i64(out, *i),
        GravelNumber::Float(b) => push_float(out, *b),
    }
}

/// Appends the timestamp suffix, if there is one.
fn push_ts(out: &mut String, ts: &Option<u64>)
    ensures
        final(out)@ == old(out)@ + spec_ts_suffix(*ts),
{
    match ts {
        Some(t) => {
            out.append(" ");
            proof {
                reveal_strlit(" ");
            }
            push_float(out, *t);
        },
        None => {
        },
    }
}

/// Appends the `{...}` label block of the given pairs.
fn push_labels_block(out: &mut String, ps: &Vec<(String, String)>)
    ensures
        final(out)@ == old(out)@ + spec_labels_text(spec_string_pairs(ps@)),
{
    let ghost psv = spec_string_pairs(ps@);
    let n = ps.len();
    if n == 0 {
        return ;
    }
    proof {
        reveal_strlit("{");
        reveal_strlit("}");
        reveal_strlit(",");
        reveal_strlit("=\"");
        reveal_strlit("\"");
    }
    out.append("{");
    proof {
        assert(out@ =~= old(out)@ + seq!['{'] + spec_pairs_join(psv.take(0))
            + Seq::<char>::empty());
    }
    let mut i: usize = 0;
    while i < n
        invariant
            0 <= i <= n,
            n == ps.len(),
            n >= 1,
            psv == spec_string_pairs(ps@),
            psv.len() == n,
            out@ == old(out)@ + seq!['{'] + spec_pairs_join(psv.take(i as int)) + (if 0 < i < n {
                seq![',']
            } else {
                Seq::<char>::empty()
            }),
        decreases n - i,
    {
        proof {
            reveal_strlit("{");
            reveal_strlit(",");
            reveal_strlit("=\"");
            reveal_strlit("\"");
            assert(psv[i as int] == (ps@[i as int].0@, ps@[i as int].1@));
        }
        out.append(ps[i].0.as_str());
        out.append("=\"");
        out.append(ps[i].1.as_str());
        out.append("\"");
        if i + 1 < n {
            out.append(",");
        }
        proof {
            lemma_pairs_join_snoc(psv, i as int);
            if i + 1 < n {
                assert(out@ =~= old(out)@ + seq!['{'] + spec_pairs_join(psv.take(i + 1)) + seq![
                    ',',
                ]);
            } else {
                assert(out@ =~= old(out)@ + seq!['{'] + spec_pairs_join(psv.take(i + 1)));
            }
        }
        i = i + 1;
    }
    out.append("}");
    proof {
        reveal_strlit("}");
        assert(psv.take(n as int) =~= psv);
        assert(out@ =~= old(out)@ + spec_labels_text(psv));
    }
}

/// Extending the joined prefix by one pair.
proof fn lemma_pairs_join_snoc(ps: Seq<(Seq<char>, Seq<char>)>, i: int)
    requires
        0 <= i < ps.len(),
    ensures
        spec_pairs_join(ps.take(i + 1)) =~= (if i == 0 {
            spec_pair_text(ps[0])
        } else {
            spec_pairs_join(ps.take(i as int)) + seq![','] + spec_pair_text(ps[i])
        }),
    decreases i,
{
    if i == 0 {
        assert(ps.take(1) =~= seq![ps[0]]);
    } else {
        let q = ps.drop_first();
        lemma_pairs_join_snoc(q, i - 1);
        assert(q.take(i as int) =~= ps.take(i + 1).drop_first());
        assert(q.take(i - 1) =~= ps.take(i as int).drop_first());
        assert(q[i - 1] == ps[i]);
        assert(ps.take(i + 1)[0] == ps[0]);
        assert(ps.take(i as int)[0] == ps[0]);
        assert(ps.take(i + 1).len() == i + 1);
        assert(spec_pairs_join(ps.take(i + 1)) == spec_pair_text(ps[0]) + seq![',']
            + spec_pairs_join(q.take(i as int)));
        if i == 1 {
            assert(spec_pairs_join(ps.take(1)) == spec_pair_text(ps[0]));
            assert(q.take(1) =~= seq![q[0]]);
            assert(spec_pairs_join(q.take(1)) == spec_pair_text(q[0]));
            assert(spec_pairs_join(ps.take(2)) =~= spec_pairs_join(ps.take(1)) + seq![',']
                + spec_pair_text(ps[1]));
        } else {
            assert(spec_pairs_join(ps.take(i as int)) == spec_pair_text(ps[0]) + seq![',']
                + spec_pairs_join(q.take(i - 1)));
            assert(spec_pairs_join(ps.take(i + 1)) =~= spec_pairs_join(ps.take(i as int)) + seq![
                ',',
            ] + spec_pair_text(ps[i]));
        }
    }
}

/// The label block of a sample, with an optional extra pair at the end.
fn push_sample_labels(out: &mut String, ls: &Vec<Label>, extra: Option<(&str, &String)>)
    ensures
        final(out)@ == old(out)@ + spec_labels_text(
            match extra {
                Some(p) => spec_label_pairs(ls.deep_view()).push((p.0@, p.1@)),
                None => spec_label_pairs(ls.deep_view()),
            },
        ),
{
    let mut ps = label_pairs(ls);
    match extra {
        Some((n, v)) => {
            ps.push((String::from_str(n), v.clone()));
            proof {
                assert(spec_string_pairs(ps@) =~= spec_label_pairs(ls.deep_view()).push(
                    (n@, v@),
                ));
            }
        },
        None => {
        },
    }
    push_labels_block(out, &ps);
}

/// The sum, count and created tail lines shared by histograms and
/// summaries.
#[verifier::rlimit(100)]
#[verifier::spinoff_prover]
fn push_value_tail(
    out: &mut String,
    name: &String,
    ls: &Vec<Label>,
    sum: &Option<GravelNumber>,
    count: &Option<u64>,
    created: &Option<u64>,
)
    ensures
        final(out)@ == old(out)@ + (match *sum {
            Some(x) => name@ + "_sum"@ + spec_labels_text(spec_label_pairs(ls.deep_view()))
                + seq![' '] + spec_num_text(x) + "\n"@,
            None => Seq::<char>::empty(),
        }) + (match *count {
            Some(c) => name@ + "_count"@ + spec_labels_text(spec_label_pairs(ls.deep_view()))
                + seq![' '] + spec_dec_nat(c as int) + "\n"@,
            None => Seq::<char>::empty(),
        }) + (match *created {
            Some(c) => name@ + "_created"@ + spec_labels_text(spec_label_pairs(ls.deep_view()))
                + seq![' '] + float_str_of(c) + "\n"@,
            None => Seq::<char>::empty(),
        }),
{
    proof {
        reveal_strlit(" ");
        reveal_strlit("\n");
        reveal_strlit("_sum");
        reveal_strlit("_count");
        reveal_strlit("_created");
    }
    match sum {
        Some(x) => {
            out.append(name.as_str());
            out.append("_sum");
            push_sample_labels(out, ls, None);
            out.append(" ");
            push_num(out, x);
            out.append("\n");
        },
        None => {
        },
    }
    match count {
        Some(c) => {
            out.append(name.as_str());
            out.append("_count");
            push_sample_labels(out, ls, None);
            out.append(" ");
            push_dec_u64(out, *c);
            out.append("\n");
        },
        None => {
        },
    }
    match created {
        Some(c) => {
            out.append(name.as_str());
            out.append("_created");
            push_sample_labels(out, ls, None);
            out.append(" ");
            let txt = f64_display(*c);
            out.append(txt.as_str());
            out.append("\n");
        },
        None => {
        },
    }
}

/// The bucket lines of a histogram.  When a bucket carries an exemplar the
/// output additionally holds the upstream exemplar text, unspecified.
fn push_buckets(out: &mut String, name: &String, ls: &Vec<Label>, bs: &Vec<Bucket>)
    ensures
        (forall|k: int| 0 <= k < bs@.len() ==> (#[trigger] bs@[k]).exemplar is None)
            ==> final(out)@ == old(out)@ + spec_buckets_text(name@, ls.deep_view(), bs@),
{
    let ghost nm = name@;
    let ghost lsv = ls.deep_view();
    let ghost bsv = bs@;
    let ghost start = out@;
    let nb = bs.len();
    let mut bi: usize = 0;
    while bi < nb
        invariant
            0 <= bi <= nb,
            nb == bs.len(),
            bsv == bs@,
            lsv == ls.deep_view(),
            nm == name@,
            start == old(out)@,
            (forall|k: int| 0 <= k < bsv.len() ==> (#[trigger] bsv[k]).exemplar is None) ==> out@
                == start + spec_buckets_text(nm, lsv, bsv.take(bi as int)),
        decreases nb - bi,
    {
        proof {
            reveal_strlit(" ");
            reveal_strlit("\n");
            reveal_strlit("_bucket");
            reveal_strlit("le");
        }
        let b = &bs[bi];
        let mut ub_text = String::new();
        push_float(&mut ub_text, b.upper_bound);
        out.append(name.as_str());
        out.append("_bucket");
        push_sample_labels(out, ls, Some(("le", &ub_text)));
        out.append(" ");
        push_num(out, &b.count);
        match &b.exemplar {
            Some(e) => {
                let txt = exemplar_text(e);
                out.append(txt.as_str());
            },
            None => {
            },
        }
        out.append("\n");
        proof {
            lemma_buckets_text_snoc(nm, lsv, bsv, bi as int);
        }
        bi = bi + 1;
    }
    proof {
        assert(bsv.take(nb as int) =~= bsv);
    }
}

/// The quantile lines of a summary.
fn push_quantiles(out: &mut String, name: &String, ls: &Vec<Label>, qs: &Vec<SummaryQuantile>)
    ensures
        final(out)@ == old(out)@ + spec_quantiles_text(name@, ls.deep_view(), qs@),
{
    let ghost nm = name@;
    let ghost lsv = ls.deep_view();
    let ghost qsv = qs@;
    let ghost start = out@;
    let nq = qs.len();
    let mut qi: usize = 0;
    while qi < nq
        invariant
            0 <= qi <= nq,
            nq == qs.len(),
            qsv == qs@,
            lsv == ls.deep_view(),
            nm == name@,
            start == old(out)@,
            out@ == start + spec_quantiles_text(nm, lsv, qsv.take(qi as int)),
        decreases nq - qi,
    {
        proof {
            reveal_strlit(" ");
            reveal_strlit("\n");
            reveal_strlit("quantile");
        }
        let q = &qs[qi];
        let mut q_text = String::new();
        push_float(&mut q_text, q.quantile);
        out.append(name.as_str());
        push_sample_labels(out, ls, Some(("quantile", &q_text)));
        out.append(" ");
        push_num(out, &q.value);
        out.append("\n");
        proof {
            lemma_quantiles_text_snoc(nm, lsv, qsv, qi as int);
        }
        qi = qi + 1;
    }
    proof {
        assert(qsv.take(nq as int) =~= qsv);
    }
}

/// One plain value line: name, labels, value, optional timestamp.
#[verifier::rlimit(100)]
#[verifier::spinoff_prover]
fn push_scalar_line(out: &mut String, name: &String, ls: &Vec<Label>, n: &GravelNumber, ts: &Option<u64>)
    ensures
        final(out)@ == old(out)@ + name@ + spec_labels_text(spec_label_pairs(ls.deep_view()))
            + seq![' '] + spec_num_text(*n) + spec_ts_suffix(*ts) + "\n"@,
{
    proof {
        reveal_strlit(" ");
        reveal_strlit("\n");
    }
    out.append(name.as_str());
    push_sample_labels(out, ls, None);
    out.append(" ");
    push_num(out, n);
    push_ts(out, ts);
    out.append("\n");
}

/// One pebble line: the rolling value rendered as a gauge.
#[verifier::rlimit(100)]
#[verifier::spinoff_prover]
fn push_pebble_line(
    out: &mut String,
    name: &String,
    ls: &Vec<Label>,
    p: &crate::pebble::TimePebble,
    ts: &Option<u64>,
)
    requires
        p@.wf(),
    ensures
        final(out)@ == old(out)@ + name@ + spec_labels_text(spec_label_pairs(ls.deep_view()))
            + seq![' '] + spec_float_text(spec_pebble_aggregate(p@)) + spec_ts_suffix(*ts)
            + "\n"@,
{
    proof {
        reveal_strlit(" ");
        reveal_strlit("\n");
    }
    let v = p.aggregate();
    out.append(name.as_str());
    push_sample_labels(out, ls, None);
    out.append(" ");
    push_float(out, v);
    push_ts(out, ts);
    out.append("\n");
}

/// One sample's text lines.  When the sample carries an exemplar the output
/// additionally holds the upstream exemplar text, which is unspecified.
#[verifier::rlimit(100)]
#[verifier::spinoff_prover]
fn push_sample(out: &mut String, name: &String, s: &GravelSample)
    requires
        crate::value::spec_pebble_ok(s@.value),
    ensures
        spec_value_no_exemplar(s@.value) ==> final(out)@ == old(out)@ + spec_sample_text(
            name@,
            s@,
        ),
{
    match &s.value {
        GravelValue::Unknown(n) => {
            push_scalar_line(out, name, &s.labels, n, &s.timestamp);
        },
        GravelValue::Gauge(n) => {
            push_scalar_line(out, name, &s.labels, n, &s.timestamp);
        },
        GravelValue::Counter(c) => {
            match &c.exemplar {
                None => {
                    push_scalar_line(out, name, &s.labels, &c.value, &s.timestamp);
                },
                Some(e) => {
                    proof {
                        reveal_strlit(" ");
                        reveal_strlit("\n");
                    }
                    out.append(name.as_str());
                    push_sample_labels(out, &s.labels, None);
                    out.append(" ");
                    push_num(out, &c.value);
                    push_ts(out, &s.timestamp);
                    let txt = exemplar_text(e);
                    out.append(txt.as_str());
                    out.append("\n");
                },
            }
        },
        GravelValue::Histogram(h) => {
            push_buckets(out, name, &s.labels, &h.buckets);
            push_value_tail(out, name, &s.labels, &h.sum, &h.count, &h.created);
        },
        GravelValue::Summary(sm) => {
            push_quantiles(out, name, &s.labels, &sm.quantiles);
            push_value_tail(out, name, &s.labels, &sm.sum, &sm.count, &sm.created);
        },
        GravelValue::Pebble(p) => {
            push_pebble_line(out, name, &s.labels, p, &s.timestamp);
        },
    }
}

/// Extending the rendered bucket prefix by one bucket.
proof fn lemma_buckets_text_snoc(name: Seq<char>, ls: Seq<LabelV>, bs: Seq<Bucket>, i: int)
    requires
        0 <= i < bs.len(),
    ensures
        spec_buckets_text(name, ls, bs.take(i + 1)) =~= spec_buckets_text(name, ls, bs.take(i))
            + (name + "_bucket"@ + spec_labels_text(
            spec_label_pairs(ls).push(("le"@, spec_float_text(bs[i].upper_bound))),
        ) + seq![' '] + spec_num_text(bs[i].count) + "\n"@),
    decreases i,
{
    if i == 0 {
        assert(bs.take(1) =~= seq![bs[0]]);
        assert(bs.take(1).drop_first() =~= Seq::<Bucket>::empty());
        assert(bs.take(0) =~= Seq::<Bucket>::empty());
    } else {
        lemma_buckets_text_snoc(name, ls, bs.drop_first(), i - 1);
        assert(bs.drop_first().take(i as int) =~= bs.take(i + 1).drop_first());
        assert(bs.drop_first().take(i - 1) =~= bs.take(i as int).drop_first());
        assert(bs.drop_first()[i - 1] == bs[i]);
        assert(bs.take(i + 1)[0] == bs[0]);
        assert(bs.take(i as int)[0] == bs[0]);
    }
}

/// Extending the rendered quantile prefix by one quantile.
proof fn lemma_quantiles_text_snoc(name: Seq<char>, ls: Seq<LabelV>, qs: Seq<SummaryQuantile>, i: int)
    requires
        0 <= i < qs.len(),
    ensures
        spec_quantiles_text(name, ls, qs.take(i + 1)) =~= spec_quantiles_text(
            name,
            ls,
            qs.take(i),
        ) + (name + spec_labels_text(
            spec_label_pairs(ls).push(("quantile"@, spec_float_text(qs[i].quantile))),
        ) + seq![' '] + spec_num_text(qs[i].value) + "\n"@),
    decreases i,
{
    if i == 0 {
        assert(qs.take(1) =~= seq![qs[0]]);
        assert(qs.take(1).drop_first() =~= Seq::<SummaryQuantile>::empty());
        assert(qs.take(0) =~= Seq::<SummaryQuantile>::empty());
    } else {
        lemma_quantiles_text_snoc(name, ls, qs.drop_first(), i - 1);
        assert(qs.drop_first().take(i as int) =~= qs.take(i + 1).drop_first());
        assert(qs.drop_first().take(i - 1) =~= qs.take(i as int).drop_first());
        assert(qs.drop_first()[i - 1] == qs[i]);
        assert(qs.take(i + 1)[0] == qs[0]);
        assert(qs.take(i as int)[0] == qs[0]);
    }
}

/// Extending the rendered sample prefix by one sample.
proof fn lemma_samples_text_snoc(name: Seq<char>, ss: Seq<GravelSampleV>, i: int)
    requires
        0 <= i < ss.len(),
    ensures
        spec_samples_text(name, ss.take(i + 1)) =~= spec_samples_text(name, ss.take(i))
            + spec_sample_text(name, ss[i]),
    decreases i,
{
    if i == 0 {
        assert(ss.take(1) =~= seq![ss[0]]);
        assert(ss.take(1).drop_first() =~= Seq::<GravelSampleV>::empty());
        assert(ss.take(0) =~= Seq::<GravelSampleV>::empty());
    } else {
        lemma_samples_text_snoc(name, ss.drop_first(), i - 1);
        assert(ss.drop_first().take(i as int) =~= ss.take(i + 1).drop_first());
        assert(ss.drop_first().take(i - 1) =~= ss.take(i as int).drop_first());
        assert(ss.drop_first()[i - 1] == ss[i]);
        assert(ss.take(i + 1)[0] == ss[0]);
        assert(ss.take(i as int)[0] == ss[0]);
    }
}

/// One family's whole text: HELP, TYPE and UNIT lines as far as they are
/// set, then every sample.
#[verifier::rlimit(100)]
#[verifier::spinoff_prover]
pub fn push_family(out: &mut String, f: &crate::family::Family)
    requires
        forall|i: int|
            0 <= i < f@.samples.len() ==> crate::value::spec_pebble_ok(
                (#[trigger] f@.samples[i]).value,
            ),
    ensures
        spec_family_no_exemplars(f@) ==> final(out)@ == old(out)@ + spec_family_text(f@),
{
    proof {
        reveal_strlit("# HELP ");
        reveal_strlit("# TYPE ");
        reveal_strlit("# UNIT ");
        reveal_strlit(" ");
        reveal_strlit("\n");
        vstd::utf8::encode_utf8_decode_utf8(f.name@);
        vstd::utf8::encode_utf8_decode_utf8(f.help@);
        vstd::utf8::encode_utf8_decode_utf8(f.unit@);
    }
    if !f.help.as_str().is_empty() {
        out.append("# HELP ");
        out.append(f.name.as_str());
        out.append(" ");
        out.append(f.help.as_str());
        out.append("\n");
    }
    if !matches!(f.kind, MetricKind::Unknown) {
        out.append("# TYPE ");
        out.append(f.name.as_str());
        out.append(" ");
        let k: &str = match f.kind {
            MetricKind::Counter => "counter",
            MetricKind::Gauge => "gauge",
            MetricKind::Histogram => "histogram",
            MetricKind::Summary => "summary",
            MetricKind::Unknown => "unknown",
        };
        out.append(k);
        out.append("\n");
    }
    if !f.unit.as_str().is_empty() {
        out.append("# UNIT ");
        out.append(f.name.as_str());
        out.append(" ");
        out.append(f.unit.as_str());
        out.append("\n");
    }
    let ghost header = out@;
    let ghost fv = f@;
    let ghost nm = decode_utf8(f@.name);
    let n = f.samples.len();
    let mut i: usize = 0;
    while i < n
        invariant
            0 <= i <= n,
            n == f.samples.len(),
            fv == f@,
            fv.samples.len() == n,
            nm == decode_utf8(fv.name),
            nm == f.name@,
            forall|k: int|
                0 <= k < n ==> crate::value::spec_pebble_ok((#[trigger] fv.samples[k]).value),
            spec_family_no_exemplars(fv) ==> out@ == header + spec_samples_text(
                nm,
                fv.samples.take(i as int),
            ),
        decreases n - i,
    {
        proof {
            assert(fv.samples[i as int] == f.samples@[i as int]@);
        }
        push_sample(out, &f.name, &f.samples[i]);
        proof {
            if spec_family_no_exemplars(fv) {
                assert(spec_value_no_exemplar(fv.samples[i as int].value));
                lemma_samples_text_snoc(nm, fv.samples, i as int);
            }
        }
        i = i + 1;
    }
    proof {
        assert(fv.samples.take(n as int) =~= fv.samples);
    }
}

/// The pairs of a sample's labels, as owned strings.
fn label_pairs(ls: &Vec<Label>) -> (r: Vec<(String, String)>)
    ensures
        spec_string_pairs(r@) == spec_label_pairs(ls.deep_view()),
{
    let mut out: Vec<(String, String)> = Vec::new();
    let n = ls.len();
    let mut i: usize = 0;
    while i < n
        invariant
            0 <= i <= n,
            n == ls.len(),
            out@.len() == i,
            forall|k: int|
                0 <= k < i ==> (#[trigger] out@[k]).0@ == ls@[k].name@ && out@[k].1@ == ls@[
                    k
                ].value@,
        decreases n - i,
    {
        out.push((ls[i].name.clone(), ls[i].value.clone()));
        i = i + 1;
    }
    proof {
        assert forall|k: int| 0 <= k < n implies #[trigger] spec_string_pairs(out@)[k]
            == spec_label_pairs(ls.deep_view())[k] by {
            vstd::utf8::encode_utf8_decode_utf8(ls@[k].name@);
            vstd::utf8::encode_utf8_decode_utf8(ls@[k].value@);
            assert(ls.deep_view()[k] == ls@[k]@);
            assert(spec_string_pairs(out@)[k] == (out@[k].0@, out@[k].1@));
            assert(spec_label_pairs(ls.deep_view())[k] == (
                decode_utf8(ls.deep_view()[k].name),
                decode_utf8(ls.deep_view()[k].value),
            ));
        }
        assert(spec_string_pairs(out@) =~= spec_label_pairs(ls.deep_view()));
    }
    out
}

} // verus!
