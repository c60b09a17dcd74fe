//! The trusted boundary to the Prometheus text parser: the
//! `openmetrics_parser` crate parses pushed expositions, and the result is
//! carried over into the library's own model.

use vstd::prelude::*;
use vstd::utf8::encode_utf8;
use crate::family::{distinct_family_names, Family, FamilyV};
use crate::labels::Label;
use crate::value::{
    Bucket, CounterValue, GravelSample, GravelValue, HistogramData, MetricKind, SummaryData,
    SummaryQuantile,
};

verus! {

/// The parser's family type, declared so wrappers can pass it along.
#[verifier::external_type_specification]
#[verifier::external_body]
#[verifier::reject_recursive_types(TypeSet)]
#[verifier::reject_recursive_types(ValueType)]
pub struct ExMetricFamily<TypeSet, ValueType>(
    openmetrics_parser::MetricFamily<TypeSet, ValueType>,
);

/// The parser's sample type.
#[verifier::external_type_specification]
#[verifier::external_body]
#[verifier::reject_recursive_types(ValueType)]
pub struct ExOmSample<ValueType>(openmetrics_parser::Sample<ValueType>);

/// The parser's metric-kind type.
#[verifier::external_type_specification]
#[verifier::external_body]
pub struct ExPrometheusType(openmetrics_parser::PrometheusType);

/// The parser's value type.
#[verifier::external_type_specification]
#[verifier::external_body]
pub struct ExPrometheusValue(openmetrics_parser::PrometheusValue);

/// The parser's scalar type.
#[verifier::external_type_specification]
#[verifier::external_body]
pub struct ExMetricNumber(openmetrics_parser::MetricNumber);

/// The parser's histogram value type.
#[verifier::external_type_specification]
#[verifier::external_body]
pub struct ExHistogramValue(openmetrics_parser::HistogramValue);

/// The parser's histogram bucket type.
#[verifier::external_type_specification]
#[verifier::external_body]
pub struct ExHistogramBucket(openmetrics_parser::HistogramBucket);

/// The parser's summary value type.
#[verifier::external_type_specification]
#[verifier::external_body]
pub struct ExSummaryValue(openmetrics_parser::SummaryValue);

/// The parser's quantile type.
#[verifier::external_type_specification]
#[verifier::external_body]
pub struct ExOmQuantile(openmetrics_parser::Quantile);

/// The parser's counter value type.
#[verifier::external_type_specification]
#[verifier::external_body]
pub struct ExPrometheusCounterValue(openmetrics_parser::PrometheusCounterValue);

/// A parsed exposition: the pushed families, in the order the parser's map
/// handed them out.
#[derive(Debug)]
pub struct Exposition {
    pub families: Vec<Family>,
}

impl View for Exposition {
    type V = Seq<FamilyV>;

    open spec fn view(&self) -> Seq<FamilyV> {
        self.families.deep_view()
    }
}

/// The families of an exposition as a map from family name to family.
pub open spec fn fams_to_map(fs: Seq<FamilyV>) -> Map<Seq<u8>, FamilyV>
    decreases fs.len(),
{
    if fs.len() == 0 {
        Map::<Seq<u8>, FamilyV>::empty()
    } else {
        fams_to_map(fs.drop_last()).insert(fs.last().name, fs.last())
    }
}

pub uninterp spec fn prom_parse(s: Seq<u8>) -> Option<Map<Seq<u8>, FamilyV>>;

/// Relies on `openmetrics_parser::prometheus::parse_prometheus`: parsing
/// succeeds or fails on the text alone, and on success yields one family
/// per name.  The families come back in the parser map's walking order, so
/// only their name-keyed map is named.
#[verifier::external_body]
pub fn parse_prometheus_text(s: &str) -> (r: Result<Exposition, String>)
    ensures
        r matches Ok(e) ==> {
            &&& prom_parse(encode_utf8(s@)) == Some(fams_to_map(e@))
            &&& distinct_family_names(e@)
        },
        r matches Err(_) ==> prom_parse(encode_utf8(s@)) is None,
{
    match openmetrics_parser::prometheus::parse_prometheus(s) {
        Ok(expo) => {
            let mut families = Vec::new();
            for (_, fam) in expo.families {
                families.push(convert_family(fam));
            }
            Ok(Exposition { families })
        },
        Err(e) => Err(format!("{}", e)),
    }
}

/// Relies on the layout of the parser's `MetricFamily`.
#[verifier::external_body]
fn convert_family(
    f: openmetrics_parser::MetricFamily<
        openmetrics_parser::PrometheusType,
        openmetrics_parser::PrometheusValue,
    >,
) -> Family {
    let (name, kind) = (f.family_name.clone(), convert_kind(&f.family_type));
    let (help, unit) = (f.help.clone(), f.unit.clone());
    let label_names: Vec<String> = f.get_label_names().to_vec();
    let samples = f.into_iter_samples().map(convert_sample).collect();
    Family { name, kind, help, unit, label_names, samples }
}

/// Relies on the layout of the parser's `Sample` and its label set view.
#[verifier::external_body]
fn convert_sample(
    s: openmetrics_parser::Sample<openmetrics_parser::PrometheusValue>,
) -> GravelSample {
    let labels = match s.get_labelset() {
        Ok(ls) => ls.iter().map(|(n, v)| Label { name: n.clone(), value: v.clone() }).collect(),
        Err(_) => Vec::new(),
    };
    let timestamp = s.timestamp.map(|t| t.to_bits());
    GravelSample { labels, timestamp, value: convert_value(s.value) }
}

/// Relies on the variants of the parser's `PrometheusType`.
#[verifier::external_body]
fn convert_kind(t: &openmetrics_parser::PrometheusType) -> MetricKind {
    match t {
        openmetrics_parser::PrometheusType::Counter => MetricKind::Counter,
        openmetrics_parser::PrometheusType::Gauge => MetricKind::Gauge,
        openmetrics_parser::PrometheusType::Histogram => MetricKind::Histogram,
        openmetrics_parser::PrometheusType::Summary => MetricKind::Summary,
        openmetrics_parser::PrometheusType::Unknown => MetricKind::Unknown,
    }
}

/// Relies on the variants of the parser's `PrometheusValue`.
#[verifier::external_body]
fn convert_value(v: openmetrics_parser::PrometheusValue) -> GravelValue {
    match v {
        openmetrics_parser::PrometheusValue::Unknown(n) => GravelValue::Unknown(convert_num(n)),
        openmetrics_parser::PrometheusValue::Gauge(n) => GravelValue::Gauge(convert_num(n)),
        openmetrics_parser::PrometheusValue::Counter(c) => GravelValue::Counter(
            CounterValue { value: convert_num(c.value), exemplar: c.exemplar },
        ),
        openmetrics_parser::PrometheusValue::Histogram(h) => GravelValue::Histogram(
            convert_histogram(h),
        ),
        openmetrics_parser::PrometheusValue::Summary(s) => GravelValue::Summary(
            convert_summary(s),
        ),
    }
}

/// Relies on the layout of the parser's `HistogramValue`.
#[verifier::external_body]
fn convert_histogram(h: openmetrics_parser::HistogramValue) -> HistogramData {
    let buckets = h.buckets.into_iter().map(
        |b| Bucket {
            count: convert_num(b.count),
            upper_bound: b.upper_bound.to_bits(),
            exemplar: b.exemplar,
        },
    ).collect();
    let created = h.created.map(|t| t.to_bits());
    HistogramData { sum: h.sum.map(convert_num), count: h.count, created, buckets }
}

/// Relies on the layout of the parser's `SummaryValue`..
#[verifier::external_body]
fn convert_summary(s: openmetrics_parser::SummaryValue) -> SummaryData {
    let quantiles = s.quantiles.into_iter().map(
        |q| SummaryQuantile { quantile: q.quantile.to_bits(), value: convert_num(q.value) },
    ).collect();
    let created = s.created.map(|t| t.to_bits());
    SummaryData { sum: s.sum.map(convert_num), count: s.count, created, quantiles }
}

/// Relies on the variants of the parser's `MetricNumber`.
#[verifier::external_body]
fn convert_num(n: openmetrics_parser::MetricNumber) -> crate::num::GravelNumber {
    match n {
        openmetrics_parser::MetricNumber::Int(i) => crate::num::GravelNumber::Int(i),
        openmetrics_parser::MetricNumber::Float(f) => crate::num::GravelNumber::Float(f.to_bits()),
    }
}

} // verus!
