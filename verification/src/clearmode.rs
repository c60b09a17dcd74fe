//! Clear modes: the per-sample directive, carried as the `clearmode` label,
//! that says how an incoming value combines with the stored one.

use vstd::prelude::*;
use vstd::utf8::encode_utf8;
use crate::errors::AggregationError;
use crate::labels::{spec_has_label, spec_label_value, get_label_value, Label, LabelV};
use crate::pebble::{parse_duration_bytes, spec_parse_duration};
use crate::value::MetricKind;

verus! {

/// How an incoming sample folds into the stored one.  The durations of
/// `Mean` and `Sum` are in seconds.
#[derive(Debug, Clone, Copy, PartialEq, Eq, Structural)]
pub enum ClearMode {
    Aggregate,
    Replace,
    Family,
    Mean(u64),
    Sum(u64),
}

/// The clear mode a string denotes: the fixed words, or `mean<duration>` /
/// `sum<duration>`; anything else denotes nothing.
pub open spec fn spec_clearmode_of(s: Seq<u8>) -> Option<ClearMode> {
    if s == encode_utf8("aggregate"@) || s == encode_utf8("sum"@) {
        Some(ClearMode::Aggregate)
    } else if s == encode_utf8("replace"@) {
        Some(ClearMode::Replace)
    } else if s == encode_utf8("family"@) || s == encode_utf8("info"@) {
        Some(ClearMode::Family)
    } else if s.len() >= 4 && s.take(4) == spec_mean_prefix() {
        match spec_parse_duration(s.skip(4)) {
            Some(d) => Some(ClearMode::Mean(d)),
            None => None,
        }
    } else if s.len() >= 3 && s.take(3) == spec_sum_prefix() {
        match spec_parse_duration(s.skip(3)) {
            Some(d) => Some(ClearMode::Sum(d)),
            None => None,
        }
    } else {
        None
    }
}

/// The bytes of the word `mean`.
pub open spec fn spec_mean_prefix() -> Seq<u8> {
    seq![0x6du8, 0x65u8, 0x61u8, 0x6eu8]
}

/// The bytes of the word `sum`.
pub open spec fn spec_sum_prefix() -> Seq<u8> {
    seq![0x73u8, 0x75u8, 0x6du8]
}

/// Whether `b` starts with the bytes of `mean`.
fn has_mean_prefix(b: &[u8]) -> (r: bool)
    ensures
        r == (b@.len() >= 4 && b@.take(4) == spec_mean_prefix()),
{
    if b.len() < 4 {
        return false;
    }
    let r = b[0] == 0x6d && b[1] == 0x65 && b[2] == 0x61 && b[3] == 0x6e;
    proof {
        assert(b@.take(4)[0] == b@[0] && b@.take(4)[1] == b@[1] && b@.take(4)[2] == b@[2]
            && b@.take(4)[3] == b@[3]);
        if r {
            assert(b@.take(4) =~= spec_mean_prefix());
        } else {
            assert(b@.take(4) != spec_mean_prefix());
        }
    }
    r
}

/// Whether `b` starts with the bytes of `sum`.
fn has_sum_prefix(b: &[u8]) -> (r: bool)
    ensures
        r == (b@.len() >= 3 && b@.take(3) == spec_sum_prefix()),
{
    if b.len() < 3 {
        return false;
    }
    let r = b[0] == 0x73 && b[1] == 0x75 && b[2] == 0x6d;
    proof {
        assert(b@.take(3)[0] == b@[0] && b@.take(3)[1] == b@[1] && b@.take(3)[2] == b@[2]);
        if r {
            assert(b@.take(3) =~= spec_sum_prefix());
        } else {
            assert(b@.take(3) != spec_sum_prefix());
        }
    }
    r
}

/// The clear mode used when a sample names none: gauges replace, everything
/// else aggregates.
pub open spec fn spec_default_for_kind(kind: MetricKind) -> ClearMode {
    match kind {
        MetricKind::Gauge => ClearMode::Replace,
        _ => ClearMode::Aggregate,
    }
}

/// The clear mode a sample's labels put in force for a family of the given
/// kind: the mode its `clearmode` label denotes, or the kind's default.
pub open spec fn spec_effective_clearmode(kind: MetricKind, ls: Seq<LabelV>) -> ClearMode {
    if spec_has_label(ls, encode_utf8("clearmode"@)) {
        match spec_clearmode_of(spec_label_value(ls, encode_utf8("clearmode"@))) {
            Some(m) => m,
            None => spec_default_for_kind(kind),
        }
    } else {
        spec_default_for_kind(kind)
    }
}

impl ClearMode {
    /// The default clear mode of a metric kind.
    pub fn default_for_type(t: MetricKind) -> (r: ClearMode)
        ensures
            r == spec_default_for_kind(t),
    {
        match t {
            MetricKind::Gauge => ClearMode::Replace,
            _ => ClearMode::Aggregate,
        }
    }

    /// Parses a clear-mode string: `Ok` exactly when `spec_clearmode_of`
    /// denotes a mode, and that mode.
    pub fn from_str(s: &str) -> (r: Result<ClearMode, AggregationError>)
        ensures
            match r {
                Ok(m) => spec_clearmode_of(encode_utf8(s@)) == Some(m),
                Err(AggregationError::Error(_)) => spec_clearmode_of(encode_utf8(s@)) is None,
                Err(AggregationError::ParseError(_)) => false,
            },
    {
        let b = s.as_bytes();
        if crate::labels::bytes_eq(b, "aggregate".as_bytes()) || crate::labels::bytes_eq(
            b,
            "sum".as_bytes(),
        ) {
            Ok(ClearMode::Aggregate)
        } else if crate::labels::bytes_eq(b, "replace".as_bytes()) {
            Ok(ClearMode::Replace)
        } else if crate::labels::bytes_eq(b, "family".as_bytes()) || crate::labels::bytes_eq(
            b,
            "info".as_bytes(),
        ) {
            Ok(ClearMode::Family)
        } else if has_mean_prefix(b) {
            let tail = &b[4..b.len()];
            proof {
                assert(tail@ =~= b@.skip(4));
            }
            match parse_duration_bytes(tail) {
                Some(d) => Ok(ClearMode::Mean(d)),
                None => Err(
                    AggregationError::Error(String::from_str("Invalid duration string")),
                ),
            }
        } else if has_sum_prefix(b) {
            let tail = &b[3..b.len()];
            proof {
                assert(tail@ =~= b@.skip(3));
            }
            match parse_duration_bytes(tail) {
                Some(d) => Ok(ClearMode::Sum(d)),
                None => Err(
                    AggregationError::Error(String::from_str("Invalid duration string")),
                ),
            }
        } else {
            Err(AggregationError::Error(String::from_str("Invalid clearmode")))
        }
    }

    /// The clear mode a sample's labels put in force for a family of the
    /// given kind.
    pub fn from_labels(family_type: MetricKind, labels: &Vec<Label>) -> (r: ClearMode)
        ensures
            r == spec_effective_clearmode(family_type, labels.deep_view()),
    {
        match get_label_value(labels, "clearmode") {
            Some(v) => match ClearMode::from_str(v.as_str()) {
                Ok(m) => m,
                Err(_) => ClearMode::default_for_type(family_type),
            },
            None => ClearMode::default_for_type(family_type),
        }
    }
}

} // verus!
