//! Metric families and the aggregation family: one family's stored state,
//! and how an incoming family folds into it.

use vstd::prelude::*;
use vstd::utf8::encode_utf8;
use crate::clearmode::{spec_effective_clearmode, ClearMode};
use crate::errors::AggregationError;
use crate::labels::{
    find_label, find_name, labels_match, labels_match_exec, names_bytes_of, names_of,
    remove_label, spec_has_label, spec_has_name, spec_label_value, spec_remove_label,
    spec_remove_name, str_eq, Label, LabelV,
};
use crate::value::{
    duplicate_labels, merge_metric_at, spec_convert_with_clearmode, spec_merge_sample,
    spec_pebble_ok, value_pebble_ok, GravelValue, MetricKind, GravelSample, GravelSampleV, ValueV,
};

verus! {

/// One parsed metric family: its metadata, the label names its samples
/// carry, and its samples.
#[derive(Debug, PartialEq)]
pub struct Family {
    pub name: String,
    pub kind: MetricKind,
    pub help: String,
    pub unit: String,
    pub label_names: Vec<String>,
    pub samples: Vec<GravelSample>,
}

/// The mathematical shadow of a `Family`.
pub ghost struct FamilyV {
    pub name: Seq<u8>,
    pub kind: MetricKind,
    pub help: Seq<u8>,
    pub unit: Seq<u8>,
    pub label_names: Seq<Seq<u8>>,
    pub samples: Seq<GravelSampleV>,
}

impl View for Family {
    type V = FamilyV;

    open spec fn view(&self) -> FamilyV {
        FamilyV {
            name: encode_utf8(self.name@),
            kind: self.kind,
            help: encode_utf8(self.help@),
            unit: encode_utf8(self.unit@),
            label_names: names_bytes_of(self.label_names@),
            samples: self.samples.deep_view(),
        }
    }
}

impl DeepView for Family {
    type V = FamilyV;

    open spec fn deep_view(&self) -> FamilyV {
        self.view()
    }
}

/// The bytes of the control label's name.
pub open spec fn clearmode_bytes() -> Seq<u8> {
    encode_utf8("clearmode"@)
}

/// A sample with its control label removed.
pub open spec fn spec_strip_sample(s: GravelSampleV) -> GravelSampleV {
    GravelSampleV { labels: spec_remove_label(s.labels, clearmode_bytes()), ..s }
}

/// A sample with its value converted under its effective clear mode.
pub open spec fn spec_converted_sample(kind: MetricKind, s: GravelSampleV, now: u128) -> GravelSampleV {
    GravelSampleV {
        value: spec_convert_with_clearmode(s.value, spec_effective_clearmode(kind, s.labels), now),
        ..s
    }
}

/// A family with the control label stripped from its label names and from
/// every sample.
pub open spec fn spec_clean_family(f: FamilyV) -> FamilyV {
    FamilyV {
        label_names: spec_remove_name(f.label_names, clearmode_bytes()),
        samples: f.samples.map_values(|s: GravelSampleV| spec_strip_sample(s)),
        ..f
    }
}

/// A freshly constructed aggregation family: every sample's value converted
/// under its clear mode, then the control label stripped throughout.
pub open spec fn spec_new_family(f: FamilyV, now: u128) -> FamilyV {
    FamilyV {
        label_names: spec_remove_name(f.label_names, clearmode_bytes()),
        samples: f.samples.map_values(
            |s: GravelSampleV| spec_strip_sample(spec_converted_sample(f.kind, s, now)),
        ),
        ..f
    }
}

/// A family the aggregator can hold: every sample carries exactly the
/// family's label names in order, no two samples are match-equal, the
/// control label is gone, and every pebble is well-formed.
#[verifier::opaque]
pub open spec fn family_ok(f: FamilyV) -> bool {
    &&& forall|i: int|
        0 <= i < f.samples.len() ==> names_of(#[trigger] f.samples[i].labels) == f.label_names
    &&& forall|i: int, j: int|
        0 <= i < j < f.samples.len() ==> !labels_match(
            (#[trigger] f.samples[i]).labels,
            (#[trigger] f.samples[j]).labels,
        )
    &&& !spec_has_name(f.label_names, clearmode_bytes())
    &&& forall|i: int| 0 <= i < f.samples.len() ==> spec_pebble_ok((#[trigger] f.samples[i]).value)
}

/// Whether no two families of the list bear the same name.
pub open spec fn distinct_family_names(fs: Seq<FamilyV>) -> bool {
    forall|i: int, j: int|
        0 <= i < j < fs.len() ==> (#[trigger] fs[i]).name != (#[trigger] fs[j]).name
}

/// Whether some sample of the incoming family asks for a family reset.
pub open spec fn spec_wants_family_clear(kind: MetricKind, ss: Seq<GravelSampleV>) -> bool {
    exists|i: int|
        0 <= i < ss.len() && spec_effective_clearmode(kind, (#[trigger] ss[i]).labels)
            == ClearMode::Family
}

/// The labels of a sample reordered to the family's label names: for each
/// family name, the sample's value for it.  Nothing when the counts differ
/// or a name is missing.
pub open spec fn spec_align(ls: Seq<LabelV>, names: Seq<Seq<u8>>) -> Option<Seq<LabelV>> {
    if ls.len() == names.len() && (forall|i: int|
        0 <= i < names.len() ==> #[trigger] spec_has_label(ls, names[i])) {
        Some(
            Seq::new(
                names.len(),
                |i: int| LabelV { name: names[i], value: spec_label_value(ls, names[i]) },
            ),
        )
    } else {
        None
    }
}

/// Whether some stored sample is match-equal to the labels `ls`.
pub open spec fn spec_has_match(ss: Seq<GravelSampleV>, ls: Seq<LabelV>) -> bool {
    exists|i: int| 0 <= i < ss.len() && labels_match((#[trigger] ss[i]).labels, ls)
}

/// The index of the first stored sample match-equal to `ls`.
pub open spec fn spec_match_index(ss: Seq<GravelSampleV>, ls: Seq<LabelV>) -> int
    decreases ss.len(),
{
    if ss.len() == 0 {
        0
    } else if labels_match(ss[0].labels, ls) {
        0
    } else {
        1 + spec_match_index(ss.drop_first(), ls)
    }
}

/// A prefix free of matches followed by a match pins `spec_match_index`.
proof fn lemma_match_index_of_first(ss: Seq<GravelSampleV>, ls: Seq<LabelV>, i: int)
    requires
        0 <= i < ss.len(),
        labels_match(ss[i].labels, ls),
        forall|k: int| 0 <= k < i ==> !labels_match((#[trigger] ss[k]).labels, ls),
    ensures
        spec_has_match(ss, ls),
        spec_match_index(ss, ls) == i,
    decreases i,
{
    if i > 0 {
        lemma_match_index_of_first(ss.drop_first(), ls, i - 1);
        assert(forall|k: int|
            0 <= k < ss.drop_first().len() ==> ss.drop_first()[k] == #[trigger] ss[k + 1]);
    }
}

/// One incoming sample folded into the family state, or nothing on a label
/// mismatch, an unusable clear mode, an unimplemented merge, or an
/// ill-formed pebble.
#[verifier::opaque]
pub open spec fn spec_merge_one(a: FamilyV, s: GravelSampleV, t: u128) -> Option<FamilyV> {
    let m = spec_effective_clearmode(a.kind, s.labels);
    let cmp = spec_remove_label(s.labels, clearmode_bytes());
    match spec_align(cmp, a.label_names) {
        None => None,
        Some(aligned) => if spec_has_match(a.samples, aligned) {
            let k = spec_match_index(a.samples, aligned);
            match spec_merge_sample(a.samples[k], s, m, t) {
                Some(s2) => Some(FamilyV { samples: a.samples.update(k, s2), ..a }),
                None => None,
            }
        } else if spec_pebble_ok(s.value) {
            Some(
                FamilyV {
                    samples: a.samples.push(
                        GravelSampleV { labels: aligned, timestamp: s.timestamp, value: s.value },
                    ),
                    ..a
                },
            )
        } else {
            None
        },
    }
}

/// The incoming samples folded in one after the other, stopping at the
/// first that fails: the state reached, and whether all of them landed.
pub open spec fn spec_merge_samples(a: FamilyV, ss: Seq<GravelSampleV>, t: u128) -> (FamilyV, bool)
    decreases ss.len(),
{
    if ss.len() == 0 {
        (a, true)
    } else {
        match spec_merge_one(a, ss[0], t) {
            Some(a2) => spec_merge_samples(a2, ss.drop_first(), t),
            None => (a, false),
        }
    }
}

/// A whole incoming family folded into the stored one: rejected on a name
/// or kind mismatch; a family-clear sample replaces the state with the
/// cleaned incoming family; otherwise the samples merge one by one.
pub open spec fn spec_apply_family(a: FamilyV, b: FamilyV, t: u128) -> (FamilyV, bool) {
    if a.name != b.name || a.kind != b.kind {
        (a, false)
    } else if spec_wants_family_clear(b.kind, b.samples) {
        let c = spec_clean_family(b);
        if family_ok(c) {
            (c, true)
        } else {
            (a, false)
        }
    } else if a.samples.len() == 0 {
        let c = spec_new_family(b, t);
        if family_ok(c) {
            (c, true)
        } else {
            (a, false)
        }
    } else {
        spec_merge_samples(a, b.samples, t)
    }
}

/// Whether each sample's label names are exactly `names`, in order.
fn sample_names_match(ls: &Vec<Label>, names: &Vec<String>) -> (r: bool)
    ensures
        r == (names_of(ls.deep_view()) == names_bytes_of(names@)),
{
    let ghost lsv = ls.deep_view();
    let ghost nsv = names_bytes_of(names@);
    if ls.len() != names.len() {
        proof {
            assert(names_of(lsv).len() == lsv.len());
            assert(names_of(lsv) != nsv);
        }
        return false;
    }
    let n = ls.len();
    let mut i: usize = 0;
    while i < n
        invariant
            0 <= i <= n,
            n == ls.len() == names.len(),
            lsv == ls.deep_view(),
            nsv == names_bytes_of(names@),
            lsv.len() == n,
            nsv.len() == n,
            forall|k: int| 0 <= k < i ==> names_of(lsv)[k] == nsv[k],
        decreases n - i,
    {
        proof {
            assert(names_of(lsv)[i as int] == lsv[i as int].name);
            assert(lsv[i as int] == ls@[i as int]@);
            assert(nsv[i as int] == encode_utf8(names@[i as int]@));
        }
        if !str_eq(ls[i].name.as_str(), names[i].as_str()) {
            proof {
                assert(names_of(lsv)[i as int] != nsv[i as int]);
            }
            return false;
        }
        i = i + 1;
    }
    proof {
        assert(names_of(lsv) =~= nsv);
    }
    true
}

/// Whether a family may stand in the aggregator, as `family_ok` says.
fn validate_family(f: &Family) -> (r: bool)
    ensures
        r == family_ok(f@),
{
    let ghost fv = f@;
    proof {
        reveal(family_ok);
    }
    if find_name(&f.label_names, "clearmode").is_some() {
        proof {
            reveal(family_ok);
        }
        return false;
    }
    let n = f.samples.len();
    let mut i: usize = 0;
    while i < n
        invariant
            0 <= i <= n,
            n == f.samples.len(),
            fv == f@,
            fv.samples.len() == n,
            forall|k: int|
                0 <= k < i ==> names_of((#[trigger] fv.samples[k]).labels) == fv.label_names,
            forall|k: int, l: int|
                0 <= k < l < i ==> !labels_match(
                    (#[trigger] fv.samples[k]).labels,
                    (#[trigger] fv.samples[l]).labels,
                ),
            forall|k: int| 0 <= k < i ==> spec_pebble_ok((#[trigger] fv.samples[k]).value),
        decreases n - i,
    {
        proof {
            assert(fv.samples[i as int] == f.samples@[i as int]@);
        }
        if !sample_names_match(&f.samples[i].labels, &f.label_names) {
            proof {
                reveal(family_ok);
                assert(names_of(fv.samples[i as int].labels) != fv.label_names);
                assert(!family_ok(fv));
            }
            return false;
        }
        if !value_pebble_ok(&f.samples[i].value) {
            proof {
                reveal(family_ok);
            }
            return false;
        }
        let mut j: usize = 0;
        while j < i
            invariant
                0 <= j <= i < n,
                n == f.samples.len(),
                fv == f@,
                fv.samples.len() == n,
                forall|k: int|
                    0 <= k < j ==> !labels_match(
                        (#[trigger] fv.samples[k]).labels,
                        fv.samples[i as int].labels,
                    ),
            decreases i - j,
        {
            proof {
                assert(fv.samples[j as int] == f.samples@[j as int]@);
                assert(fv.samples[i as int] == f.samples@[i as int]@);
            }
            if labels_match_exec(&f.samples[j].labels, &f.samples[i].labels) {
                proof {
                    reveal(family_ok);
                }
                return false;
            }
            j = j + 1;
        }
        i = i + 1;
    }
    proof {
        reveal(family_ok);
        assert(family_ok(fv));
    }
    true
}

/// The index of the first stored sample match-equal to `ls`, if any.
fn find_matching_sample(ss: &Vec<GravelSample>, ls: &Vec<Label>) -> (r: Option<usize>)
    ensures
        match r {
            Some(k) => spec_has_match(ss.deep_view(), ls.deep_view()) && k == spec_match_index(
                ss.deep_view(),
                ls.deep_view(),
            ) && k < ss.len(),
            None => !spec_has_match(ss.deep_view(), ls.deep_view()),
        },
{
    let ghost ssv = ss.deep_view();
    let ghost lsv = ls.deep_view();
    let n = ss.len();
    let mut i: usize = 0;
    while i < n
        invariant
            0 <= i <= n,
            n == ss.len(),
            ssv == ss.deep_view(),
            lsv == ls.deep_view(),
            ssv.len() == n,
            forall|k: int| 0 <= k < i ==> !labels_match((#[trigger] ssv[k]).labels, lsv),
        decreases n - i,
    {
        proof {
            assert(ssv[i as int] == ss@[i as int]@);
        }
        if labels_match_exec(&ss[i].labels, ls) {
            proof {
                lemma_match_index_of_first(ssv, lsv, i as int);
            }
            return Some(i);
        }
        i = i + 1;
    }
    None
}

/// The labels of a sample reordered to the family's names, as `spec_align`
/// says.
fn align_labels(ls: &Vec<Label>, names: &Vec<String>) -> (r: Option<Vec<Label>>)
    ensures
        match r {
            Some(v) => spec_align(ls.deep_view(), names_bytes_of(names@)) == Some(v.deep_view()),
            None => spec_align(ls.deep_view(), names_bytes_of(names@)) is None,
        },
{
    let ghost lsv = ls.deep_view();
    let ghost nsv = names_bytes_of(names@);
    if ls.len() != names.len() {
        return None;
    }
    let n = names.len();
    let mut out: Vec<Label> = Vec::new();
    let mut i: usize = 0;
    while i < n
        invariant
            0 <= i <= n,
            n == names.len() == ls.len(),
            lsv == ls.deep_view(),
            nsv == names_bytes_of(names@),
            nsv.len() == n,
            lsv.len() == n,
            out@.len() == i,
            forall|k: int| 0 <= k < i ==> #[trigger] spec_has_label(lsv, nsv[k]),
            forall|k: int|
                0 <= k < i ==> (#[trigger] out@[k].deep_view()) == (LabelV {
                    name: nsv[k],
                    value: spec_label_value(lsv, nsv[k]),
                }),
        decreases n - i,
    {
        proof {
            assert(nsv[i as int] == encode_utf8(names@[i as int]@));
        }
        match find_label(ls, names[i].as_str()) {
            None => {
                proof {
                    assert(!spec_has_label(lsv, nsv[i as int]));
                }
                return None;
            },
            Some(k) => {
                let l = Label { name: names[i].clone(), value: ls[k].value.clone() };
                proof {
                    assert(lsv[k as int] == ls@[k as int]@);
                    assert(l@ == (LabelV {
                        name: nsv[i as int],
                        value: spec_label_value(lsv, nsv[i as int]),
                    }));
                }
                out.push(l);
            },
        }
        i = i + 1;
    }
    proof {
        assert(out.deep_view() =~= Seq::new(
            nsv.len(),
            |i: int| LabelV { name: nsv[i], value: spec_label_value(lsv, nsv[i]) },
        ));
    }
    Some(out)
}

/// Aligned labels carry exactly the family's names, in order.
proof fn lemma_align_names(ls: Seq<LabelV>, names: Seq<Seq<u8>>)
    requires
        spec_align(ls, names) is Some,
    ensures
        names_of(spec_align(ls, names).unwrap()) == names,
{
    let al = spec_align(ls, names).unwrap();
    assert(names_of(al) =~= names);
}

/// A deep copy of a family, equal at the view level.
fn duplicate_family(f: &Family) -> (r: Family)
    ensures
        r@ == f@,
{
    let mut names: Vec<String> = Vec::new();
    let n = f.label_names.len();
    let mut i: usize = 0;
    while i < n
        invariant
            0 <= i <= n,
            n == f.label_names.len(),
            names@.len() == i,
            forall|k: int|
                0 <= k < i ==> encode_utf8((#[trigger] names@[k])@) == encode_utf8(
                    f.label_names@[k]@,
                ),
        decreases n - i,
    {
        names.push(f.label_names[i].clone());
        i = i + 1;
    }
    let mut samples: Vec<GravelSample> = Vec::new();
    let m = f.samples.len();
    let mut j: usize = 0;
    while j < m
        invariant
            0 <= j <= m,
            m == f.samples.len(),
            samples@.len() == j,
            forall|k: int| 0 <= k < j ==> (#[trigger] samples@[k].deep_view()) == f.samples@[
                k
            ].deep_view(),
        decreases m - j,
    {
        let s = GravelSample {
            labels: duplicate_labels(&f.samples[j].labels),
            timestamp: f.samples[j].timestamp,
            value: f.samples[j].value.duplicate(),
        };
        proof {
            assert(s@ == f.samples@[j as int]@);
        }
        samples.push(s);
        j = j + 1;
    }
    let r = Family {
        name: f.name.clone(),
        kind: f.kind,
        help: f.help.clone(),
        unit: f.unit.clone(),
        label_names: names,
        samples,
    };
    proof {
        assert(names_bytes_of(r.label_names@) =~= names_bytes_of(f.label_names@));
        assert(r.samples.deep_view() =~= f.samples.deep_view());
    }
    r
}

/// Strips the control label from a family's names and from every sample.
fn clean_family(f: Family) -> (r: Family)
    ensures
        r@ == spec_clean_family(f@),
{
    let ghost fv = f@;
    let Family { name, kind, help, unit, mut label_names, samples: mut rest } = f;
    match find_name(&label_names, "clearmode") {
        Some(i) => {
            let ghost before = names_bytes_of(label_names@);
            label_names.remove(i);
            proof {
                assert(names_bytes_of(label_names@) =~= spec_remove_name(
                    before,
                    clearmode_bytes(),
                ));
            }
        },
        None => {
        },
    }
    let ghost orig = rest.deep_view();
    let total = rest.len();
    let mut samples: Vec<GravelSample> = Vec::new();
    let mut i: usize = 0;
    while rest.len() > 0
        invariant
            orig.len() == total,
            orig.len() == i + rest@.len(),
            0 <= i <= total,
            samples@.len() == i,
            rest.deep_view() =~= orig.skip(i as int),
            forall|k: int|
                0 <= k < i ==> (#[trigger] samples@[k].deep_view()) == spec_strip_sample(orig[k]),
        decreases rest.len(),
    {
        let ghost rv = rest.deep_view();
        let mut s = rest.remove(0);
        proof {
            assert(rv[0] == orig[i as int]);
            assert(s@ == rv[0]);
            assert(rest.deep_view() =~= rv.drop_first());
            assert(rv.drop_first() =~= orig.skip(i + 1));
        }
        remove_label(&mut s.labels, "clearmode");
        proof {
            assert(s@ == spec_strip_sample(orig[i as int]));
        }
        samples.push(s);
        i = i + 1;
    }
    let r = Family { name, kind, help, unit, label_names, samples };
    proof {
        assert(r.samples.deep_view() =~= fv.samples.map_values(
            |s: GravelSampleV| spec_strip_sample(s),
        ));
    }
    r
}

/// The stored state of one metric family, able to fold newly pushed
/// families into itself.
#[derive(Debug)]
pub struct AggregationFamily {
    pub base_family: Family,
}

impl View for AggregationFamily {
    type V = FamilyV;

    open spec fn view(&self) -> FamilyV {
        self.base_family@
    }
}

impl DeepView for AggregationFamily {
    type V = FamilyV;

    open spec fn deep_view(&self) -> FamilyV {
        self.view()
    }
}

impl AggregationFamily {
    /// Whether this family may stand in the aggregator.
    pub open spec fn wf(self) -> bool {
        family_ok(self@)
    }

    /// Builds the stored family from an incoming one: converts each sample
    /// under its clear mode, strips the control label, and refuses families
    /// that would break the store's shape.
    pub fn new(base_family: Family, now: u128) -> (r: Result<AggregationFamily, AggregationError>)
        ensures
            match r {
                Ok(af) => family_ok(spec_new_family(base_family@, now)) && af@ == spec_new_family(
                    base_family@,
                    now,
                ) && af.wf(),
                Err(AggregationError::Error(_)) => !family_ok(spec_new_family(base_family@, now)),
                Err(AggregationError::ParseError(_)) => false,
            },
    {
        let ghost fv = base_family@;
        let kind = base_family.kind;
        let Family { name, kind: _, help, unit, label_names, samples: mut rest } = base_family;
        let ghost orig = rest.deep_view();
        let total = rest.len();
        let mut converted: Vec<GravelSample> = Vec::new();
        let mut i: usize = 0;
        while rest.len() > 0
            invariant
                orig.len() == total,
                orig.len() == i + rest@.len(),
                0 <= i <= total,
                converted@.len() == i,
                rest.deep_view() =~= orig.skip(i as int),
                forall|k: int|
                    0 <= k < i ==> (#[trigger] converted@[k].deep_view()) == spec_converted_sample(
                        kind,
                        orig[k],
                        now,
                    ),
            decreases rest.len(),
        {
            let ghost rv = rest.deep_view();
            let s = rest.remove(0);
            proof {
                assert(rv[0] == orig[i as int]);
                assert(s@ == rv[0]);
                assert(rest.deep_view() =~= rv.drop_first());
                assert(rv.drop_first() =~= orig.skip(i + 1));
            }
            let m = ClearMode::from_labels(kind, &s.labels);
            let GravelSample { labels, timestamp, value } = s;
            let value = value.convert_with_clearmode(m, now);
            let s2 = GravelSample { labels, timestamp, value };
            proof {
                assert(s2@ == spec_converted_sample(kind, orig[i as int], now));
            }
            converted.push(s2);
            i = i + 1;
        }
        let pre = Family { name, kind, help, unit, label_names, samples: converted };
        proof {
            assert(pre@.samples =~= fv.samples.map_values(
                |s: GravelSampleV| spec_converted_sample(fv.kind, s, now),
            ));
        }
        let cleaned = clean_family(pre);
        proof {
            assert(cleaned@.samples =~= spec_new_family(fv, now).samples) by {
                assert(forall|k: int|
                    0 <= k < fv.samples.len() ==> #[trigger] cleaned@.samples[k]
                        == spec_new_family(fv, now).samples[k]);
            }
            assert(cleaned@ == spec_new_family(fv, now));
        }
        if validate_family(&cleaned) {
            Ok(AggregationFamily { base_family: cleaned })
        } else {
            Err(AggregationError::Error(String::from_str("Invalid labels in pushed family")))
        }
    }

    /// Folds an incoming family into this one, as `spec_apply_family` says:
    /// pebble appends land at tick `t`, and on an error the samples already
    /// folded stay.
    #[verifier::rlimit(100)]
    #[verifier::spinoff_prover]
    pub fn merge(&mut self, incoming: &Family, t: u128) -> (r: Result<(), AggregationError>)
        requires
            old(self).wf(),
        ensures
            final(self).wf(),
            final(self)@ == spec_apply_family(old(self)@, incoming@, t).0,
            (r is Ok) == spec_apply_family(old(self)@, incoming@, t).1,
            r matches Err(e) ==> e matches AggregationError::Error(_),
    {
        if !str_eq(incoming.name.as_str(), self.base_family.name.as_str()) {
            return Err(AggregationError::Error(String::from_str("Invalid metric names")));
        }
        if incoming.kind != self.base_family.kind {
            return Err(AggregationError::Error(String::from_str("Invalid metric types")));
        }
        let kind = incoming.kind;
        let n = incoming.samples.len();
        let ghost inv = incoming@;
        let mut wants_clear = false;
        let mut i: usize = 0;
        while i < n && !wants_clear
            invariant
                0 <= i <= n,
                n == incoming.samples.len(),
                inv == incoming@,
                inv.samples.len() == n,
                kind == inv.kind,
                wants_clear ==> spec_wants_family_clear(inv.kind, inv.samples),
                !wants_clear ==> forall|k: int|
                    0 <= k < i ==> spec_effective_clearmode(inv.kind, (#[trigger] inv.samples[k]).labels)
                        != ClearMode::Family,
            decreases n - i + (if wants_clear {
                0int
            } else {
                1int
            }),
        {
            proof {
                assert(inv.samples[i as int] == incoming.samples@[i as int]@);
            }
            let m = ClearMode::from_labels(kind, &incoming.samples[i].labels);
            if m == ClearMode::Family {
                wants_clear = true;
            } else {
                i = i + 1;
            }
        }
        if wants_clear {
            let cleaned = clean_family(duplicate_family(incoming));
            if validate_family(&cleaned) {
                self.base_family = cleaned;
                Ok(())
            } else {
                Err(
                    AggregationError::Error(
                        String::from_str("Invalid labels in family-clear push"),
                    ),
                )
            }
        } else if self.base_family.samples.len() == 0 {
            match AggregationFamily::new(duplicate_family(incoming), t) {
                Ok(af) => {
                    self.base_family = af.base_family;
                    Ok(())
                },
                Err(e) => Err(e),
            }
        } else {
            let ghost start = self@;
            proof {
                assert(inv.samples.skip(0) =~= inv.samples);
            }
            let mut i: usize = 0;
            while i < n
                invariant
                    0 <= i <= n,
                    n == incoming.samples.len(),
                    inv == incoming@,
                    inv.samples.len() == n,
                    kind == inv.kind,
                    self.wf(),
                    start == old(self)@,
                    inv.name == start.name,
                    inv.kind == start.kind,
                    start.samples.len() != 0,
                    !spec_wants_family_clear(inv.kind, inv.samples),
                    spec_merge_samples(start, inv.samples, t) == spec_merge_samples(
                        self@,
                        inv.samples.skip(i as int),
                        t,
                    ),
                decreases n - i,
            {
                let ghost pre = self@;
                proof {
                    assert(inv.samples[i as int] == incoming.samples@[i as int]@);
                    assert(inv.samples.skip(i as int)[0] == inv.samples[i as int]);
                    assert(inv.samples.skip(i as int).drop_first() =~= inv.samples.skip(i + 1));
                }
                match self.merge_step(&incoming.samples[i], t) {
                    Ok(()) => {
                    },
                    Err(e) => {
                        return Err(e);
                    },
                }
                i = i + 1;
            }
            proof {
                assert(inv.samples.skip(n as int) =~= Seq::<GravelSampleV>::empty());
            }
            Ok(())
        }
    }

    /// Folds one incoming sample into this family, as `spec_merge_one` says.
    #[verifier::rlimit(50)]
    fn merge_step(&mut self, s: &GravelSample, t: u128) -> (r: Result<(), AggregationError>)
        requires
            old(self).wf(),
        ensures
            final(self).wf(),
            match r {
                Ok(()) => spec_merge_one(old(self)@, s@, t) == Some(final(self)@),
                Err(AggregationError::Error(_)) => spec_merge_one(old(self)@, s@, t) is None
                    && final(self)@ == old(self)@,
                Err(AggregationError::ParseError(_)) => false,
            },
    {
        proof {
            reveal(family_ok);
            reveal(spec_merge_one);
        }
        let ghost pre = self@;
        let m = ClearMode::from_labels(self.base_family.kind, &s.labels);
        let mut cmp = duplicate_labels(&s.labels);
        remove_label(&mut cmp, "clearmode");
        match align_labels(&cmp, &self.base_family.label_names) {
            None => {
                proof {
                    assert(spec_merge_one(pre, s@, t) is None);
                }
                Err(AggregationError::Error(String::from_str("Invalid label names")))
            },
            Some(aligned) => {
                let ghost alignedv = aligned.deep_view();
                match find_matching_sample(&self.base_family.samples, &aligned) {
                    Some(k) => {
                        let ghost stored = pre.samples[k as int];
                        let res = merge_metric_at(&mut self.base_family.samples[k], s, m, t);
                        match res {
                            Ok(()) => {
                                proof {
                                    assert(self@.samples =~= pre.samples.update(
                                        k as int,
                                        spec_merge_sample(stored, s@, m, t).unwrap(),
                                    ));
                                    assert(spec_merge_one(pre, s@, t) == Some(self@));
                                    lemma_merge_step_ok(pre, s@, t, self@);
                                }
                                Ok(())
                            },
                            Err(_) => {
                                proof {
                                    assert(self@.samples =~= pre.samples);
                                    assert(self@ == pre);
                                    assert(spec_merge_one(pre, s@, t) is None);
                                }
                                Err(
                                    AggregationError::Error(
                                        String::from_str("Cannot merge samples"),
                                    ),
                                )
                            },
                        }
                    },
                    None => {
                        if !value_pebble_ok(&s.value) {
                            proof {
                                assert(spec_merge_one(pre, s@, t) is None);
                            }
                            return Err(
                                AggregationError::Error(
                                    String::from_str("Invalid pebble in pushed sample"),
                                ),
                            );
                        }
                        let added = GravelSample {
                            labels: aligned,
                            timestamp: s.timestamp,
                            value: s.value.duplicate(),
                        };
                        proof {
                            assert(added@ == (GravelSampleV {
                                labels: alignedv,
                                timestamp: s@.timestamp,
                                value: s@.value,
                            }));
                        }
                        self.base_family.samples.push(added);
                        proof {
                            assert(self@.samples =~= pre.samples.push(
                                GravelSampleV {
                                    labels: alignedv,
                                    timestamp: s@.timestamp,
                                    value: s@.value,
                                },
                            ));
                            assert(spec_merge_one(pre, s@, t) == Some(self@));
                            lemma_merge_step_ok(pre, s@, t, self@);
                        }
                        Ok(())
                    },
                }
            },
        }
    }
}

/// A successful merge step keeps the family fit for the store.
proof fn lemma_merge_step_ok(a: FamilyV, s: GravelSampleV, t: u128, a2: FamilyV)
    requires
        family_ok(a),
        spec_merge_one(a, s, t) == Some(a2),
    ensures
        family_ok(a2),
{
    reveal(family_ok);
    reveal(spec_merge_one);
    let cmp = spec_remove_label(s.labels, clearmode_bytes());
    let aligned = spec_align(cmp, a.label_names).unwrap();
    lemma_align_names(cmp, a.label_names);
    if spec_has_match(a.samples, aligned) {
        let k = spec_match_index(a.samples, aligned);
        lemma_match_index_in_range(a.samples, aligned);
        let m = spec_effective_clearmode(a.kind, s.labels);
        let s2 = spec_merge_sample(a.samples[k], s, m, t).unwrap();
        assert(s2.labels == a.samples[k].labels);
        assert(spec_pebble_ok(s2.value)) by {
            lemma_merge_value_pebble_ok(a.samples[k].value, s.value, m, t);
        }
        assert(forall|i: int|
            0 <= i < a2.samples.len() ==> names_of((#[trigger] a2.samples[i]).labels)
                == a2.label_names);
    } else {
        let pushed = a2.samples.last();
        assert(names_of(pushed.labels) == a.label_names);
        assert(forall|i: int|
            0 <= i < a.samples.len() ==> !labels_match((#[trigger] a.samples[i]).labels, aligned));
    }
}

/// The index of the first match lies in range.
proof fn lemma_match_index_in_range(ss: Seq<GravelSampleV>, ls: Seq<LabelV>)
    requires
        spec_has_match(ss, ls),
    ensures
        0 <= spec_match_index(ss, ls) < ss.len(),
        labels_match(ss[spec_match_index(ss, ls)].labels, ls),
    decreases ss.len(),
{
    if ss.len() > 0 && !labels_match(ss[0].labels, ls) {
        assert(spec_has_match(ss.drop_first(), ls)) by {
            let w = choose|i: int| 0 <= i < ss.len() && labels_match((#[trigger] ss[i]).labels, ls);
            assert(ss.drop_first()[w - 1] == ss[w]);
        }
        lemma_match_index_in_range(ss.drop_first(), ls);
    }
}

/// Folding a family keeps its stored name.
pub proof fn lemma_apply_family_name(a: FamilyV, b: FamilyV, t: u128)
    ensures
        spec_apply_family(a, b, t).0.name == a.name,
{
    if a.name != b.name || a.kind != b.kind {
    } else if spec_wants_family_clear(b.kind, b.samples) {
    } else if a.samples.len() == 0 {
    } else {
        lemma_merge_samples_name(a, b.samples, t);
    }
}

/// Folding samples keeps the family's name.
proof fn lemma_merge_samples_name(a: FamilyV, ss: Seq<GravelSampleV>, t: u128)
    ensures
        spec_merge_samples(a, ss, t).0.name == a.name,
    decreases ss.len(),
{
    reveal(spec_merge_one);
    if ss.len() > 0 {
        match spec_merge_one(a, ss[0], t) {
            Some(a2) => {
                lemma_merge_samples_name(a2, ss.drop_first(), t);
            },
            None => {
            },
        }
    }
}

/// Merging values keeps pebbles well-formed.
proof fn lemma_merge_value_pebble_ok(a: ValueV, b: ValueV, m: ClearMode, t: u128)
    requires
        spec_pebble_ok(a),
        crate::value::spec_merge_value(a, b, m, t) is Some,
    ensures
        spec_pebble_ok(crate::value::spec_merge_value(a, b, m, t).unwrap()),
{
    match (a, b) {
        (ValueV::Pebble(p), ValueV::Counter { value, exemplar }) => {
            crate::pebble::lemma_pebble_append_wf(
                p,
                crate::num::spec_num_f64_bits(value),
                t / p.bucket_size_nanos,
            );
        },
        (ValueV::Pebble(p), ValueV::Gauge(y)) => {
            crate::pebble::lemma_pebble_append_wf(
                p,
                crate::num::spec_num_f64_bits(y),
                t / p.bucket_size_nanos,
            );
        },
        (ValueV::Pebble(p), ValueV::Unknown(y)) => {
            crate::pebble::lemma_pebble_append_wf(
                p,
                crate::num::spec_num_f64_bits(y),
                t / p.bucket_size_nanos,
            );
        },
        _ => {
        },
    }
}

} // verus!
