//! The aggregator: the stored families, the push entry point that parses
//! and merges an exposition, and the text rendering for scrapes.

use vstd::prelude::*;
use vstd::utf8::encode_utf8;
use crate::errors::AggregationError;
use crate::family::{
    distinct_family_names, family_ok, spec_apply_family, spec_new_family, AggregationFamily,
    Family, FamilyV,
};
use crate::labels::{
    find_label, find_name, names_bytes_of, spec_has_label, spec_has_name, spec_label_index,
    str_eq, Label, LabelV,
};
use crate::parse::{fams_to_map, parse_prometheus_text, prom_parse, Exposition};
use crate::render::{push_family, spec_family_no_exemplars, spec_family_text};
use crate::value::{wall_clock_nanos, GravelSampleV};

verus! {

/// The gateway's store: one aggregation family per metric name, in the
/// order first pushed.
#[derive(Debug)]
pub struct Aggregator {
    pub families: Vec<AggregationFamily>,
}

impl View for Aggregator {
    type V = Seq<FamilyV>;

    open spec fn view(&self) -> Seq<FamilyV> {
        self.families.deep_view()
    }
}

/// Whether some stored family bears the name.
pub open spec fn spec_has_fam(fs: Seq<FamilyV>, name: Seq<u8>) -> bool {
    exists|i: int| 0 <= i < fs.len() && (#[trigger] fs[i]).name == name
}

/// The index of the first stored family bearing the name.
pub open spec fn spec_fam_index(fs: Seq<FamilyV>, name: Seq<u8>) -> int
    decreases fs.len(),
{
    if fs.len() == 0 {
        0
    } else if fs[0].name == name {
        0
    } else {
        1 + spec_fam_index(fs.drop_first(), name)
    }
}

/// A prefix free of the name followed by a hit pins `spec_fam_index`.
proof fn lemma_fam_index_of_first(fs: Seq<FamilyV>, name: Seq<u8>, i: int)
    requires
        0 <= i < fs.len(),
        fs[i].name == name,
        forall|k: int| 0 <= k < i ==> (#[trigger] fs[k]).name != name,
    ensures
        spec_has_fam(fs, name),
        spec_fam_index(fs, name) == i,
    decreases i,
{
    if i > 0 {
        lemma_fam_index_of_first(fs.drop_first(), name, i - 1);
        assert(forall|k: int|
            0 <= k < fs.drop_first().len() ==> fs.drop_first()[k] == #[trigger] fs[k + 1]);
    }
}

/// A label sequence with the value of the first label named `k` replaced,
/// or the pair appended when none is named `k`.
pub open spec fn spec_set_label(ls: Seq<LabelV>, k: Seq<u8>, v: Seq<u8>) -> Seq<LabelV> {
    if spec_has_label(ls, k) {
        ls.update(spec_label_index(ls, k), LabelV { name: k, value: v })
    } else {
        ls.push(LabelV { name: k, value: v })
    }
}

/// One extra label applied to a whole family: every sample gets the pair
/// (the pushed value wins over one already carried), and the name joins the
/// family's label names if it was absent.
pub open spec fn spec_add_label_fam(f: FamilyV, k: Seq<u8>, v: Seq<u8>) -> FamilyV {
    FamilyV {
        label_names: if spec_has_name(f.label_names, k) {
            f.label_names
        } else {
            f.label_names.push(k)
        },
        samples: f.samples.map_values(
            |s: GravelSampleV| GravelSampleV { labels: spec_set_label(s.labels, k, v), ..s },
        ),
        ..f
    }
}

/// All the extra labels applied to a family, first pair first.
pub open spec fn spec_add_labels_fam(f: FamilyV, extra: Seq<LabelV>) -> FamilyV
    decreases extra.len(),
{
    if extra.len() == 0 {
        f
    } else {
        spec_add_labels_fam(
            spec_add_label_fam(f, extra[0].name, extra[0].value),
            extra.drop_first(),
        )
    }
}

/// The extra labels applied to every family of an exposition.
pub open spec fn spec_add_labels_expo(fs: Seq<FamilyV>, extra: Seq<LabelV>) -> Seq<FamilyV> {
    fs.map_values(|f: FamilyV| spec_add_labels_fam(f, extra))
}

/// One pushed family folded into the store: a merge into the stored family
/// of the same name, or a fresh entry.
pub open spec fn spec_push_one(st: Seq<FamilyV>, f: FamilyV, now: u128) -> (Seq<FamilyV>, bool) {
    if spec_has_fam(st, f.name) {
        let k = spec_fam_index(st, f.name);
        let r = spec_apply_family(st[k], f, now);
        (st.update(k, r.0), r.1)
    } else {
        let c = spec_new_family(f, now);
        if family_ok(c) {
            (st.push(c), true)
        } else {
            (st, false)
        }
    }
}

/// A pushed exposition folded into the store, family by family; the first
/// failure stops the fold, and what came before it stays folded.
pub open spec fn spec_apply_push(st: Seq<FamilyV>, fams: Seq<FamilyV>, now: u128) -> (
    Seq<FamilyV>,
    bool,
)
    decreases fams.len(),
{
    if fams.len() == 0 {
        (st, true)
    } else {
        let r = spec_push_one(st, fams[0], now);
        if r.1 {
            spec_apply_push(r.0, fams.drop_first(), now)
        } else {
            r
        }
    }
}

/// Sets the value of the label named `k` in a label list, or appends it.
pub fn set_label(ls: &mut Vec<Label>, k: &str, v: &str)
    ensures
        final(ls).deep_view() == spec_set_label(
            old(ls).deep_view(),
            encode_utf8(k@),
            encode_utf8(v@),
        ),
{
    let ghost before = old(ls).deep_view();
    let l = Label { name: String::from_str(k), value: String::from_str(v) };
    proof {
        assert(l@ == (LabelV { name: encode_utf8(k@), value: encode_utf8(v@) }));
    }
    match find_label(ls, k) {
        Some(i) => {
            ls.set(i, l);
            proof {
                assert(ls.deep_view() =~= spec_set_label(
                    before,
                    encode_utf8(k@),
                    encode_utf8(v@),
                ));
            }
        },
        None => {
            ls.push(l);
            proof {
                assert(ls.deep_view() =~= spec_set_label(
                    before,
                    encode_utf8(k@),
                    encode_utf8(v@),
                ));
            }
        },
    }
}

/// Applies one extra label to a family.
#[verifier::rlimit(50)]
fn add_label_to_family(f: &mut Family, k: &str, v: &str)
    ensures
        final(f)@ == spec_add_label_fam(old(f)@, encode_utf8(k@), encode_utf8(v@)),
{
    let ghost before = old(f)@;
    let ghost target = spec_add_label_fam(before, encode_utf8(k@), encode_utf8(v@));
    match find_name(&f.label_names, k) {
        Some(_) => {
        },
        None => {
            f.label_names.push(String::from_str(k));
            proof {
                assert(names_bytes_of(f.label_names@) =~= before.label_names.push(
                    encode_utf8(k@),
                ));
            }
        },
    }
    let n = f.samples.len();
    let mut i: usize = 0;
    while i < n
        invariant
            0 <= i <= n,
            n == f.samples.len(),
            f.samples@.len() == n,
            before.samples.len() == n,
            target == spec_add_label_fam(before, encode_utf8(k@), encode_utf8(v@)),
            encode_utf8(f.name@) == before.name,
            f.kind == before.kind,
            encode_utf8(f.help@) == before.help,
            encode_utf8(f.unit@) == before.unit,
            names_bytes_of(f.label_names@) == target.label_names,
            forall|j: int| i <= j < n ==> (#[trigger] f.samples@[j])@ == before.samples[j],
            forall|j: int|
                0 <= j < i ==> (#[trigger] f.samples@[j])@ == (GravelSampleV {
                    labels: spec_set_label(
                        before.samples[j].labels,
                        encode_utf8(k@),
                        encode_utf8(v@),
                    ),
                    ..before.samples[j]
                }),
        decreases n - i,
    {
        set_label(&mut f.samples[i].labels, k, v);
        i = i + 1;
    }
    proof {
        assert(f@.samples =~= target.samples) by {
            assert(forall|j: int|
                0 <= j < n ==> #[trigger] target.samples[j] == (GravelSampleV {
                    labels: spec_set_label(
                        before.samples[j].labels,
                        encode_utf8(k@),
                        encode_utf8(v@),
                    ),
                    ..before.samples[j]
                }));
        }
        assert(f@ == target);
    }
}

/// Applies the extra labels, first pair first, to every family.
#[verifier::rlimit(50)]
fn add_extra_labels(expo: &mut Exposition, extra: &Vec<Label>)
    ensures
        final(expo)@ == spec_add_labels_expo(old(expo)@, extra.deep_view()),
{
    let ghost before = old(expo)@;
    let ghost ev = extra.deep_view();
    let n = expo.families.len();
    let mut i: usize = 0;
    while i < n
        invariant
            0 <= i <= n,
            n == expo.families.len(),
            expo.families@.len() == n,
            before.len() == n,
            ev == extra.deep_view(),
            forall|j: int| i <= j < n ==> (#[trigger] expo.families@[j])@ == before[j],
            forall|j: int|
                0 <= j < i ==> (#[trigger] expo.families@[j])@ == spec_add_labels_fam(
                    before[j],
                    ev,
                ),
        decreases n - i,
    {
        let ghost fam0 = expo.families@[i as int]@;
        proof {
            assert(ev.skip(0) =~= ev);
        }
        let m = extra.len();
        let mut e: usize = 0;
        while e < m
            invariant
                0 <= e <= m,
                m == extra.len(),
                i < n,
                n == expo.families.len(),
                expo.families@.len() == n,
                before.len() == n,
                ev == extra.deep_view(),
                ev.len() == m,
                fam0 == before[i as int],
                spec_add_labels_fam(fam0, ev) == spec_add_labels_fam(
                    expo.families@[i as int]@,
                    ev.skip(e as int),
                ),
                forall|j: int| i < j < n ==> (#[trigger] expo.families@[j])@ == before[j],
                forall|j: int|
                    0 <= j < i ==> (#[trigger] expo.families@[j])@ == spec_add_labels_fam(
                        before[j],
                        ev,
                    ),
            decreases m - e,
        {
            proof {
                assert(ev[e as int] == extra@[e as int]@);
                assert(ev.skip(e as int)[0] == ev[e as int]);
                assert(ev.skip(e as int).drop_first() =~= ev.skip(e + 1));
            }
            add_label_to_family(
                &mut expo.families[i],
                extra[e].name.as_str(),
                extra[e].value.as_str(),
            );
            e = e + 1;
        }
        proof {
            assert(ev.skip(m as int) =~= Seq::<LabelV>::empty());
        }
        i = i + 1;
    }
    proof {
        assert(expo@ =~= spec_add_labels_expo(before, ev));
    }
}

/// The index of the first stored family bearing the byte name of `name`.
fn find_family(fs: &Vec<AggregationFamily>, name: &str) -> (r: Option<usize>)
    ensures
        match r {
            Some(i) => spec_has_fam(fs.deep_view(), encode_utf8(name@)) && i == spec_fam_index(
                fs.deep_view(),
                encode_utf8(name@),
            ) && i < fs.len(),
            None => !spec_has_fam(fs.deep_view(), encode_utf8(name@)),
        },
{
    let ghost fsv = fs.deep_view();
    let ghost target = encode_utf8(name@);
    let n = fs.len();
    let mut i: usize = 0;
    while i < n
        invariant
            0 <= i <= n,
            n == fs.len(),
            fsv == fs.deep_view(),
            target == encode_utf8(name@),
            fsv.len() == n,
            forall|k: int| 0 <= k < i ==> (#[trigger] fsv[k]).name != target,
        decreases n - i,
    {
        proof {
            assert(fsv[i as int] == fs@[i as int]@);
        }
        if str_eq(fs[i].base_family.name.as_str(), name) {
            proof {
                lemma_fam_index_of_first(fsv, target, i as int);
            }
            return Some(i);
        }
        i = i + 1;
    }
    None
}

impl Aggregator {
    /// An empty store.
    pub fn new() -> (r: Aggregator)
        ensures
            r@ =~= Seq::<FamilyV>::empty(),
            r.wf(),
    {
        let r = Aggregator { families: Vec::new() };
        proof {
            assert(r@ =~= Seq::<FamilyV>::empty());
        }
        r
    }

    /// Parses a pushed exposition, applies the extra group-key labels, and
    /// folds every family into the store.  The push is not atomic across
    /// families: on an error the families already folded stay folded.
    #[verifier::rlimit(100)]
    #[verifier::spinoff_prover]
    pub fn parse_and_merge(&mut self, s: &str, extra_labels: &Vec<Label>) -> (r: Result<
        (),
        AggregationError,
    >)
        requires
            old(self).wf(),
        ensures
            final(self).wf(),
            match r {
                Ok(()) => exists|fams: Seq<FamilyV>, t: u128|
                    {
                        &&& prom_parse(encode_utf8(s@)) == Some(fams_to_map(fams))
                        &&& distinct_family_names(fams)
                        &&& #[trigger] spec_apply_push(
                            old(self)@,
                            spec_add_labels_expo(fams, extra_labels.deep_view()),
                            t,
                        ) == (final(self)@, true)
                    },
                Err(AggregationError::ParseError(_)) => prom_parse(encode_utf8(s@)) is None
                    && final(self)@ == old(self)@,
                Err(AggregationError::Error(_)) => exists|fams: Seq<FamilyV>, t: u128|
                    {
                        &&& prom_parse(encode_utf8(s@)) == Some(fams_to_map(fams))
                        &&& distinct_family_names(fams)
                        &&& #[trigger] spec_apply_push(
                            old(self)@,
                            spec_add_labels_expo(fams, extra_labels.deep_view()),
                            t,
                        ) == (final(self)@, false)
                    },
            },
    {
        let mut expo = match parse_prometheus_text(s) {
            Ok(e) => e,
            Err(m) => {
                return Err(AggregationError::ParseError(m));
            },
        };
        let ghost parsed = expo@;
        add_extra_labels(&mut expo, extra_labels);
        let ghost fams = expo@;
        let now = wall_clock_nanos();
        let ghost start = self@;
        proof {
            assert(fams.skip(0) =~= fams);
        }
        let mut rest = expo.families;
        let total = rest.len();
        let mut i: usize = 0;
        while rest.len() > 0
            invariant
                fams.len() == total,
                fams.len() == i + rest@.len(),
                0 <= i <= total,
                rest.deep_view() =~= fams.skip(i as int),
                self.wf(),
                start == old(self)@,
                fams == spec_add_labels_expo(parsed, extra_labels.deep_view()),
                prom_parse(encode_utf8(s@)) == Some(fams_to_map(parsed)),
                distinct_family_names(parsed),
                spec_apply_push(start, fams, now) == spec_apply_push(
                    self@,
                    fams.skip(i as int),
                    now,
                ),
            decreases rest.len(),
        {
            let ghost rv = rest.deep_view();
            let ghost pre = self@;
            let f = rest.remove(0);
            proof {
                assert(rv[0] == fams[i as int]);
                assert(f@ == rv[0]);
                assert(rest.deep_view() =~= rv.drop_first());
                assert(rv.drop_first() =~= fams.skip(i + 1));
                assert(fams.skip(i as int)[0] == fams[i as int]);
                assert(fams.skip(i as int).drop_first() =~= fams.skip(i + 1));
            }
            match self.push_step(f, now) {
                Ok(()) => {
                },
                Err(e) => {
                    proof {
                        assert(spec_apply_push(start, fams, now) == (self@, false));
                        assert(spec_apply_push(
                            old(self)@,
                            spec_add_labels_expo(parsed, extra_labels.deep_view()),
                            now,
                        ) == (self@, false));
                    }
                    return Err(e);
                },
            }
            i = i + 1;
        }
        proof {
            assert(fams.skip(total as int) =~= Seq::<FamilyV>::empty());
            assert(spec_apply_push(start, fams, now) == (self@, true));
            assert(spec_apply_push(
                old(self)@,
                spec_add_labels_expo(parsed, extra_labels.deep_view()),
                now,
            ) == (self@, true));
        }
        Ok(())
    }

    /// Folds one pushed family into the store, as `spec_push_one` says.
    #[verifier::rlimit(100)]
    #[verifier::spinoff_prover]
    fn push_step(&mut self, f: Family, now: u128) -> (r: Result<(), AggregationError>)
        requires
            old(self).wf(),
        ensures
            final(self).wf(),
            final(self)@ == spec_push_one(old(self)@, f@, now).0,
            (r is Ok) == spec_push_one(old(self)@, f@, now).1,
            r matches Err(e) ==> e matches AggregationError::Error(_),
    {
        let ghost pre = self@;
        match find_family(&self.families, f.name.as_str()) {
            Some(k) => {
                let ghost stored = pre[k as int];
                let res = self.families[k].merge(&f, now);
                proof {
                    assert(self@ =~= pre.update(k as int, spec_apply_family(stored, f@, now).0));
                    assert forall|a: int| 0 <= a < self@.len() implies family_ok(
                        #[trigger] self@[a],
                    ) by {
                        assert(self@[a] == if a == k {
                            spec_apply_family(stored, f@, now).0
                        } else {
                            pre[a]
                        });
                    }
                    assert forall|a: int, b: int|
                        0 <= a < b < self@.len() implies (#[trigger] self@[a]).name != (
                    #[trigger] self@[b]).name by {
                        crate::family::lemma_apply_family_name(stored, f@, now);
                    }
                }
                res
            },
            None => {
                let ghost fv = f@;
                match AggregationFamily::new(f, now) {
                    Ok(af) => {
                        proof {
                            assert(af@.name == fv.name);
                        }
                        self.families.push(af);
                        proof {
                            assert(self@ =~= pre.push(spec_new_family(fv, now)));
                            assert forall|a: int, b: int|
                                0 <= a < b < self@.len() implies (#[trigger] self@[a]).name != (
                            #[trigger] self@[b]).name by {
                                if b == self@.len() - 1 {
                                    assert(self@[a] == pre[a]);
                                    assert(!spec_has_fam(pre, fv.name));
                                }
                            }
                        }
                        Ok(())
                    },
                    Err(e) => Err(e),
                }
            },
        }
    }

    /// A store the aggregator can serve from: every family fit to hold, and
    /// no two families of the same name.
    pub open spec fn wf(self) -> bool {
        &&& forall|i: int| 0 <= i < self@.len() ==> family_ok(#[trigger] self@[i])
        &&& forall|i: int, j: int|
            0 <= i < j < self@.len() ==> (#[trigger] self@[i]).name != (#[trigger] self@[j]).name
    }

    /// Whether no stored sample carries an exemplar.
    pub open spec fn spec_no_exemplars(self) -> bool {
        forall|i: int| 0 <= i < self@.len() ==> spec_family_no_exemplars(#[trigger] self@[i])
    }

    /// The whole store rendered as Prometheus text, family after family in
    /// stored order.
    pub open spec fn spec_render(fs: Seq<FamilyV>) -> Seq<char>
        decreases fs.len(),
    {
        if fs.len() == 0 {
            Seq::<char>::empty()
        } else {
            spec_family_text(fs[0]) + Aggregator::spec_render(fs.drop_first())
        }
    }

    /// Renders the store as a Prometheus text exposition.  When a stored
    /// exemplar exists the output additionally holds upstream exemplar
    /// text, which is unspecified.
    pub fn to_string(&self) -> (r: String)
        requires
            self.wf(),
        ensures
            self.spec_no_exemplars() ==> r@ == Aggregator::spec_render(self@),
    {
        let ghost fsv = self@;
        let mut out = String::new();
        let n = self.families.len();
        let mut i: usize = 0;
        while i < n
            invariant
                0 <= i <= n,
                n == self.families.len(),
                fsv == self@,
                fsv.len() == n,
                self.wf(),
                (forall|k: int|
                    0 <= k < n ==> spec_family_no_exemplars(#[trigger] fsv[k])) ==> out@
                    == Aggregator::spec_render(fsv.take(i as int)),
            decreases n - i,
        {
            proof {
                assert(fsv[i as int] == self.families@[i as int]@);
                assert(family_ok(fsv[i as int]));
                reveal(crate::family::family_ok);
            }
            push_family(&mut out, &self.families[i].base_family);
            proof {
                lemma_render_snoc(fsv, i as int);
            }
            i = i + 1;
        }
        proof {
            assert(fsv.take(n as int) =~= fsv);
        }
        out
    }
}

/// Extending the rendered prefix by one family.
proof fn lemma_render_snoc(fs: Seq<FamilyV>, i: int)
    requires
        0 <= i < fs.len(),
    ensures
        Aggregator::spec_render(fs.take(i + 1)) =~= Aggregator::spec_render(fs.take(i))
            + spec_family_text(fs[i]),
    decreases i,
{
    if i == 0 {
        assert(fs.take(1) =~= seq![fs[0]]);
        assert(fs.take(1).drop_first() =~= Seq::<FamilyV>::empty());
        assert(fs.take(0) =~= Seq::<FamilyV>::empty());
    } else {
        lemma_render_snoc(fs.drop_first(), i - 1);
        assert(fs.drop_first().take(i as int) =~= fs.take(i + 1).drop_first());
        assert(fs.drop_first().take(i - 1) =~= fs.take(i as int).drop_first());
        assert(fs.drop_first()[i - 1] == fs[i]);
        assert(fs.take(i + 1)[0] == fs[0]);
        assert(fs.take(i as int)[0] == fs[0]);
    }
}

} // verus!
