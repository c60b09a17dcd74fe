//! The push endpoint's decisions: turning the URL tail after `/metrics`
//! into group-key labels, and choosing whether a push is merged here or
//! belongs to a peer.

use vstd::prelude::*;
use vstd::utf8::encode_utf8;
use crate::aggregator::{spec_set_label, Aggregator};
use crate::clustering::{spec_ring_lookup, xx64_of, ClusterConfig};
use crate::errors::AggregationError;
use crate::labels::{get_label_value, spec_has_label, spec_label_value, Label, LabelV};

verus! {

pub uninterp spec fn url_decode_of(b: Seq<u8>) -> Option<Seq<u8>>;

/// Relies on `urlencoding::decode` over the UTF-8 text of the bytes: what a
/// segment decodes to depends on its bytes alone.
#[verifier::external_body]
fn url_decode(b: &[u8]) -> (r: Option<String>)
    ensures
        match r {
            Some(s) => url_decode_of(b@) == Some(encode_utf8(s@)),
            None => url_decode_of(b@) is None,
        },
{
    match std::str::from_utf8(b) {
        Ok(s) => match urlencoding::decode(s) {
            Ok(c) => Some(c.into_owned()),
            Err(_) => None,
        },
        Err(_) => None,
    }
}

/// The URL tail split at slashes, every byte segment kept (empty ones too).
pub open spec fn spec_segments(b: Seq<u8>) -> Seq<Seq<u8>>
    decreases b.len(),
{
    let i = spec_slash_index(b);
    if 0 <= i < b.len() {
        seq![b.take(i)] + spec_segments(b.skip(i + 1))
    } else {
        seq![b]
    }
}

/// The byte sequences a list of byte vectors holds.
pub open spec fn segs_of(v: Seq<Vec<u8>>) -> Seq<Seq<u8>> {
    v.map_values(|x: Vec<u8>| x@)
}

/// The index of the first slash.
pub open spec fn spec_slash_index(b: Seq<u8>) -> int
    decreases b.len(),
{
    if b.len() == 0 {
        0
    } else if b[0] == 0x2f {
        0
    } else {
        1 + spec_slash_index(b.drop_first())
    }
}

/// What decoding the group-key path can end in.
#[derive(Debug, Clone, PartialEq)]
pub enum TailError {
    InvalidLabelName,
    InvalidLabelValue,
    LabelValueMissing,
}

/// The labels the segment list denotes, walked in pairs: a name that fails
/// to decode is an error; an empty name ends the walk; a missing or
/// undecodable value is an error; a repeated name keeps the later value.
pub open spec fn spec_tail_labels(segs: Seq<Seq<u8>>, acc: Seq<LabelV>) -> Result<
    Seq<LabelV>,
    TailError,
>
    decreases segs.len(),
{
    if segs.len() == 0 {
        Ok(acc)
    } else {
        match url_decode_of(segs[0]) {
            None => Err(TailError::InvalidLabelName),
            Some(name) => if name.len() == 0 {
                Ok(acc)
            } else if segs.len() == 1 {
                Err(TailError::LabelValueMissing)
            } else {
                match url_decode_of(segs[1]) {
                    None => Err(TailError::InvalidLabelValue),
                    Some(value) => spec_tail_labels(
                        segs.skip(2),
                        spec_set_label(acc, name, value),
                    ),
                }
            },
        }
    }
}

/// The group-key labels of a URL tail.
pub open spec fn spec_decode_tail(b: Seq<u8>) -> Result<Seq<LabelV>, TailError> {
    spec_tail_labels(spec_segments(b), Seq::<LabelV>::empty())
}

/// The index of the first slash, or the length when none.
fn find_slash(b: &[u8]) -> (r: usize)
    ensures
        r <= b@.len(),
        r == spec_slash_index(b@) || (r == b@.len() && spec_slash_index(b@) >= b@.len()),
        r < b@.len() ==> b@[r as int] == 0x2f && r == spec_slash_index(b@),
    decreases b@.len(),
{
    let n = b.len();
    let mut i: usize = 0;
    while i < n
        invariant
            0 <= i <= n,
            n == b@.len(),
            forall|j: int| 0 <= j < i ==> #[trigger] b@[j] != 0x2f,
        decreases n - i,
    {
        if b[i] == 0x2f {
            proof {
                lemma_slash_of_first(b@, i as int);
            }
            return i;
        }
        i = i + 1;
    }
    proof {
        lemma_slash_none(b@);
    }
    n
}

/// Slash-free bytes index at their length.
proof fn lemma_slash_none(b: Seq<u8>)
    requires
        forall|j: int| 0 <= j < b.len() ==> #[trigger] b[j] != 0x2f,
    ensures
        spec_slash_index(b) == b.len(),
    decreases b.len(),
{
    if b.len() > 0 {
        lemma_slash_none(b.drop_first());
        assert(forall|j: int|
            0 <= j < b.drop_first().len() ==> b.drop_first()[j] == #[trigger] b[j + 1]);
    }
}

/// A slash-free prefix followed by a slash pins `spec_slash_index`.
proof fn lemma_slash_of_first(b: Seq<u8>, i: int)
    requires
        0 <= i < b.len(),
        b[i] == 0x2f,
        forall|j: int| 0 <= j < i ==> #[trigger] b[j] != 0x2f,
    ensures
        spec_slash_index(b) == i,
    decreases i,
{
    if i > 0 {
        lemma_slash_of_first(b.drop_first(), i - 1);
        assert(forall|j: int|
            0 <= j < b.drop_first().len() ==> b.drop_first()[j] == #[trigger] b[j + 1]);
    }
}

/// Splits the URL tail into its slash-separated byte segments.
fn split_segments(b: &[u8]) -> (r: Vec<Vec<u8>>)
    ensures
        segs_of(r@) == spec_segments(b@),
{
    let mut out: Vec<Vec<u8>> = Vec::new();
    let mut rest: &[u8] = b;
    loop
        invariant
            spec_segments(b@) =~= segs_of(out@) + spec_segments(rest@),
        ensures
            segs_of(out@) == spec_segments(b@),
        decreases rest@.len() + 1,
    {
        let i = find_slash(rest);
        if i < rest.len() {
            let seg = &rest[0..i];
            let next = &rest[i + 1..rest.len()];
            proof {
                assert(seg@ =~= rest@.take(i as int));
                assert(next@ =~= rest@.skip(i as int + 1));
                assert(spec_segments(rest@) == seq![rest@.take(i as int)] + spec_segments(
                    rest@.skip(i as int + 1),
                ));
            }
            let ghost pre = segs_of(out@);
            out.push(vstd::slice::slice_to_vec(seg));
            proof {
                assert(segs_of(out@) =~= pre.push(seg@));
                assert(segs_of(out@) + spec_segments(next@) =~= pre + spec_segments(rest@));
            }
            rest = next;
        } else {
            proof {
                assert(spec_slash_index(rest@) >= rest@.len());
                assert(spec_segments(rest@) == seq![rest@]);
            }
            let ghost pre = segs_of(out@);
            out.push(vstd::slice::slice_to_vec(rest));
            proof {
                assert(segs_of(out@) =~= pre.push(rest@));
                assert(segs_of(out@) =~= pre + spec_segments(rest@));
            }
            return out;
        }
    }
}

/// Decodes the URL tail after `/metrics` into group-key labels, as
/// `spec_decode_tail` says.
pub fn decode_url_labels(tail: &str) -> (r: Result<Vec<Label>, TailError>)
    ensures
        match r {
            Ok(ls) => spec_decode_tail(encode_utf8(tail@)) == Ok::<Seq<LabelV>, TailError>(
                ls.deep_view(),
            ),
            Err(e) => spec_decode_tail(encode_utf8(tail@)) == Err::<Seq<LabelV>, TailError>(e),
        },
{
    let segs = split_segments(tail.as_bytes());
    let ghost all = segs_of(segs@);
    let mut out: Vec<Label> = Vec::new();
    let n = segs.len();
    let mut i: usize = 0;
    proof {
        assert(all.skip(0) =~= all);
        assert(out.deep_view() =~= Seq::<LabelV>::empty());
    }
    while i < n
        invariant
            0 <= i <= n,
            n == segs.len(),
            all == segs_of(segs@),
            all.len() == n,
            all == spec_segments(encode_utf8(tail@)),
            spec_decode_tail(encode_utf8(tail@)) == spec_tail_labels(
                all.skip(i as int),
                out.deep_view(),
            ),
        decreases n - i,
    {
        proof {
            assert(all[i as int] == segs@[i as int]@);
            assert(all.skip(i as int)[0] == all[i as int]);
            assert(all.skip(i as int).drop_first() =~= all.skip(i + 1));
            if i + 1 < n {
                assert(all.skip(i as int)[1] == all[i + 1]);
                assert(all[i + 1] == segs@[i + 1]@);
            }
        }
        let name = match url_decode(segs[i].as_slice()) {
            Some(s) => s,
            None => {
                return Err(TailError::InvalidLabelName);
            },
        };
        if name.as_str().is_empty() {
            proof {
                assert(encode_utf8(name@) =~= Seq::<u8>::empty());
                assert(spec_tail_labels(all.skip(i as int), out.deep_view()) == Ok::<
                    Seq<LabelV>,
                    TailError,
                >(out.deep_view()));
            }
            return Ok(out);
        }
        if i + 1 >= n {
            proof {
                assert(all.skip(i as int).len() == 1);
                assert(encode_utf8(name@).len() > 0) by {
                    vstd::utf8::encode_utf8_decode_utf8(name@);
                }
            }
            return Err(TailError::LabelValueMissing);
        }
        proof {
            assert(all.skip(i as int)[1] == all[i + 1]);
            assert(all[i + 1] == segs@[i + 1]@);
            assert(all.skip(i as int).skip(2) =~= all.skip(i + 2));
            assert(encode_utf8(name@).len() > 0) by {
                vstd::utf8::encode_utf8_decode_utf8(name@);
            }
        }
        let value = match url_decode(segs[i + 1].as_slice()) {
            Some(s) => s,
            None => {
                return Err(TailError::InvalidLabelValue);
            },
        };
        crate::aggregator::set_label(&mut out, name.as_str(), value.as_str());
        i = i + 2;
    }
    proof {
        assert(all.skip(n as int) =~= Seq::<Seq<u8>>::empty());
    }
    Ok(out)
}

/// What the gateway should do with a push: merge it here, or hand the raw
/// body to the peer that owns its job key.
#[derive(Debug, PartialEq)]
pub enum IngestDecision {
    MergeLocally,
    Forward(String),
}

/// The routing key of a push: its `job` label's value, or the empty string
/// when it carries none.
pub open spec fn spec_job_key(ls: Seq<LabelV>) -> Seq<u8> {
    if spec_has_label(ls, encode_utf8("job"@)) {
        spec_label_value(ls, encode_utf8("job"@))
    } else {
        Seq::<u8>::empty()
    }
}

/// The peer a push is handed to, when one is: with no cluster, an empty
/// ring, or the ring owner being this gateway itself the push stays local
/// (`None`); otherwise the owner of the push's job key takes it.
pub open spec fn spec_forward_target(cluster: Option<ClusterConfig>, ls: Seq<LabelV>) -> Option<
    Seq<u8>,
> {
    match cluster {
        None => None,
        Some(c) => match spec_ring_lookup(c.peers@, xx64_of(spec_job_key(ls))) {
            None => None,
            Some(owner) => if owner == encode_utf8(c.self_url@) {
                None
            } else {
                Some(owner)
            },
        },
    }
}

/// Decides where a push belongs, as `spec_forward_target` says: with no
/// cluster the push is merged here; otherwise the peer owning the push's
/// `job` label (the empty string when absent) takes it, and only the owner
/// being this gateway itself keeps the push local.
pub fn route_push(cluster: &Option<ClusterConfig>, labels: &Vec<Label>) -> (r: IngestDecision)
    ensures
        match spec_forward_target(*cluster, labels.deep_view()) {
            None => r == IngestDecision::MergeLocally,
            Some(owner) => r matches IngestDecision::Forward(p) && encode_utf8(p@) == owner,
        },
{
    let c = match cluster {
        None => {
            return IngestDecision::MergeLocally;
        },
        Some(c) => c,
    };
    let job: String = match get_label_value(labels, "job") {
        Some(v) => v.clone(),
        None => String::new(),
    };
    proof {
        assert(encode_utf8(Seq::<char>::empty()) =~= Seq::<u8>::empty());
    }
    match c.get_peer_for_key(job.as_str()) {
        None => IngestDecision::MergeLocally,
        Some(peer) => {
            if c.is_self(peer.as_str()) {
                IngestDecision::MergeLocally
            } else {
                IngestDecision::Forward(peer.clone())
            }
        },
    }
}

/// Relies on `std::str::from_utf8`: the bytes as text, exactly when they
/// are valid UTF-8.
#[verifier::external_body]
fn utf8_str(body: &[u8]) -> (r: Option<&str>)
    ensures
        match r {
            Some(s) => encode_utf8(s@) == body@,
            None => !vstd::utf8::valid_utf8(body@),
        },
{
    std::str::from_utf8(body).ok()
}

/// How one push ended.
#[derive(Debug, PartialEq)]
pub enum IngestOutcome {
    BadLabels(TailError),
    BadUtf8,
    Forwarded(String),
    Merged(Result<(), AggregationError>),
}

/// One push handled end to end, short of the network: the URL tail becomes
/// group-key labels, the cluster decides where the push belongs, and a
/// local push is checked as UTF-8 and merged.  A forwarded push leaves the
/// store untouched; the caller sends the raw body to the named peer.
pub fn ingest_metrics(
    agg: &mut Aggregator,
    cluster: &Option<ClusterConfig>,
    tail: &str,
    body: &[u8],
) -> (r: IngestOutcome)
    requires
        old(agg).wf(),
    ensures
        final(agg).wf(),
        (r is BadLabels) <==> (spec_decode_tail(encode_utf8(tail@)) is Err),
        (r is Forwarded) <==> (spec_decode_tail(encode_utf8(tail@)) matches Ok(ls)
            && spec_forward_target(*cluster, ls) is Some),
        (r is BadUtf8) <==> (spec_decode_tail(encode_utf8(tail@)) matches Ok(ls)
            && spec_forward_target(*cluster, ls) is None && !vstd::utf8::valid_utf8(body@)),
        (r is Merged) <==> (spec_decode_tail(encode_utf8(tail@)) matches Ok(ls)
            && spec_forward_target(*cluster, ls) is None && vstd::utf8::valid_utf8(body@)),
        match r {
            IngestOutcome::BadLabels(e) => spec_decode_tail(encode_utf8(tail@)) == Err::<
                Seq<LabelV>,
                TailError,
            >(e) && final(agg)@ == old(agg)@,
            IngestOutcome::BadUtf8 => final(agg)@ == old(agg)@,
            IngestOutcome::Forwarded(p) => final(agg)@ == old(agg)@ && spec_forward_target(
                *cluster,
                spec_decode_tail(encode_utf8(tail@)).unwrap(),
            ) == Some(encode_utf8(p@)),
            IngestOutcome::Merged(res) => {
                let ls = spec_decode_tail(encode_utf8(tail@)).unwrap();
                match res {
                    Ok(()) => exists|fams: Seq<crate::family::FamilyV>, t: u128|
                        {
                            &&& crate::parse::prom_parse(body@) == Some(
                                crate::parse::fams_to_map(fams),
                            )
                            &&& crate::family::distinct_family_names(fams)
                            &&& #[trigger] crate::aggregator::spec_apply_push(
                                old(agg)@,
                                crate::aggregator::spec_add_labels_expo(fams, ls),
                                t,
                            ) == (final(agg)@, true)
                        },
                    Err(AggregationError::ParseError(_)) => crate::parse::prom_parse(body@)
                        is None && final(agg)@ == old(agg)@,
                    Err(AggregationError::Error(_)) => exists|
                        fams: Seq<crate::family::FamilyV>,
                        t: u128,
                    |
                        {
                            &&& crate::parse::prom_parse(body@) == Some(
                                crate::parse::fams_to_map(fams),
                            )
                            &&& crate::family::distinct_family_names(fams)
                            &&& #[trigger] crate::aggregator::spec_apply_push(
                                old(agg)@,
                                crate::aggregator::spec_add_labels_expo(fams, ls),
                                t,
                            ) == (final(agg)@, false)
                        },
                }
            },
        },
{
    let labels = match decode_url_labels(tail) {
        Ok(ls) => ls,
        Err(e) => {
            return IngestOutcome::BadLabels(e);
        },
    };
    match route_push(cluster, &labels) {
        IngestDecision::Forward(peer) => IngestOutcome::Forwarded(peer),
        IngestDecision::MergeLocally => {
            let body_str = match utf8_str(body) {
                Some(s) => s,
                None => {
                    return IngestOutcome::BadUtf8;
                },
            };
            proof {
                vstd::utf8::encode_utf8_valid_utf8(body_str@);
            }
            let res = agg.parse_and_merge(body_str, &labels);
            IngestOutcome::Merged(res)
        },
    }
}

} // verus!
