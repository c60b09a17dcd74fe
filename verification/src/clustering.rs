//! The consistent-hash ring over peer URLs, and the cluster's routing
//! decision: which peer owns a pushed job key.

use vstd::prelude::*;
use vstd::utf8::encode_utf8;
use std::hash::{Hash, Hasher};
use crate::labels::str_eq;

verus! {

pub uninterp spec fn xx64_of(s: Seq<u8>) -> u64;

/// Relies on `twox_hash::XxHash64` with its default seed of zero, fed the
/// string through std's `Hash`: the key depends on the bytes alone.
#[verifier::external_body]
fn hash_one(s: &str) -> (r: u64)
    ensures
        r == xx64_of(encode_utf8(s@)),
{
    let mut h = twox_hash::XxHash64::default();
    s.hash(&mut h);
    h.finish()
}

/// A consistent-hash ring: peer URLs keyed by a 64-bit hash, sorted by key.
#[derive(Debug)]
pub struct HashRing {
    pub keys: Vec<(u64, String)>,
}

/// The mathematical shadow of a ring: key and URL bytes, in order.
pub open spec fn ring_view(v: Seq<(u64, String)>) -> Seq<(u64, Seq<u8>)> {
    v.map_values(|p: (u64, String)| (p.0, encode_utf8(p.1@)))
}

impl View for HashRing {
    type V = Seq<(u64, Seq<u8>)>;

    open spec fn view(&self) -> Seq<(u64, Seq<u8>)> {
        ring_view(self.keys@)
    }
}

/// Whether a ring's keys never decrease.
pub open spec fn ring_sorted(rv: Seq<(u64, Seq<u8>)>) -> bool {
    forall|i: int, j: int| 0 <= i < j < rv.len() ==> (#[trigger] rv[i]).0 <= (#[trigger] rv[j]).0
}

/// The position a new key lands at: before the first entry with a key at
/// least as large.
pub open spec fn spec_insert_index(rv: Seq<(u64, Seq<u8>)>, k: u64) -> int
    decreases rv.len(),
{
    if rv.len() == 0 {
        0
    } else if rv[0].0 >= k {
        0
    } else {
        1 + spec_insert_index(rv.drop_first(), k)
    }
}

/// A node inserted into the ring at its sorted position.
pub open spec fn spec_ring_insert(rv: Seq<(u64, Seq<u8>)>, node: Seq<u8>) -> Seq<(u64, Seq<u8>)> {
    rv.insert(spec_insert_index(rv, xx64_of(node)), (xx64_of(node), node))
}

/// A ring built from a list of nodes, inserted one after the other.
pub open spec fn spec_ring_of(nodes: Seq<Seq<u8>>) -> Seq<(u64, Seq<u8>)>
    decreases nodes.len(),
{
    if nodes.len() == 0 {
        Seq::<(u64, Seq<u8>)>::empty()
    } else {
        spec_ring_insert(spec_ring_of(nodes.drop_last()), nodes.last())
    }
}

/// The owner of a key: the first node whose ring key is at least the key's
/// hash, or the first node of the ring when none is.  Nothing owns a key on
/// an empty ring.
pub open spec fn spec_ring_lookup(rv: Seq<(u64, Seq<u8>)>, k: u64) -> Option<Seq<u8>> {
    if rv.len() == 0 {
        None
    } else if exists|i: int| 0 <= i < rv.len() && (#[trigger] rv[i]).0 >= k {
        Some(rv[spec_lookup_index(rv, k)].1)
    } else {
        Some(rv[0].1)
    }
}

/// The index of the first entry whose key is at least `k`.
pub open spec fn spec_lookup_index(rv: Seq<(u64, Seq<u8>)>, k: u64) -> int
    decreases rv.len(),
{
    if rv.len() == 0 {
        0
    } else if rv[0].0 >= k {
        0
    } else {
        1 + spec_lookup_index(rv.drop_first(), k)
    }
}

/// A prefix of lesser keys followed by a hit pins `spec_lookup_index`.
proof fn lemma_lookup_index_of_first(rv: Seq<(u64, Seq<u8>)>, k: u64, i: int)
    requires
        0 <= i < rv.len(),
        rv[i].0 >= k,
        forall|j: int| 0 <= j < i ==> (#[trigger] rv[j]).0 < k,
    ensures
        spec_lookup_index(rv, k) == i,
    decreases i,
{
    if i > 0 {
        lemma_lookup_index_of_first(rv.drop_first(), k, i - 1);
        assert(forall|j: int|
            0 <= j < rv.drop_first().len() ==> rv.drop_first()[j] == #[trigger] rv[j + 1]);
    }
}

impl HashRing {
    /// A ring fit to serve lookups from: its keys never decrease, so the
    /// first entry with a key at least the hash is the entry with the
    /// smallest such key.
    pub open spec fn wf(self) -> bool {
        ring_sorted(self@)
    }

    /// An empty ring.
    pub fn new() -> (r: HashRing)
        ensures
            r@ =~= Seq::<(u64, Seq<u8>)>::empty(),
            r.wf(),
    {
        let r = HashRing { keys: Vec::new() };
        proof {
            assert(r@ =~= Seq::<(u64, Seq<u8>)>::empty());
        }
        r
    }

    /// A ring holding the given nodes, inserted in order.
    pub fn new_with_nodes(nodes: &Vec<String>) -> (r: HashRing)
        ensures
            r@ == spec_ring_of(nodes.deep_view().map_values(|s: Seq<char>| encode_utf8(s))),
            r.wf(),
    {
        let ghost target = nodes.deep_view().map_values(|s: Seq<char>| encode_utf8(s));
        let mut r = HashRing { keys: Vec::new() };
        let n = nodes.len();
        let mut i: usize = 0;
        proof {
            assert(target.take(0) =~= Seq::<Seq<u8>>::empty());
            assert(r@ =~= spec_ring_of(target.take(0)));
        }
        while i < n
            invariant
                0 <= i <= n,
                n == nodes.len(),
                target == nodes.deep_view().map_values(|s: Seq<char>| encode_utf8(s)),
                target.len() == n,
                r@ == spec_ring_of(target.take(i as int)),
            decreases n - i,
        {
            proof {
                assert(target[i as int] == encode_utf8(nodes@[i as int]@));
                assert(target.take(i + 1).drop_last() =~= target.take(i as int));
                assert(target.take(i + 1).last() == target[i as int]);
            }
            r.add_node(nodes[i].clone());
            i = i + 1;
        }
        proof {
            assert(target.take(n as int) =~= target);
            lemma_ring_of_sorted(target);
        }
        r
    }

    /// Inserts a node at the position that keeps the keys sorted: before
    /// the first entry whose key is at least the node's hash.
    pub fn add_node(&mut self, node: String)
        ensures
            final(self)@ == spec_ring_insert(old(self)@, encode_utf8(node@)),
            old(self).wf() ==> final(self).wf(),
    {
        let ghost before = self@;
        let key = hash_one(node.as_str());
        let n = self.keys.len();
        let mut i: usize = 0;
        while i < n
            invariant
                0 <= i <= n,
                n == self.keys.len(),
                before == old(self)@,
                self@ == before,
                before.len() == n,
                key == xx64_of(encode_utf8(node@)),
                forall|j: int| 0 <= j < i ==> (#[trigger] before[j]).0 < key,
            decreases n - i,
        {
            proof {
                assert(before[i as int] == (self.keys@[i as int].0, encode_utf8(
                    self.keys@[i as int].1@,
                )));
            }
            if self.keys[i].0 >= key {
                proof {
                    lemma_insert_index_of_first(before, key, i as int);
                }
                let ghost ok = self.keys@;
                self.keys.insert(i, (key, node));
                proof {
                    let newv = spec_ring_insert(before, encode_utf8(node@));
                    assert forall|j: int| 0 <= j < self@.len() implies #[trigger] self@[j]
                        == newv[j] by {
                        assert(self@[j] == (self.keys@[j].0, encode_utf8(self.keys@[j].1@)));
                        if j < i as int {
                            assert(self.keys@[j] == ok[j]);
                            assert(before[j] == (ok[j].0, encode_utf8(ok[j].1@)));
                        } else if j > i as int {
                            assert(self.keys@[j] == ok[j - 1]);
                            assert(before[j - 1] == (ok[j - 1].0, encode_utf8(ok[j - 1].1@)));
                        }
                    }
                    assert(self@ =~= newv);
                    if ring_sorted(before) {
                        lemma_ring_insert_sorted(before, encode_utf8(node@));
                    }
                }
                return ;
            }
            i = i + 1;
        }
        proof {
            lemma_insert_index_none(before, key);
        }
        let ghost ok = self.keys@;
        self.keys.insert(n, (key, node));
        proof {
            let newv = spec_ring_insert(before, encode_utf8(node@));
            assert forall|j: int| 0 <= j < self@.len() implies #[trigger] self@[j] == newv[j] by {
                assert(self@[j] == (self.keys@[j].0, encode_utf8(self.keys@[j].1@)));
                if j < n as int {
                    assert(self.keys@[j] == ok[j]);
                    assert(before[j] == (ok[j].0, encode_utf8(ok[j].1@)));
                }
            }
            assert(self@ =~= newv);
            if ring_sorted(before) {
                lemma_ring_insert_sorted(before, encode_utf8(node@));
            }
        }
    }

    /// The node owning the hashed value, as `spec_ring_lookup` says; nothing
    /// exactly when the ring is empty.
    pub fn get_node_for_val<'a>(&'a self, val: &str) -> (r: Option<&'a String>)
        ensures
            match r {
                Some(s) => spec_ring_lookup(self@, xx64_of(encode_utf8(val@))) == Some(
                    encode_utf8(s@),
                ),
                None => self@.len() == 0,
            },
    {
        let n = self.keys.len();
        if n == 0 {
            return None;
        }
        let key = hash_one(val);
        let mut i: usize = 0;
        while i < n
            invariant
                0 <= i <= n,
                n == self.keys.len(),
                n >= 1,
                self@.len() == n,
                key == xx64_of(encode_utf8(val@)),
                forall|j: int| 0 <= j < i ==> (#[trigger] self@[j]).0 < key,
            decreases n - i,
        {
            proof {
                assert(self@[i as int] == (self.keys@[i as int].0, encode_utf8(
                    self.keys@[i as int].1@,
                )));
            }
            if self.keys[i].0 >= key {
                proof {
                    lemma_lookup_index_of_first(self@, key, i as int);
                }
                return Some(&self.keys[i].1);
            }
            i = i + 1;
        }
        proof {
            assert(self@[0] == (self.keys@[0].0, encode_utf8(self.keys@[0].1@)));
            assert(!(exists|j: int| 0 <= j < self@.len() && (#[trigger] self@[j]).0 >= key));
        }
        Some(&self.keys[0].1)
    }
}

/// A prefix of lesser keys followed by a hit pins `spec_insert_index`.
proof fn lemma_insert_index_of_first(rv: Seq<(u64, Seq<u8>)>, k: u64, i: int)
    requires
        0 <= i < rv.len(),
        rv[i].0 >= k,
        forall|j: int| 0 <= j < i ==> (#[trigger] rv[j]).0 < k,
    ensures
        spec_insert_index(rv, k) == i,
    decreases i,
{
    if i > 0 {
        lemma_insert_index_of_first(rv.drop_first(), k, i - 1);
        assert(forall|j: int|
            0 <= j < rv.drop_first().len() ==> rv.drop_first()[j] == #[trigger] rv[j + 1]);
    }
}

/// A ring of lesser keys only puts a new key at the end.
proof fn lemma_insert_index_none(rv: Seq<(u64, Seq<u8>)>, k: u64)
    requires
        forall|j: int| 0 <= j < rv.len() ==> (#[trigger] rv[j]).0 < k,
    ensures
        spec_insert_index(rv, k) == rv.len(),
    decreases rv.len(),
{
    if rv.len() > 0 {
        lemma_insert_index_none(rv.drop_first(), k);
        assert(forall|j: int|
            0 <= j < rv.drop_first().len() ==> rv.drop_first()[j] == #[trigger] rv[j + 1]);
    }
}

/// Where `spec_insert_index` points: past every lesser key, and at an entry
/// whose key is at least `k` when one exists.
proof fn lemma_insert_index_props(rv: Seq<(u64, Seq<u8>)>, k: u64)
    ensures
        0 <= spec_insert_index(rv, k) <= rv.len(),
        forall|j: int| 0 <= j < spec_insert_index(rv, k) ==> (#[trigger] rv[j]).0 < k,
        spec_insert_index(rv, k) < rv.len() ==> rv[spec_insert_index(rv, k)].0 >= k,
    decreases rv.len(),
{
    if rv.len() > 0 && rv[0].0 < k {
        lemma_insert_index_props(rv.drop_first(), k);
        let idx = spec_insert_index(rv, k);
        assert forall|j: int| 0 <= j < idx implies (#[trigger] rv[j]).0 < k by {
            if j > 0 {
                assert(rv.drop_first()[j - 1] == rv[j]);
            }
        }
        if idx < rv.len() {
            assert(rv.drop_first()[idx - 1] == rv[idx]);
        }
    }
}

/// Inserting a node at its `spec_insert_index` position keeps the keys
/// sorted.
proof fn lemma_ring_insert_sorted(rv: Seq<(u64, Seq<u8>)>, node: Seq<u8>)
    requires
        ring_sorted(rv),
    ensures
        ring_sorted(spec_ring_insert(rv, node)),
{
    let k = xx64_of(node);
    let idx = spec_insert_index(rv, k);
    lemma_insert_index_props(rv, k);
    let nv = spec_ring_insert(rv, node);
    assert forall|i: int, j: int| 0 <= i < j < nv.len() implies (#[trigger] nv[i]).0 <= (
    #[trigger] nv[j]).0 by {
        if i < idx {
            assert(nv[i] == rv[i]);
        } else if i > idx {
            assert(nv[i] == rv[i - 1]);
        }
        if j < idx {
            assert(nv[j] == rv[j]);
        } else if j > idx {
            assert(nv[j] == rv[j - 1]);
        }
        if i == idx && j > idx {
            assert(rv[j - 1].0 >= k) by {
                assert(idx <= j - 1 < rv.len());
                assert(rv[idx].0 >= k);
            }
        }
    }
}

/// A ring built by sorted insertions is sorted.
proof fn lemma_ring_of_sorted(nodes: Seq<Seq<u8>>)
    ensures
        ring_sorted(spec_ring_of(nodes)),
    decreases nodes.len(),
{
    if nodes.len() > 0 {
        lemma_ring_of_sorted(nodes.drop_last());
        lemma_ring_insert_sorted(spec_ring_of(nodes.drop_last()), nodes.last());
    }
}

/// Where `spec_lookup_index` points when some key is at least `k`: past
/// every lesser key, at the first entry whose key is at least `k`.
proof fn lemma_lookup_index_props(rv: Seq<(u64, Seq<u8>)>, k: u64)
    requires
        exists|i: int| 0 <= i < rv.len() && (#[trigger] rv[i]).0 >= k,
    ensures
        0 <= spec_lookup_index(rv, k) < rv.len(),
        rv[spec_lookup_index(rv, k)].0 >= k,
        forall|j: int| 0 <= j < spec_lookup_index(rv, k) ==> (#[trigger] rv[j]).0 < k,
    decreases rv.len(),
{
    if rv[0].0 < k {
        let i0 = choose|i: int| 0 <= i < rv.len() && (#[trigger] rv[i]).0 >= k;
        assert(rv.drop_first()[i0 - 1] == rv[i0]);
        lemma_lookup_index_props(rv.drop_first(), k);
        let idx = spec_lookup_index(rv, k);
        assert(rv.drop_first()[idx - 1] == rv[idx]);
        assert forall|j: int| 0 <= j < idx implies (#[trigger] rv[j]).0 < k by {
            if j > 0 {
                assert(rv.drop_first()[j - 1] == rv[j]);
            }
        }
    }
}

/// On a well-formed (sorted) ring the owner of a hash is canonical: when
/// some entry's key is at least the hash, the looked-up entry bears the
/// smallest such key; otherwise the lookup wraps to the first entry, which
/// bears the ring's smallest key.
pub proof fn lemma_ring_lookup_canonical(rv: Seq<(u64, Seq<u8>)>, k: u64)
    requires
        ring_sorted(rv),
        rv.len() > 0,
    ensures
        (exists|i: int| 0 <= i < rv.len() && (#[trigger] rv[i]).0 >= k) ==> {
            let idx = spec_lookup_index(rv, k);
            &&& 0 <= idx < rv.len()
            &&& spec_ring_lookup(rv, k) == Some(rv[idx].1)
            &&& rv[idx].0 >= k
            &&& forall|j: int|
                0 <= j < rv.len() && (#[trigger] rv[j]).0 >= k ==> rv[idx].0 <= rv[j].0
        },
        !(exists|i: int| 0 <= i < rv.len() && (#[trigger] rv[i]).0 >= k) ==> {
            &&& spec_ring_lookup(rv, k) == Some(rv[0].1)
            &&& forall|j: int| 0 <= j < rv.len() ==> rv[0].0 <= (#[trigger] rv[j]).0
        },
{
    if exists|i: int| 0 <= i < rv.len() && (#[trigger] rv[i]).0 >= k {
        lemma_lookup_index_props(rv, k);
        let idx = spec_lookup_index(rv, k);
        assert forall|j: int| 0 <= j < rv.len() && (#[trigger] rv[j]).0 >= k implies rv[idx].0
            <= rv[j].0 by {
            if j < idx {
                assert(rv[j].0 < k);
            }
        }
    }
}

/// Whether a URL already names a scheme: it holds `://` somewhere.
pub open spec fn spec_has_scheme(b: Seq<u8>) -> bool {
    exists|i: int| 0 <= i <= b.len() - 3 && b[i] == 0x3a && b[i + 1] == 0x2f && #[trigger] b[i + 2]
        == 0x2f
}

/// A peer URL normalized: left alone when it names a scheme, prefixed with
/// `http://` otherwise.
pub open spec fn spec_normalize_url(b: Seq<u8>) -> Seq<u8> {
    if spec_has_scheme(b) {
        b
    } else {
        encode_utf8("http://"@) + b
    }
}

/// Whether the string holds `://`.
fn has_scheme(s: &str) -> (r: bool)
    ensures
        r == spec_has_scheme(encode_utf8(s@)),
{
    let b = s.as_bytes();
    let ghost bv = encode_utf8(s@);
    let n = b.len();
    if n < 3 {
        return false;
    }
    let mut i: usize = 0;
    while i <= n - 3
        invariant
            0 <= i,
            i <= n - 2,
            n == b@.len() >= 3,
            b@ == bv,
            bv == encode_utf8(s@),
            forall|j: int|
                0 <= j < i ==> !(bv[j] == 0x3a && bv[j + 1] == 0x2f && #[trigger] bv[j + 2]
                    == 0x2f),
        decreases n - i,
    {
        if b[i] == 0x3a && b[i + 1] == 0x2f && b[i + 2] == 0x2f {
            proof {
                assert(spec_has_scheme(bv)) by {
                    assert(0 <= i as int <= bv.len() - 3);
                    assert(bv[i as int] == 0x3a && bv[i as int + 1] == 0x2f && bv[i as int + 2]
                        == 0x2f);
                }
            }
            return true;
        }
        i = i + 1;
    }
    false
}

/// Normalizes a peer URL as `spec_normalize_url` says.
fn normalize_url(s: String) -> (r: String)
    ensures
        encode_utf8(r@) == spec_normalize_url(encode_utf8(s@)),
{
    if has_scheme(s.as_str()) {
        s
    } else {
        let mut out = String::from_str("http://");
        out.append(s.as_str());
        proof {
            crate::labels::lemma_encode_concat("http://"@, s@);
        }
        out
    }
}

/// The cluster: this gateway's own URL, and the ring of every peer
/// (itself included).
#[derive(Debug)]
pub struct ClusterConfig {
    pub self_url: String,
    pub peers: HashRing,
}

/// The ring a static peer list builds: every peer normalized, then this
/// gateway's own URL added last.
pub open spec fn spec_cluster_ring(self_url: Seq<u8>, peers: Seq<Seq<u8>>) -> Seq<(u64, Seq<u8>)> {
    spec_ring_insert(
        spec_ring_of(peers.map_values(|p: Seq<u8>| spec_normalize_url(p))),
        spec_normalize_url(self_url),
    )
}

impl ClusterConfig {
    /// A cluster from a static peer list: peers and own URL normalized, all
    /// on the ring.
    pub fn new_from_static(self_url: String, peers: Vec<String>) -> (r: ClusterConfig)
        ensures
            encode_utf8(r.self_url@) == spec_normalize_url(encode_utf8(self_url@)),
            r.peers@ == spec_cluster_ring(
                encode_utf8(self_url@),
                peers.deep_view().map_values(|s: Seq<char>| encode_utf8(s)),
            ),
            r.peers.wf(),
    {
        let ghost raw = peers.deep_view().map_values(|s: Seq<char>| encode_utf8(s));
        let mut normalized: Vec<String> = Vec::new();
        let n = peers.len();
        let mut i: usize = 0;
        while i < n
            invariant
                0 <= i <= n,
                n == peers.len(),
                raw == peers.deep_view().map_values(|s: Seq<char>| encode_utf8(s)),
                raw.len() == n,
                normalized@.len() == i,
                forall|j: int|
                    0 <= j < i ==> encode_utf8((#[trigger] normalized@[j])@) == spec_normalize_url(
                        raw[j],
                    ),
            decreases n - i,
        {
            proof {
                assert(raw[i as int] == encode_utf8(peers@[i as int]@));
            }
            normalized.push(normalize_url(peers[i].clone()));
            i = i + 1;
        }
        let self_url2 = normalize_url(self_url);
        let mut ring = HashRing::new_with_nodes(&normalized);
        proof {
            assert(normalized.deep_view().map_values(|s: Seq<char>| encode_utf8(s))
                =~= raw.map_values(|p: Seq<u8>| spec_normalize_url(p)));
        }
        ring.add_node(self_url2.clone());
        ClusterConfig { self_url: self_url2, peers: ring }
    }

    /// Whether a URL is this gateway's own.
    pub fn is_self(&self, url: &str) -> (r: bool)
        ensures
            r == (encode_utf8(url@) == encode_utf8(self.self_url@)),
    {
        str_eq(url, self.self_url.as_str())
    }

    /// The peer owning a push key, by ring lookup on the key's hash.
    pub fn get_peer_for_key<'a>(&'a self, key: &str) -> (r: Option<&'a String>)
        ensures
            match r {
                Some(s) => spec_ring_lookup(self.peers@, xx64_of(encode_utf8(key@))) == Some(
                    encode_utf8(s@),
                ),
                None => self.peers@.len() == 0,
            },
    {
        self.peers.get_node_for_val(key)
    }
}

/// For a fixed peer set the ring is one fixed value, so the owner of any
/// key is determined by the peer list and the key alone.
pub proof fn lemma_owner_deterministic(a: ClusterConfig, b: ClusterConfig, key: Seq<u8>)
    requires
        a.peers@ == b.peers@,
    ensures
        spec_ring_lookup(a.peers@, xx64_of(key)) == spec_ring_lookup(b.peers@, xx64_of(key)),
{
}

} // verus!
