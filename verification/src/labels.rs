//! Label sets: ordered sequences of `(name, value)` pairs.
//!
//! Two label sets are match-equal when they hold the same set of pairs,
//! disregarding order.  All specifications are over the UTF-8 bytes of the
//! strings involved.

use vstd::prelude::*;
use vstd::utf8::encode_utf8;

verus! {

/// One `name="value"` pair of a sample.
#[derive(Debug, Clone, PartialEq)]
pub struct Label {
    pub name: String,
    pub value: String,
}

/// The mathematical shadow of a `Label`: both strings as their UTF-8 bytes.
pub ghost struct LabelV {
    pub name: Seq<u8>,
    pub value: Seq<u8>,
}

impl View for Label {
    type V = LabelV;

    open spec fn view(&self) -> LabelV {
        LabelV { name: encode_utf8(self.name@), value: encode_utf8(self.value@) }
    }
}

impl DeepView for Label {
    type V = LabelV;

    open spec fn deep_view(&self) -> LabelV {
        self.view()
    }
}

/// The names of a label sequence, in order.
pub open spec fn names_of(ls: Seq<LabelV>) -> Seq<Seq<u8>> {
    ls.map_values(|l: LabelV| l.name)
}

/// Whether some label in `ls` is named `name`.
pub open spec fn spec_has_label(ls: Seq<LabelV>, name: Seq<u8>) -> bool {
    exists|i: int| 0 <= i < ls.len() && ls[i].name == name
}

/// The index of the first label in `ls` named `name`.
pub open spec fn spec_label_index(ls: Seq<LabelV>, name: Seq<u8>) -> int
    decreases ls.len(),
{
    if ls.len() == 0 {
        0
    } else if ls[0].name == name {
        0
    } else {
        1 + spec_label_index(ls.drop_first(), name)
    }
}

/// The value of the first label in `ls` named `name`.
pub open spec fn spec_label_value(ls: Seq<LabelV>, name: Seq<u8>) -> Seq<u8> {
    ls[spec_label_index(ls, name)].value
}

/// `ls` without its first label named `name` (unchanged when none is).
pub open spec fn spec_remove_label(ls: Seq<LabelV>, name: Seq<u8>) -> Seq<LabelV> {
    if spec_has_label(ls, name) {
        ls.remove(spec_label_index(ls, name))
    } else {
        ls
    }
}

/// Whether the pair `l` stands somewhere in `b`.
pub open spec fn label_in(l: LabelV, b: Seq<LabelV>) -> bool {
    exists|j: int| 0 <= j < b.len() && #[trigger] b[j] == l
}

/// Every pair of `a` also stands in `b`.
pub open spec fn labels_contained(a: Seq<LabelV>, b: Seq<LabelV>) -> bool {
    forall|i: int| 0 <= i < a.len() ==> label_in(#[trigger] a[i], b)
}

/// Match-equality: the same set of pairs, disregarding order.
pub open spec fn labels_match(a: Seq<LabelV>, b: Seq<LabelV>) -> bool {
    labels_contained(a, b) && labels_contained(b, a)
}

/// Encoding splits over concatenation.
pub proof fn lemma_encode_concat(a: Seq<char>, b: Seq<char>)
    ensures
        encode_utf8(a + b) == encode_utf8(a) + encode_utf8(b),
    decreases a.len(),
{
    if a.len() == 0 {
        assert(a + b =~= b);
        assert(encode_utf8(a) + encode_utf8(b) =~= encode_utf8(b));
    } else {
        lemma_encode_concat(a.drop_first(), b);
        assert((a + b).drop_first() =~= a.drop_first() + b);
        assert((a + b)[0] == a[0]);
        assert(encode_utf8(a + b) =~= encode_utf8(a) + encode_utf8(b));
    }
}

/// The UTF-8 bytes of each string of a sequence, in order.
pub open spec fn names_bytes_of(ss: Seq<String>) -> Seq<Seq<u8>> {
    ss.map_values(|s: String| encode_utf8(s@))
}

/// Whether some entry of `names` is the byte string `n`.
pub open spec fn spec_has_name(names: Seq<Seq<u8>>, n: Seq<u8>) -> bool {
    exists|i: int| 0 <= i < names.len() && names[i] == n
}

/// The index of the first entry of `names` that is `n`.
pub open spec fn spec_name_index(names: Seq<Seq<u8>>, n: Seq<u8>) -> int
    decreases names.len(),
{
    if names.len() == 0 {
        0
    } else if names[0] == n {
        0
    } else {
        1 + spec_name_index(names.drop_first(), n)
    }
}

/// `names` without its first entry that is `n` (unchanged when none is).
pub open spec fn spec_remove_name(names: Seq<Seq<u8>>, n: Seq<u8>) -> Seq<Seq<u8>> {
    if spec_has_name(names, n) {
        names.remove(spec_name_index(names, n))
    } else {
        names
    }
}

/// A prefix free of `n` followed by a hit pins `spec_name_index`.
proof fn lemma_name_index_of_first(names: Seq<Seq<u8>>, n: Seq<u8>, i: int)
    requires
        0 <= i < names.len(),
        names[i] == n,
        forall|k: int| 0 <= k < i ==> names[k] != n,
    ensures
        spec_has_name(names, n),
        spec_name_index(names, n) == i,
    decreases i,
{
    if i > 0 {
        lemma_name_index_of_first(names.drop_first(), n, i - 1);
        assert(forall|k: int|
            0 <= k < names.drop_first().len() ==> names.drop_first()[k] == #[trigger] names[k
                + 1]);
    }
}

/// The index of the first string of `v` whose bytes are those of `name`.
pub fn find_name(v: &Vec<String>, name: &str) -> (r: Option<usize>)
    ensures
        match r {
            Some(i) => spec_has_name(names_bytes_of(v@), encode_utf8(name@)) && i
                == spec_name_index(names_bytes_of(v@), encode_utf8(name@)) && i < v.len(),
            None => !spec_has_name(names_bytes_of(v@), encode_utf8(name@)),
        },
{
    let ghost ns = names_bytes_of(v@);
    let ghost target = encode_utf8(name@);
    let n = v.len();
    let mut i: usize = 0;
    while i < n
        invariant
            0 <= i <= n,
            n == v.len(),
            ns == names_bytes_of(v@),
            target == encode_utf8(name@),
            ns.len() == n,
            forall|k: int| 0 <= k < i ==> ns[k] != target,
        decreases n - i,
    {
        proof {
            assert(ns[i as int] == encode_utf8(v@[i as int]@));
        }
        if str_eq(v[i].as_str(), name) {
            proof {
                lemma_name_index_of_first(ns, target, i as int);
            }
            return Some(i);
        }
        i = i + 1;
    }
    None
}

/// Two byte slices hold the same bytes.
pub fn bytes_eq(a: &[u8], b: &[u8]) -> (r: bool)
    ensures
        r == (a@ == b@),
{
    if a.len() != b.len() {
        return false;
    }
    let n = a.len();
    let mut i: usize = 0;
    while i < n
        invariant
            0 <= i <= n,
            n == a@.len() == b@.len(),
            forall|k: int| 0 <= k < i ==> a@[k] == b@[k],
        decreases n - i,
    {
        if a[i] != b[i] {
            return false;
        }
        i = i + 1;
    }
    proof {
        assert(a@ =~= b@);
    }
    true
}

/// Two strings hold the same UTF-8 bytes, equivalently the same characters.
pub fn str_eq(a: &str, b: &str) -> (r: bool)
    ensures
        r == (encode_utf8(a@) == encode_utf8(b@)),
        r == (a@ == b@),
{
    proof {
        vstd::utf8::encode_utf8_decode_utf8(a@);
        vstd::utf8::encode_utf8_decode_utf8(b@);
    }
    bytes_eq(a.as_bytes(), b.as_bytes())
}

impl Label {
    /// Whether two labels agree on both name and value.
    pub fn same(&self, other: &Label) -> (r: bool)
        ensures
            r == (self@ == other@),
    {
        str_eq(self.name.as_str(), other.name.as_str()) && str_eq(
            self.value.as_str(),
            other.value.as_str(),
        )
    }
}

/// The index of the first label named `name`, if any.
pub fn find_label(ls: &Vec<Label>, name: &str) -> (r: Option<usize>)
    ensures
        match r {
            Some(i) => spec_has_label(ls.deep_view(), encode_utf8(name@)) && i
                == spec_label_index(ls.deep_view(), encode_utf8(name@)) && i < ls.len(),
            None => !spec_has_label(ls.deep_view(), encode_utf8(name@)),
        },
{
    let ghost lsv = ls.deep_view();
    let ghost target = encode_utf8(name@);
    let n = ls.len();
    let mut i: usize = 0;
    while i < n
        invariant
            0 <= i <= n,
            n == ls.len(),
            lsv == ls.deep_view(),
            target == encode_utf8(name@),
            lsv.len() == n,
            forall|k: int| 0 <= k < i ==> lsv[k].name != target,
        decreases n - i,
    {
        if str_eq(ls[i].name.as_str(), name) {
            proof {
                lemma_index_of_first(lsv, target, i as int);
            }
            return Some(i);
        }
        i = i + 1;
    }
    None
}

/// A prefix free of `name` followed by a hit pins `spec_label_index`.
proof fn lemma_index_of_first(ls: Seq<LabelV>, name: Seq<u8>, i: int)
    requires
        0 <= i < ls.len(),
        ls[i].name == name,
        forall|k: int| 0 <= k < i ==> ls[k].name != name,
    ensures
        spec_has_label(ls, name),
        spec_label_index(ls, name) == i,
    decreases i,
{
    if i > 0 {
        lemma_index_of_first(ls.drop_first(), name, i - 1);
        assert(forall|k: int|
            0 <= k < ls.drop_first().len() ==> ls.drop_first()[k] == ls[k + 1]);
    }
}

/// The value of the first label named `name`, if any.
pub fn get_label_value<'a>(ls: &'a Vec<Label>, name: &str) -> (r: Option<&'a String>)
    ensures
        match r {
            Some(v) => spec_has_label(ls.deep_view(), encode_utf8(name@)) && encode_utf8(v@)
                == spec_label_value(ls.deep_view(), encode_utf8(name@)),
            None => !spec_has_label(ls.deep_view(), encode_utf8(name@)),
        },
{
    match find_label(ls, name) {
        Some(i) => Some(&ls[i].value),
        None => None,
    }
}

/// Removes the first label named `name`, if any.
pub fn remove_label(ls: &mut Vec<Label>, name: &str)
    ensures
        final(ls).deep_view() == spec_remove_label(old(ls).deep_view(), encode_utf8(name@)),
{
    let ghost before = old(ls).deep_view();
    match find_label(ls, name) {
        Some(i) => {
            ls.remove(i);
            proof {
                assert(ls.deep_view() =~= before.remove(
                    spec_label_index(before, encode_utf8(name@)),
                ));
            }
        },
        None => {
        },
    }
}

/// Whether every pair of `a` also stands in `b`.
fn contained_in(a: &Vec<Label>, b: &Vec<Label>) -> (r: bool)
    ensures
        r == labels_contained(a.deep_view(), b.deep_view()),
{
    let ghost av = a.deep_view();
    let ghost bv = b.deep_view();
    let n = a.len();
    let mut i: usize = 0;
    while i < n
        invariant
            0 <= i <= n,
            n == a.len(),
            av == a.deep_view(),
            bv == b.deep_view(),
            av.len() == n,
            forall|k: int| 0 <= k < i ==> label_in(#[trigger] av[k], bv),
        decreases n - i,
    {
        let m = b.len();
        let mut j: usize = 0;
        let mut found = false;
        while j < m && !found
            invariant
                0 <= j <= m,
                m == b.len(),
                bv == b.deep_view(),
                av == a.deep_view(),
                av.len() == n,
                i < n,
                bv.len() == m,
                found ==> label_in(av[i as int], bv),
                !found ==> forall|jj: int| 0 <= jj < j ==> #[trigger] bv[jj] != av[i as int],
            decreases m - j + (if found {
                0int
            } else {
                1int
            }),
        {
            proof {
                assert(av[i as int] == a@[i as int]@);
                assert(bv[j as int] == b@[j as int]@);
            }
            if a[i].same(&b[j]) {
                found = true;
                proof {
                    assert(bv[j as int] == av[i as int]);
                }
            } else {
                j = j + 1;
            }
        }
        if !found {
            proof {
                assert(!labels_contained(av, bv)) by {
                    assert(0 <= i < av.len());
                    assert(forall|jj: int| 0 <= jj < bv.len() ==> #[trigger] bv[jj] != av[i as int]);
                    assert(!label_in(av[i as int], bv));
                }
            }
            return false;
        }
        i = i + 1;
    }
    true
}

/// Whether `a` and `b` are match-equal: the same pairs, disregarding order.
pub fn labels_match_exec(a: &Vec<Label>, b: &Vec<Label>) -> (r: bool)
    ensures
        r == labels_match(a.deep_view(), b.deep_view()),
{
    contained_in(a, b) && contained_in(b, a)
}

} // verus!
