//! Authentication of pushes: a pass-through authenticator, and a basic one
//! that checks the pushed credential against a list of bcrypt hashes.

use vstd::prelude::*;
use vstd::utf8::{encode_utf8, valid_utf8};
use crate::errors::AuthError;

verus! {

pub uninterp spec fn base64_decode_of(s: Seq<u8>) -> Option<Seq<u8>>;

/// Relies on `base64::decode` (standard alphabet): whether and to what the
/// input decodes depends on its bytes alone.
#[verifier::external_body]
fn base64_decode(s: &[u8]) -> (r: Option<Vec<u8>>)
    ensures
        match r {
            Some(v) => base64_decode_of(s@) == Some(v@),
            None => base64_decode_of(s@) is None,
        },
{
    base64::decode(s).ok()
}

pub uninterp spec fn bcrypt_accepts(password: Seq<u8>, hash: Seq<u8>) -> bool;

/// Relies on `bcrypt::verify`: whether a password matches a hash depends on
/// the two alone.  A malformed hash counts as no match.
#[verifier::external_body]
fn bcrypt_verify(password: &[u8], hash: &str) -> (r: bool)
    ensures
        r == bcrypt_accepts(password@, encode_utf8(hash@)),
{
    bcrypt::verify(password, hash).unwrap_or(false)
}

/// Relies on `std::str::from_utf8`: it accepts exactly the valid UTF-8 byte
/// strings.
#[verifier::external_body]
fn utf8_valid(v: &[u8]) -> (r: bool)
    ensures
        r == valid_utf8(v@),
{
    std::str::from_utf8(v).is_ok()
}

/// Whether a byte is ASCII whitespace, as `str::split_ascii_whitespace`
/// sees it.
pub open spec fn spec_is_ws(b: u8) -> bool {
    b == 0x20 || b == 0x09 || b == 0x0a || b == 0x0c || b == 0x0d
}

/// The bytes with their leading whitespace dropped.
pub open spec fn spec_skip_ws(b: Seq<u8>) -> Seq<u8>
    decreases b.len(),
{
    if b.len() > 0 && spec_is_ws(b[0]) {
        spec_skip_ws(b.drop_first())
    } else {
        b
    }
}

/// The leading run of non-whitespace bytes.
pub open spec fn spec_take_word(b: Seq<u8>) -> Seq<u8>
    decreases b.len(),
{
    if b.len() > 0 && !spec_is_ws(b[0]) {
        seq![b[0]] + spec_take_word(b.drop_first())
    } else {
        Seq::<u8>::empty()
    }
}

/// The bytes with their leading non-whitespace run dropped.
pub open spec fn spec_drop_word(b: Seq<u8>) -> Seq<u8>
    decreases b.len(),
{
    if b.len() > 0 && !spec_is_ws(b[0]) {
        spec_drop_word(b.drop_first())
    } else {
        b
    }
}

/// The second whitespace-separated word of a header, if there is one: for
/// `Basic <token>` that is the token.
pub open spec fn spec_second_word(b: Seq<u8>) -> Option<Seq<u8>> {
    let tail = spec_skip_ws(spec_drop_word(spec_skip_ws(b)));
    let w = spec_take_word(tail);
    if w.len() == 0 {
        None
    } else {
        Some(w)
    }
}

/// The index of the first colon in the bytes, or their length when none.
pub open spec fn spec_colon_index(b: Seq<u8>) -> int
    decreases b.len(),
{
    if b.len() == 0 {
        0
    } else if b[0] == 0x3a {
        0
    } else {
        1 + spec_colon_index(b.drop_first())
    }
}

/// The password a token denotes: the part after the first colon of its
/// base64-decoded text when that text is UTF-8 and holds a colon; the whole
/// decoded text when it is UTF-8 without a colon; the raw token otherwise.
pub open spec fn spec_password_of(token: Seq<u8>) -> Seq<u8> {
    match base64_decode_of(token) {
        Some(decoded) => if valid_utf8(decoded) {
            if spec_colon_index(decoded) < decoded.len() {
                decoded.skip(spec_colon_index(decoded) + 1)
            } else {
                decoded
            }
        } else {
            token
        },
        None => token,
    }
}

/// Whether a header passes basic authentication against the hashes: its
/// second word, decoded to a password, matches some hash.
pub open spec fn spec_basic_auth(header: Seq<u8>, hashes: Seq<Seq<u8>>) -> bool {
    match spec_second_word(header) {
        None => false,
        Some(token) => exists|i: int|
            0 <= i < hashes.len() && bcrypt_accepts(spec_password_of(token), #[trigger] hashes[i]),
    }
}

/// Drops leading ASCII whitespace.
fn skip_ws(b: &[u8]) -> (r: &[u8])
    ensures
        r@ == spec_skip_ws(b@),
    decreases b@.len(),
{
    if b.len() > 0 && (b[0] == 0x20 || b[0] == 0x09 || b[0] == 0x0a || b[0] == 0x0c || b[0]
        == 0x0d) {
        let t = &b[1..b.len()];
        proof {
            assert(t@ =~= b@.drop_first());
        }
        skip_ws(t)
    } else {
        b
    }
}

/// Splits off the leading non-whitespace word.
fn split_word(b: &[u8]) -> (r: (&[u8], &[u8]))
    ensures
        r.0@ == spec_take_word(b@),
        r.1@ == spec_drop_word(b@),
{
    let n = b.len();
    let mut i: usize = 0;
    while i < n && !(b[i] == 0x20 || b[i] == 0x09 || b[i] == 0x0a || b[i] == 0x0c || b[i] == 0x0d)
        invariant
            0 <= i <= n,
            n == b@.len(),
            forall|j: int| 0 <= j < i ==> !spec_is_ws(#[trigger] b@[j]),
        decreases n - i,
    {
        i = i + 1;
    }
    let w = &b[0..i];
    let rest = &b[i..b.len()];
    proof {
        assert(w@ =~= b@.take(i as int));
        assert(rest@ =~= b@.skip(i as int));
        lemma_word_split(b@, i as int);
    }
    (w, rest)
}

/// A whitespace-free prefix ending at whitespace (or the end) is the
/// leading word.
proof fn lemma_word_split(b: Seq<u8>, i: int)
    requires
        0 <= i <= b.len(),
        forall|j: int| 0 <= j < i ==> !spec_is_ws(#[trigger] b[j]),
        i < b.len() ==> spec_is_ws(b[i]),
    ensures
        spec_take_word(b) == b.take(i),
        spec_drop_word(b) == b.skip(i),
    decreases i,
{
    if i == 0 {
        assert(b.take(0) =~= Seq::<u8>::empty());
        assert(b.skip(0) =~= b);
    } else {
        lemma_word_split(b.drop_first(), i - 1);
        assert(forall|j: int|
            0 <= j < b.drop_first().len() ==> b.drop_first()[j] == #[trigger] b[j + 1]);
        assert(b.drop_first().take(i - 1) =~= b.take(i).drop_first());
        assert(b.drop_first().skip(i - 1) =~= b.skip(i));
        assert(spec_take_word(b) =~= b.take(i)) by {
            assert(spec_take_word(b) == seq![b[0]] + spec_take_word(b.drop_first()));
        }
    }
}

/// The index of the first colon, or the length when none.
fn find_colon(b: &[u8]) -> (r: usize)
    ensures
        r == spec_colon_index(b@),
        r <= b@.len(),
    decreases b@.len(),
{
    let n = b.len();
    let mut i: usize = 0;
    while i < n
        invariant
            0 <= i <= n,
            n == b@.len(),
            forall|j: int| 0 <= j < i ==> #[trigger] b@[j] != 0x3a,
        decreases n - i,
    {
        if b[i] == 0x3a {
            proof {
                lemma_colon_of_first(b@, i as int);
            }
            return i;
        }
        i = i + 1;
    }
    proof {
        lemma_colon_none(b@);
    }
    n
}

/// A colon-free prefix followed by a colon pins `spec_colon_index`.
proof fn lemma_colon_of_first(b: Seq<u8>, i: int)
    requires
        0 <= i < b.len(),
        b[i] == 0x3a,
        forall|j: int| 0 <= j < i ==> #[trigger] b[j] != 0x3a,
    ensures
        spec_colon_index(b) == i,
    decreases i,
{
    if i > 0 {
        lemma_colon_of_first(b.drop_first(), i - 1);
        assert(forall|j: int|
            0 <= j < b.drop_first().len() ==> b.drop_first()[j] == #[trigger] b[j + 1]);
    }
}

/// Colon-free bytes index at their length.
proof fn lemma_colon_none(b: Seq<u8>)
    requires
        forall|j: int| 0 <= j < b.len() ==> #[trigger] b[j] != 0x3a,
    ensures
        spec_colon_index(b) == b.len(),
    decreases b.len(),
{
    if b.len() > 0 {
        lemma_colon_none(b.drop_first());
        assert(forall|j: int|
            0 <= j < b.drop_first().len() ==> b.drop_first()[j] == #[trigger] b[j + 1]);
    }
}

/// An authenticator over the push's `Authorization` header value.
pub trait Authenticator {
    fn authenticate(&self, header: &str) -> Result<bool, AuthError>;
}

/// The basic authenticator: a list of allowed bcrypt hashes.
#[derive(Debug)]
pub struct BasicAuthenticator {
    pub allowed_hashes: Vec<String>,
}

impl BasicAuthenticator {
    /// Whether the header's credential matches any allowed hash, as
    /// `spec_basic_auth` says.
    pub fn check(&self, header: &str) -> (r: bool)
        ensures
            r == spec_basic_auth(
                encode_utf8(header@),
                crate::labels::names_bytes_of(self.allowed_hashes@),
            ),
    {
        let ghost hv = crate::labels::names_bytes_of(self.allowed_hashes@);
        let b = header.as_bytes();
        let after_first = split_word(skip_ws(b)).1;
        let (token, _) = split_word(skip_ws(after_first));
        if token.len() == 0 {
            return false;
        }
        let password: Vec<u8> = match base64_decode(token) {
            Some(decoded) => {
                if utf8_valid(decoded.as_slice()) {
                    let ci = find_colon(decoded.as_slice());
                    if ci < decoded.len() {
                        let tail = &decoded.as_slice()[ci + 1..decoded.len()];
                        proof {
                            assert(tail@ =~= decoded@.skip(spec_colon_index(decoded@) + 1));
                        }
                        vstd::slice::slice_to_vec(tail)
                    } else {
                        decoded
                    }
                } else {
                    vstd::slice::slice_to_vec(token)
                }
            },
            None => vstd::slice::slice_to_vec(token),
        };
        proof {
            assert(password@ == spec_password_of(token@));
        }
        let n = self.allowed_hashes.len();
        let mut i: usize = 0;
        while i < n
            invariant
                0 <= i <= n,
                n == self.allowed_hashes.len(),
                hv == crate::labels::names_bytes_of(self.allowed_hashes@),
                hv.len() == n,
                password@ == spec_password_of(spec_second_word(encode_utf8(header@)).unwrap()),
                spec_second_word(encode_utf8(header@)) is Some,
                forall|j: int| 0 <= j < i ==> !bcrypt_accepts(password@, #[trigger] hv[j]),
            decreases n - i,
        {
            proof {
                assert(hv[i as int] == encode_utf8(self.allowed_hashes@[i as int]@));
            }
            if bcrypt_verify(password.as_slice(), self.allowed_hashes[i].as_str()) {
                return true;
            }
            i = i + 1;
        }
        false
    }
}

impl Authenticator for BasicAuthenticator {
    fn authenticate(&self, header: &str) -> Result<bool, AuthError> {
        Ok(self.check(header))
    }
}

/// The authenticator that lets every push through.
#[derive(Debug)]
pub struct PassThroughAuthenticator {}

impl PassThroughAuthenticator {
    /// Accepts every header: the result is always true.
    pub fn check(&self, _header: &str) -> (r: bool)
        ensures
            r,
    {
        true
    }
}

impl Authenticator for PassThroughAuthenticator {
    fn authenticate(&self, header: &str) -> Result<bool, AuthError> {
        Ok(self.check(header))
    }
}

/// A basic authenticator over the given bcrypt hashes, one credential per
/// entry.
pub fn basic_auth(allowed_hashes: Vec<String>) -> (r: BasicAuthenticator)
    ensures
        r.allowed_hashes == allowed_hashes,
{
    BasicAuthenticator { allowed_hashes }
}

/// An authenticator that accepts everything.
pub fn pass_through_auth() -> PassThroughAuthenticator {
    PassThroughAuthenticator {  }
}

} // verus!
