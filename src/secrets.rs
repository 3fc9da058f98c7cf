use vstd::prelude::*;
use vstd::string::StringSliceAdditionalSpecFns;
use crate::chance::random_below;

verus! {

/// The SHA3-256 digest of the bytes `b`.
pub uninterp spec fn sha3_256(b: Seq<u8>) -> Seq<u8>;

/// Relies on sha3's `Sha3_256::digest`: the SHA3-256 digest of `b`, whose
/// output size is 32 bytes.
#[verifier::external_body]
fn sha3_digest(b: &[u8]) -> (r: Vec<u8>)
    ensures
        r@ == sha3_256(b@),
        r@.len() == 32,
{
    <sha3::Sha3_256 as sha3::Digest>::digest(b).to_vec()
}

/// Relies on rand's `Slice` distribution, sampled from `thread_rng`: `len`
/// items, each one of `chars` (`Slice::new` refuses an empty slice).
#[verifier::external_body]
fn sample_chars(chars: &[char], len: usize) -> (r: Vec<char>)
    requires
        chars@.len() > 0,
    ensures
        r@.len() == len,
        forall|i: int| 0 <= i < len ==> chars@.contains(#[trigger] r@[i]),
{
    let d = rand::distributions::Slice::new(chars).unwrap();
    rand::Rng::sample_iter(rand::thread_rng(), &d).take(len).copied().collect()
}

/// An ASCII letter or digit.
pub open spec fn is_alphanumeric(c: char) -> bool {
    ('a' <= c <= 'z') || ('A' <= c <= 'Z') || ('0' <= c <= '9')
}

/// Relies on rand's `Alphanumeric` distribution, sampled from `thread_rng`:
/// `n` characters, each drawn from `A-Z`, `a-z` and `0-9`.
#[verifier::external_body]
fn alphanumeric_chars(n: usize) -> (r: Vec<char>)
    ensures
        r@.len() == n,
        forall|i: int| 0 <= i < n ==> is_alphanumeric(#[trigger] r@[i]),
{
    rand::Rng::sample_iter(rand::thread_rng(), rand::distributions::Alphanumeric).take(n).map(
        char::from,
    ).collect()
}

/// Relies on std's `String: FromIterator<char>`: the characters, in order.
#[verifier::external_body]
fn string_from_chars(cs: Vec<char>) -> (r: String)
    ensures
        r@ == cs@,
{
    cs.into_iter().collect()
}

/// The SHA3-256 digest of the text `text`, in its UTF-8 bytes.
pub fn text_hash(text: &str) -> (r: Vec<u8>)
    ensures
        r@ == sha3_256(text.spec_bytes()),
        r@.len() == 32,
{
    sha3_digest(text.as_bytes())
}

/// A random password of `len` characters drawn from `chars`; `None` when
/// there is nothing to draw from.
pub fn generate_password(len: usize, chars: &[char]) -> (r: Option<String>)
    ensures
        chars@.len() == 0 <==> r is None,
        r is Some ==> r.unwrap()@.len() == len,
        r is Some ==> forall|i: int| 0 <= i < len ==> chars@.contains(#[trigger] r.unwrap()@[i]),
{
    if chars.len() == 0 {
        return None;
    }
    Some(string_from_chars(sample_chars(chars, len)))
}

/// One of the values of `v`, drawn at random; `None` when `v` is empty.
pub fn select_rand_val<T>(v: &[T]) -> (r: Option<&T>)
    ensures
        v@.len() == 0 <==> r is None,
        r is Some ==> v@.contains(*r.unwrap()),
{
    if v.len() == 0 {
        return None;
    }
    let i = random_below(v.len());
    let r = &v[i];
    assert(v@[i as int] == *r);
    Some(r)
}

/// A fresh random access token: 64 ASCII letters and digits.
pub fn new_access_token() -> (r: String)
    ensures
        r@.len() == 64,
        forall|i: int| 0 <= i < 64 ==> is_alphanumeric(#[trigger] r@[i]),
{
    string_from_chars(alphanumeric_chars(64))
}

} // verus!
