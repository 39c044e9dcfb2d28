//! The signature check: a header value of the form `<algo>=<hex digest>`
//! is held against the HMAC of the request body under the shared secret.

use hex::FromHex;
use vstd::prelude::*;

verus! {

/// Why a signature header was not accepted.
#[derive(Clone, Copy, Debug, PartialEq, Eq)]
pub enum VerifyError {
    /// The header does not split on `=` into exactly two fields.
    MalformedHeader,
    /// The algorithm field is not `sha1`.
    UnsupportedAlgorithm,
    /// The digest field is not an even-length run of hex digits.
    MalformedSignature,
    /// The digest is not the HMAC of the body under the secret.
    SignatureMismatch,
}

/// The HMAC-SHA1 tag of `msg` under `key`.
pub uninterp spec fn hmac_sha1(key: Seq<u8>, msg: Seq<u8>) -> Seq<u8>;

/// The byte that separates the algorithm from the digest.
pub open spec fn is_separator(c: u8) -> bool {
    c == ('=' as u8)
}

/// `h` holds exactly one separator, at position `i`.
pub open spec fn single_separator_at(h: Seq<u8>, i: int) -> bool {
    &&& 0 <= i < h.len()
    &&& is_separator(h[i])
    &&& forall|j: int| 0 <= j < h.len() && j != i ==> !is_separator(#[trigger] h[j])
}

pub open spec fn has_single_separator(h: Seq<u8>) -> bool {
    exists|i: int| single_separator_at(h, i)
}

/// The position of the one separator of `h`.
pub open spec fn separator_index(h: Seq<u8>) -> int {
    choose|i: int| single_separator_at(h, i)
}

/// The algorithm field of a header with a single separator.
pub open spec fn algorithm_field(h: Seq<u8>) -> Seq<u8> {
    h.take(separator_index(h))
}

/// The digest field of a header with a single separator.
pub open spec fn digest_field(h: Seq<u8>) -> Seq<u8> {
    h.skip(separator_index(h) + 1)
}

/// The only algorithm name accepted.
pub open spec fn sha1_name() -> Seq<u8> {
    seq![('s' as u8), ('h' as u8), ('a' as u8), ('1' as u8)]
}

/// The value of a hex digit of either case.
pub open spec fn hex_digit_value(c: u8) -> Option<u8> {
    if ('0' as u8) <= c <= ('9' as u8) {
        Some((c - ('0' as u8)) as u8)
    } else if ('a' as u8) <= c <= ('f' as u8) {
        Some((c - ('a' as u8) + 10) as u8)
    } else if ('A' as u8) <= c <= ('F' as u8) {
        Some((c - ('A' as u8) + 10) as u8)
    } else {
        None
    }
}

/// Hex text read as bytes, two digits (high nibble first) to a byte;
/// `None` for an odd length or a character that is not a hex digit.
pub open spec fn hex_decode(s: Seq<u8>) -> Option<Seq<u8>>
    decreases s.len(),
{
    if s.len() == 0 {
        Some(Seq::empty())
    } else if s.len() == 1 {
        None
    } else {
        match (hex_digit_value(s[0]), hex_digit_value(s[1]), hex_decode(s.skip(2))) {
            (Some(hi), Some(lo), Some(rest)) => Some(seq![(hi * 16 + lo) as u8] + rest),
            _ => None,
        }
    }
}

/// The lowercase hex digit for a nibble.
pub open spec fn hex_digit(n: u8) -> u8 {
    if n < 10 {
        (('0' as u8) + n) as u8
    } else {
        (('a' as u8) + n - 10) as u8
    }
}

/// Bytes written as lowercase hex, high nibble first.
pub open spec fn hex_encode(b: Seq<u8>) -> Seq<u8>
    decreases b.len(),
{
    if b.len() == 0 {
        Seq::empty()
    } else {
        seq![hex_digit(b[0] / 16), hex_digit(b[0] % 16)] + hex_encode(b.skip(1))
    }
}

/// The header value a sender writes for the tag `tag`: `sha1=<lowercase hex>`.
pub open spec fn signed_header(tag: Seq<u8>) -> Seq<u8> {
    sha1_name() + seq![('=' as u8)] + hex_encode(tag)
}

/// The outcome of checking header `h` for `body` under the secret `key`.
pub open spec fn check_spec(key: Seq<u8>, body: Seq<u8>, h: Seq<u8>) -> Result<(), VerifyError> {
    if !has_single_separator(h) {
        Err(VerifyError::MalformedHeader)
    } else if algorithm_field(h) != sha1_name() {
        Err(VerifyError::UnsupportedAlgorithm)
    } else {
        match hex_decode(digest_field(h)) {
            None => Err(VerifyError::MalformedSignature),
            Some(tag) => if tag == hmac_sha1(key, body) {
                Ok(())
            } else {
                Err(VerifyError::SignatureMismatch)
            },
        }
    }
}

proof fn lemma_hex_digit_round_trip(n: u8)
    requires
        n < 16,
    ensures
        hex_digit_value(hex_digit(n)) == Some(n),
        !is_separator(hex_digit(n)),
{
}

proof fn lemma_hex_encode_has_no_separator(b: Seq<u8>)
    ensures
        hex_encode(b).len() == 2 * b.len(),
        forall|j: int| 0 <= j < hex_encode(b).len() ==> !is_separator(#[trigger] hex_encode(b)[j]),
    decreases b.len(),
{
    if b.len() > 0 {
        lemma_hex_digit_round_trip(b[0] / 16);
        lemma_hex_digit_round_trip(b[0] % 16);
        lemma_hex_encode_has_no_separator(b.skip(1));
        let e = hex_encode(b);
        let rest = hex_encode(b.skip(1));
        assert forall|j: int| 0 <= j < e.len() implies !is_separator(#[trigger] e[j]) by {
            if j >= 2 {
                assert(e[j] == rest[j - 2]);
            }
        }
    }
}

/// Reading back what `hex_encode` wrote gives the same bytes.
pub proof fn lemma_hex_round_trip(b: Seq<u8>)
    ensures
        hex_decode(hex_encode(b)) == Some(b),
    decreases b.len(),
{
    if b.len() > 0 {
        let hi = b[0] / 16;
        let lo = b[0] % 16;
        lemma_hex_digit_round_trip(hi);
        lemma_hex_digit_round_trip(lo);
        lemma_hex_round_trip(b.skip(1));
        let e = hex_encode(b);
        assert(e.skip(2) =~= hex_encode(b.skip(1)));
        assert((hi * 16 + lo) as u8 == b[0]);
        assert(seq![b[0]] + b.skip(1) =~= b);
    }
}

/// A header that a sender builds from the HMAC of the body under the
/// shared secret, as `sha1=<lowercase hex>`, is accepted.
pub proof fn lemma_signed_header_accepted(key: Seq<u8>, body: Seq<u8>)
    ensures
        check_spec(key, body, signed_header(hmac_sha1(key, body))) == Ok::<(), VerifyError>(()),
{
    let tag = hmac_sha1(key, body);
    let h = signed_header(tag);
    let e = hex_encode(tag);
    lemma_hex_encode_has_no_separator(tag);
    lemma_hex_round_trip(tag);
    assert forall|j: int| 0 <= j < h.len() && j != 4 implies !is_separator(#[trigger] h[j]) by {
        if j > 4 {
            assert(h[j] == e[j - 5]);
        }
    }
    assert(single_separator_at(h, 4));
    assert(separator_index(h) == 4);
    assert(algorithm_field(h) =~= sha1_name());
    assert(digest_field(h) =~= e);
}

/// The header made for one body is refused as a mismatch for any other
/// body whose tag under the same secret differs from the first one's.
pub proof fn lemma_other_tag_mismatch(key: Seq<u8>, body: Seq<u8>, other: Seq<u8>)
    requires
        hmac_sha1(key, other) != hmac_sha1(key, body),
    ensures
        check_spec(key, other, signed_header(hmac_sha1(key, body))) == Err::<(), VerifyError>(
            VerifyError::SignatureMismatch,
        ),
{
    let tag = hmac_sha1(key, body);
    let h = signed_header(tag);
    let e = hex_encode(tag);
    lemma_hex_encode_has_no_separator(tag);
    lemma_hex_round_trip(tag);
    assert forall|j: int| 0 <= j < h.len() && j != 4 implies !is_separator(#[trigger] h[j]) by {
        if j > 4 {
            assert(h[j] == e[j - 5]);
        }
    }
    assert(single_separator_at(h, 4));
    assert(separator_index(h) == 4);
    assert(algorithm_field(h) =~= sha1_name());
    assert(digest_field(h) =~= e);
}

/// A header with no `=`, or with more than one, is malformed, whatever the
/// body and the secret.
pub proof fn lemma_separator_count_malformed(key: Seq<u8>, body: Seq<u8>, h: Seq<u8>)
    requires
        (forall|j: int| 0 <= j < h.len() ==> !is_separator(#[trigger] h[j])) || (exists|
            a: int,
            b: int,
        | 0 <= a < b < h.len() && is_separator(#[trigger] h[a]) && is_separator(#[trigger] h[b])),
    ensures
        check_spec(key, body, h) == Err::<(), VerifyError>(VerifyError::MalformedHeader),
{
    if has_single_separator(h) {
        let i = separator_index(h);
        assert(is_separator(h[i]));
        if exists|a: int, b: int|
            0 <= a < b < h.len() && is_separator(#[trigger] h[a]) && is_separator(#[trigger] h[b]) {
            let (a, b) = choose|a: int, b: int|
                0 <= a < b < h.len() && is_separator(#[trigger] h[a]) && is_separator(
                    #[trigger] h[b],
                );
            if a == i {
                assert(is_separator(h[b]));
            } else {
                assert(is_separator(h[a]));
            }
        }
    }
}

/// With exactly one `=`, an algorithm name other than `sha1` is refused as
/// unsupported, whatever the digest field holds.
pub proof fn lemma_unknown_algorithm_unsupported(key: Seq<u8>, body: Seq<u8>, h: Seq<u8>, i: int)
    requires
        single_separator_at(h, i),
        h.take(i) != sha1_name(),
    ensures
        check_spec(key, body, h) == Err::<(), VerifyError>(VerifyError::UnsupportedAlgorithm),
{
    assert(separator_index(h) == i);
}

/// Relies on hex's `FromHex for Vec<u8>`: an even-length run of hex digits
/// of either case becomes its bytes, high nibble first; anything else is an
/// error.
#[verifier::external_body]
fn decode_hex(s: &[u8]) -> (r: Option<Vec<u8>>)
    ensures
        match r {
            Some(v) => hex_decode(s@) == Some(v@),
            None => hex_decode(s@) is None,
        },
{
    Vec::<u8>::from_hex(s).ok()
}

/// Relies on ring's `hmac::verify` under `HMAC_SHA1_FOR_LEGACY_USE_ONLY`:
/// it accepts `tag` exactly when it equals the HMAC-SHA1 of `msg` under
/// `key`, and compares the two in constant time.
#[verifier::external_body]
fn hmac_sha1_matches(key: &[u8], msg: &[u8], tag: &[u8]) -> (r: bool)
    ensures
        r == (tag@ == hmac_sha1(key@, msg@)),
{
    let k = ring::hmac::Key::new(ring::hmac::HMAC_SHA1_FOR_LEGACY_USE_ONLY, key);
    ring::hmac::verify(&k, msg, tag).is_ok()
}

/// Checks signature headers against one shared secret.
#[derive(Clone, Debug)]
pub struct Verifier {
    pub key: Vec<u8>,
}

impl Verifier {
    pub fn new(key: Vec<u8>) -> (r: Verifier)
        ensures
            r.key@ == key@,
    {
        Verifier { key }
    }

    /// Checks the header `value` against `body`: the header must split on
    /// `=` into exactly two fields, name `sha1`, and carry the hex of the
    /// HMAC-SHA1 of `body` under the secret.
    pub fn check(&self, body: &[u8], value: &[u8]) -> (r: Result<(), VerifyError>)
        ensures
            r == check_spec(self.key@, body@, value@),
    {
        let n = value.len();
        let mut i: usize = 0;
        while i < n && value[i] != ('=' as u8)
            invariant
                i <= n,
                n == value@.len(),
                forall|j: int| 0 <= j < i ==> !is_separator(#[trigger] value@[j]),
            decreases n - i,
        {
            i = i + 1;
        }
        if i == n {
            assert forall|k: int| !single_separator_at(value@, k) by {
                if 0 <= k < value@.len() {
                    assert(!is_separator(value@[k]));
                }
            }
            return Err(VerifyError::MalformedHeader);
        }
        let mut k: usize = i + 1;
        while k < n && value[k] != ('=' as u8)
            invariant
                i < k <= n,
                n == value@.len(),
                forall|j: int| i < j < k ==> !is_separator(#[trigger] value@[j]),
            decreases n - k,
        {
            k = k + 1;
        }
        if k < n {
            assert forall|m: int| !single_separator_at(value@, m) by {
                if single_separator_at(value@, m) {
                    if m == i as int {
                        assert(is_separator(value@[k as int]));
                    } else {
                        assert(is_separator(value@[i as int]));
                    }
                }
            }
            return Err(VerifyError::MalformedHeader);
        }
        assert(single_separator_at(value@, i as int));
        assert(separator_index(value@) == i as int);
        let algo = &value[0..i];
        let digest = &value[i + 1..n];
        assert(algo@ == algorithm_field(value@));
        assert(digest@ == digest_field(value@));
        if !(algo.len() == 4 && algo[0] == ('s' as u8) && algo[1] == ('h' as u8) && algo[2] == ('a' as u8) && algo[3]
            == ('1' as u8)) {
            assert(algo@ != sha1_name());
            return Err(VerifyError::UnsupportedAlgorithm);
        }
        assert(algo@ =~= sha1_name());
        match decode_hex(digest) {
            None => Err(VerifyError::MalformedSignature),
            Some(tag) => {
                if hmac_sha1_matches(self.key.as_slice(), body, tag.as_slice()) {
                    Ok(())
                } else {
                    Err(VerifyError::SignatureMismatch)
                }
            },
        }
    }
}

} // verus!
