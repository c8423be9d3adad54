//! Authentication of a webhook request by its signature.

use hmac::Mac;
use vstd::prelude::*;
use vstd::utf8::encode_utf8;

use crate::base64;

verus! {

/// The header of a request that holds its signature.
pub const SIGNATURE_HEADER: &'static str = "x-line-signature";

/// The HMAC-SHA256 tag of `message` under `key`, as the `hmac` and `sha2`
/// crates compute it.
pub uninterp spec fn hmac_sha256(key: Seq<u8>, message: Seq<u8>) -> Seq<u8>;

/// The signature that a request with this body must carry: the base64 text of
/// the body's tag under the secret.
pub open spec fn expected_signature(secret: Seq<u8>, body: Seq<u8>) -> Seq<u8> {
    base64::encoding(hmac_sha256(secret, body))
}

/// A request is authentic where the signature it carries is, byte for byte,
/// the one expected of its body.
pub open spec fn signature_valid(secret: Seq<char>, signature: Seq<char>, body: Seq<u8>) -> bool {
    encode_utf8(signature) == expected_signature(encode_utf8(secret), body)
}

/// Feeds `message` to an `hmac::Hmac<sha2::Sha256>` made from `key` with
/// `new_from_slice`, and hands out the bytes of `finalize`. The tag depends on
/// the key and the message alone. `new_from_slice` takes a key of any length.
#[verifier::external_body]
fn hmac_sha256_tag(key: &[u8], message: &[u8]) -> (tag: Vec<u8>)
    ensures
        tag@ == hmac_sha256(key@, message@),
{
    let mut mac = hmac::Hmac::<sha2::Sha256>::new_from_slice(key).expect(
        "HMAC takes a key of any length",
    );
    mac.update(message);
    mac.finalize().into_bytes().to_vec()
}

/// Tells whether `a` and `b` hold the same bytes. Where they are equally long
/// every byte of both is read, wherever they first differ.
pub fn constant_time_eq(a: &[u8], b: &[u8]) -> (same: bool)
    ensures
        same == (a@ == b@),
{
    let n = a.len();
    if n != b.len() {
        return false;
    }
    let mut differences: u8 = 0;
    let mut i: usize = 0;
    while i < n
        invariant
            n == a@.len(),
            n == b@.len(),
            i <= n,
            differences == 0 <==> (forall|j: int| 0 <= j < i ==> a@[j] == b@[j]),
        decreases n - i,
    {
        let x = a[i];
        let y = b[i];
        let ghost before = differences;
        differences = differences | (x ^ y);
        assert((before | (x ^ y)) == 0 <==> (before == 0 && x == y)) by (bit_vector);
        i += 1;
    }
    assert(differences == 0 ==> a@ =~= b@);
    differences == 0
}

/// The signature that a request with this body carries under
/// `channel_secret`.
pub fn signature_for(channel_secret: &str, body: &[u8]) -> (signature: Vec<u8>)
    ensures
        signature@ == expected_signature(encode_utf8(channel_secret@), body@),
{
    let tag = hmac_sha256_tag(channel_secret.as_bytes(), body);
    base64::encode(tag.as_slice())
}

/// Tells whether `signature` is the signature of `body` under
/// `channel_secret`.
pub fn validate_signature(channel_secret: &str, signature: &str, body: &[u8]) -> (valid: bool)
    ensures
        valid == signature_valid(channel_secret@, signature@, body@),
{
    let expected = signature_for(channel_secret, body);
    constant_time_eq(expected.as_slice(), signature.as_bytes())
}

/// The verdict on a request depends on nothing but its body, the secret and
/// the signature: the same three give the same verdict.
pub proof fn lemma_verdict_repeats(
    secret: Seq<char>,
    signature: Seq<char>,
    body: Seq<u8>,
    secret_again: Seq<char>,
    signature_again: Seq<char>,
    body_again: Seq<u8>,
)
    requires
        secret_again == secret,
        signature_again == signature,
        body_again == body,
    ensures
        signature_valid(secret_again, signature_again, body_again) == signature_valid(
            secret,
            signature,
            body,
        ),
{
}

/// A signature that is valid for `body` is valid for another body exactly
/// where that body has the same tag under the secret: a changed body whose
/// tag differs is rejected.
pub proof fn lemma_signature_binds_body(
    secret: Seq<char>,
    signature: Seq<char>,
    body: Seq<u8>,
    other: Seq<u8>,
)
    requires
        signature_valid(secret, signature, body),
    ensures
        signature_valid(secret, signature, other) <==> hmac_sha256(encode_utf8(secret), other)
            == hmac_sha256(encode_utf8(secret), body),
{
    let key = encode_utf8(secret);
    if signature_valid(secret, signature, other) {
        base64::lemma_encoding_injective(hmac_sha256(key, other), hmac_sha256(key, body));
    }
}

} // verus!
