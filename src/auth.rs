//! Authentication of inbound webhooks by a keyed-hash signature over the
//! raw body.
use vstd::prelude::*;
use vstd::string::StringSliceAdditionalSpecFns;
use vstd::utf8::{encode_utf8, is_ascii_chars, is_ascii_chars_encode_utf8};

use base64::Engine;
use hmac::Mac;

verus! {

/// The HMAC-SHA256 tag of `message` under `key`.
pub uninterp spec fn hmac_sha256_of(key: Seq<u8>, message: Seq<u8>) -> Seq<u8>;

/// The standard base64 text (RFC 4648 alphabet, with padding) of `bytes`.
pub uninterp spec fn base64_standard_of(bytes: Seq<u8>) -> Seq<char>;

/// Relies on hmac's `Hmac<Sha256>` (`new_from_slice`, `update`, `finalize`):
/// the tag of `message` under `key`, 32 bytes as SHA-256's output.
/// `new_from_slice` accepts keys of any length, so the `expect` never fires.
#[verifier::external_body]
fn hmac_sha256(key: &[u8], message: &[u8]) -> (r: Vec<u8>)
    ensures
        r@ == hmac_sha256_of(key@, message@),
        r@.len() == 32,
{
    let mut mac = hmac::Hmac::<sha2::Sha256>::new_from_slice(key).expect("any key length");
    mac.update(message);
    mac.finalize().into_bytes().to_vec()
}

/// A character of the standard base64 alphabet.
pub open spec fn is_base64_char(c: char) -> bool {
    ('A' <= c <= 'Z') || ('a' <= c <= 'z') || ('0' <= c <= '9') || c == '+' || c == '/'
}

/// Padded base64 text of `n` bytes: four characters per started group of
/// three bytes, all from the alphabet but for `=` padding in the last two.
pub open spec fn is_padded_base64(text: Seq<char>, n: nat) -> bool {
    &&& text.len() == 4 * ((n + 2) / 3)
    &&& forall|i: int|
        0 <= i < text.len() ==> is_base64_char(#[trigger] text[i]) || (text[i] == '=' && i
            >= text.len() - 2)
}

/// Relies on base64's `general_purpose::STANDARD.encode`: the padded
/// standard-alphabet text of `bytes`.
#[verifier::external_body]
fn base64_standard(bytes: &[u8]) -> (r: String)
    ensures
        r@ == base64_standard_of(bytes@),
        is_padded_base64(r@, bytes@.len()),
{
    base64::engine::general_purpose::STANDARD.encode(bytes)
}

/// The bytes of the optional label `sha256=` in front of a signature.
pub open spec fn sha256_label() -> Seq<u8> {
    seq![115u8, 104u8, 97u8, 50u8, 53u8, 54u8, 61u8]
}

/// A signature header without its optional `sha256=` label.
pub open spec fn strip_label(signature: Seq<u8>) -> Seq<u8> {
    if signature.len() >= 7 && signature.subrange(0, 7) == sha256_label() {
        signature.subrange(7, signature.len() as int)
    } else {
        signature
    }
}

/// A header matches when it is not empty and, label removed, equals the
/// expected encoded tag byte for byte.
pub open spec fn signature_matches(signature: Seq<u8>, expected: Seq<u8>) -> bool {
    signature.len() > 0 && strip_label(signature) == expected
}

/// The encoded tag that a genuine sender puts in the header: base64 of the
/// HMAC-SHA256 of the raw body under the shared secret.
pub open spec fn expected_signature(body: Seq<u8>, secret: Seq<u8>) -> Seq<u8> {
    encode_utf8(base64_standard_of(hmac_sha256_of(secret, body)))
}

proof fn lemma_or_xor_zero(d: u8, x: u8, y: u8)
    ensures
        (d | (x ^ y)) == 0 <==> (d == 0 && x == y),
{
    assert((d | (x ^ y)) == 0 <==> (d == 0 && x == y)) by (bit_vector);
}

/// Compares `a[start..]` with `b` in time that depends on the lengths only.
fn ct_eq_from(a: &[u8], start: usize, b: &[u8]) -> (r: bool)
    requires
        start <= a@.len(),
    ensures
        r == (a@.subrange(start as int, a@.len() as int) == b@),
{
    let a_len = a.len();
    if a_len - start != b.len() {
        assert(a@.subrange(start as int, a@.len() as int).len() != b@.len());
        return false;
    }
    let mut diff: u8 = 0;
    let mut i: usize = 0;
    while i < b.len()
        invariant
            a_len == a@.len(),
            start + b@.len() == a@.len(),
            0 <= i <= b@.len(),
            (diff == 0) <==> (forall|j: int| 0 <= j < i ==> a@[start + j] == #[trigger] b@[j]),
        decreases b@.len() - i,
    {
        let old_diff = diff;
        proof {
            lemma_or_xor_zero(old_diff, a@[start + i], b@[i as int]);
        }
        diff = diff | (a[start + i] ^ b[i]);
        i = i + 1;
        assert((diff == 0) <==> (forall|j: int| 0 <= j < i ==> a@[start + j] == #[trigger] b@[j]))
            by {
            if diff == 0 {
                assert forall|j: int| 0 <= j < i implies a@[start + j] == #[trigger] b@[j] by {
                    if j < i - 1 {
                    }
                }
            }
        }
    }
    let r = diff == 0;
    if r {
        assert(a@.subrange(start as int, a@.len() as int) =~= b@);
    } else {
        assert(!(a@.subrange(start as int, a@.len() as int) == b@)) by {
            if a@.subrange(start as int, a@.len() as int) == b@ {
                assert forall|j: int| 0 <= j < b@.len() implies a@[start + j] == #[trigger] b@[j] by {
                    assert(a@.subrange(start as int, a@.len() as int)[j] == a@[start + j]);
                }
            }
        }
    }
    r
}

/// Tells whether a signature header matches the expected encoded tag: it
/// must not be empty, and once an optional `sha256=` label is removed it
/// must equal `expected` exactly. The comparison is constant-time.
pub fn check_signature(signature: &str, expected: &str) -> (r: bool)
    ensures
        r == signature_matches(signature.spec_bytes(), expected.spec_bytes()),
{
    let sig = signature.as_bytes();
    let exp = expected.as_bytes();
    if sig.len() == 0 {
        return false;
    }
    let labelled = sig.len() >= 7 && sig[0] == 115u8 && sig[1] == 104u8 && sig[2] == 97u8 && sig[3]
        == 50u8 && sig[4] == 53u8 && sig[5] == 54u8 && sig[6] == 61u8;
    if labelled {
        assert(sig@.subrange(0, 7) =~= sha256_label());
        ct_eq_from(sig, 7, exp)
    } else {
        assert(!(sig@.len() >= 7 && sig@.subrange(0, 7) == sha256_label())) by {
            if sig@.len() >= 7 && sig@.subrange(0, 7) == sha256_label() {
                assert(sig@[0] == sig@.subrange(0, 7)[0]);
                assert(sig@[1] == sig@.subrange(0, 7)[1]);
                assert(sig@[2] == sig@.subrange(0, 7)[2]);
                assert(sig@[3] == sig@.subrange(0, 7)[3]);
                assert(sig@[4] == sig@.subrange(0, 7)[4]);
                assert(sig@[5] == sig@.subrange(0, 7)[5]);
                assert(sig@[6] == sig@.subrange(0, 7)[6]);
            }
        }
        assert(sig@.subrange(0, sig@.len() as int) =~= sig@);
        ct_eq_from(sig, 0, exp)
    }
}

/// Verifies a webhook signature header against the raw body: accepted
/// exactly when the header is not empty and, without its optional
/// `sha256=` label, equals the base64 HMAC-SHA256 of the body under
/// `secret`.
///
/// So the correct tag is accepted both bare and behind the label.
pub fn verify_zenobia_signature(body: &[u8], signature: &str, secret: &str) -> (r: bool)
    ensures
        r == signature_matches(signature.spec_bytes(), expected_signature(body@, secret.spec_bytes())),
        signature.spec_bytes() == expected_signature(body@, secret.spec_bytes()) ==> r,
        signature.spec_bytes() == sha256_label() + expected_signature(body@, secret.spec_bytes())
            ==> r,
{
    let tag = hmac_sha256(secret.as_bytes(), body);
    let expected = base64_standard(tag.as_slice());
    proof {
        lemma_tag_text_is_unlabelled(expected@);
        let e = encode_utf8(expected@);
        let labelled = sha256_label() + e;
        assert(labelled.subrange(0, 7) =~= sha256_label());
        assert(labelled.subrange(7, labelled.len() as int) =~= e);
    }
    check_signature(signature, expected.as_str())
}

/// The base64 text of a 32-byte tag is 44 ASCII characters that cannot
/// begin with the `sha256=` label, so it is its own stripped form.
proof fn lemma_tag_text_is_unlabelled(text: Seq<char>)
    requires
        is_padded_base64(text, 32),
    ensures
        encode_utf8(text).len() == 44,
        strip_label(encode_utf8(text)) == encode_utf8(text),
{
    assert(is_ascii_chars(text)) by {
        assert forall|i: int| 0 <= i < text.len() implies '\0' <= #[trigger] text[i] <= '\u{7f}' by {
            assert(is_base64_char(text[i]) || text[i] == '=');
        }
    }
    is_ascii_chars_encode_utf8(text);
    let e = encode_utf8(text);
    assert(is_base64_char(text[6]));
    assert(e[6] == text[6] as u8);
    assert(e[6] != 61u8);
    assert(e.subrange(0, 7)[6] == e[6]);
    assert(e.subrange(0, 7) != sha256_label());
}

} // verus!
