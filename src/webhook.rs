//! The inbound webhook path: authenticate the raw body, decode it, then
//! reconcile it against the ledger.
use vstd::prelude::*;
use vstd::string::StringSliceAdditionalSpecFns;

use crate::auth::{expected_signature, signature_matches, verify_zenobia_signature};
use crate::error::ErrorKind;
use crate::ledger::{webhook_effect, well_formed, WebhookOutcome, WebhookPayload};
use crate::store::Store;

verus! {

/// The text of member `key` when `body` is one JSON object whose member
/// `key` is a string.
pub uninterp spec fn json_text_member_of(body: Seq<u8>, key: Seq<char>) -> Option<Seq<char>>;

/// The value of member `key` when `body` is one JSON object whose member
/// `key` is an integer that fits in an `i64`.
pub uninterp spec fn json_integer_member_of(body: Seq<u8>, key: Seq<char>) -> Option<i64>;

/// Whether `body` is one JSON text in which member `key` is absent or
/// `null`.
pub uninterp spec fn json_null_member_of(body: Seq<u8>, key: Seq<char>) -> bool;

/// Relies on `serde_json::from_slice::<serde_json::Value>`, then
/// `Value::get` and `Value::as_str`: the text of member `key`, `None` when
/// the body is no JSON text, has no such member, or the member is no
/// string.
#[verifier::external_body]
fn json_text_member(body: &[u8], key: &str) -> (r: Option<String>)
    ensures
        r is Some <==> json_text_member_of(body@, key@) is Some,
        r is Some ==> r->Some_0@ == json_text_member_of(body@, key@)->Some_0,
{
    match serde_json::from_slice::<serde_json::Value>(body) {
        Ok(v) => v.get(key).and_then(serde_json::Value::as_str).map(str::to_string),
        Err(_) => None,
    }
}

/// Relies on `serde_json::from_slice::<serde_json::Value>`, then
/// `Value::get` and `Value::as_i64`: the integer value of member `key`,
/// `None` when the body is no JSON text, has no such member, or the member
/// is no integer that fits in an `i64`.
#[verifier::external_body]
fn json_integer_member(body: &[u8], key: &str) -> (r: Option<i64>)
    ensures
        r == json_integer_member_of(body@, key@),
{
    match serde_json::from_slice::<serde_json::Value>(body) {
        Ok(v) => v.get(key).and_then(serde_json::Value::as_i64),
        Err(_) => None,
    }
}

/// Relies on `serde_json::from_slice::<serde_json::Value>`, then
/// `Value::get` and `Value::is_null`: whether the body is JSON and member
/// `key` is absent or `null`.
#[verifier::external_body]
fn json_null_member(body: &[u8], key: &str) -> (r: bool)
    ensures
        r == json_null_member_of(body@, key@),
{
    match serde_json::from_slice::<serde_json::Value>(body) {
        Ok(v) => v.get(key).map_or(true, serde_json::Value::is_null),
        Err(_) => false,
    }
}

/// A decoded webhook report, as plain values.
pub struct DecodedPayload {
    pub transfer_id: Seq<char>,
    pub status: Seq<char>,
    pub amount_cents: i64,
    pub currency: Seq<char>,
    pub merchant_id: Seq<char>,
    pub customer_name: Option<Seq<char>>,
    pub created_at: Seq<char>,
    pub updated_at: Seq<char>,
}

pub open spec fn payload_view(p: WebhookPayload) -> DecodedPayload {
    DecodedPayload {
        transfer_id: p.transfer_id@,
        status: p.status@,
        amount_cents: p.amount_cents,
        currency: p.currency@,
        merchant_id: p.merchant_id@,
        customer_name: match p.customer_name {
            Some(n) => Some(n@),
            None => None,
        },
        created_at: p.created_at@,
        updated_at: p.updated_at@,
    }
}

/// The amount: member `amount_cents`, or else member `amount`.
pub open spec fn decoded_amount(body: Seq<u8>) -> Option<i64> {
    match json_integer_member_of(body, "amount_cents"@) {
        Some(n) => Some(n),
        None => json_integer_member_of(body, "amount"@),
    }
}

/// The payer's name: a string gives its text, an absent or `null` member
/// gives no name, anything else does not decode (the outer `None`).
pub open spec fn decoded_customer_name(body: Seq<u8>) -> Option<Option<Seq<char>>> {
    match json_text_member_of(body, "customer_name"@) {
        Some(t) => Some(Some(t)),
        None => if json_null_member_of(body, "customer_name"@) {
            Some(None)
        } else {
            None
        },
    }
}

/// What a webhook body decodes to: a JSON object with the text members
/// `transfer_id`, `status`, `currency`, `merchant_id`, `created_at` and
/// `updated_at`, an integer amount, and an optional payer's name.
pub open spec fn decoded(body: Seq<u8>) -> Option<DecodedPayload> {
    if json_text_member_of(body, "transfer_id"@) is Some && json_text_member_of(body, "status"@) is Some
        && decoded_amount(body) is Some && json_text_member_of(body, "currency"@) is Some
        && json_text_member_of(body, "merchant_id"@) is Some && decoded_customer_name(body) is Some
        && json_text_member_of(body, "created_at"@) is Some && json_text_member_of(
        body,
        "updated_at"@,
    ) is Some {
        Some(
            DecodedPayload {
                transfer_id: json_text_member_of(body, "transfer_id"@)->Some_0,
                status: json_text_member_of(body, "status"@)->Some_0,
                amount_cents: decoded_amount(body)->Some_0,
                currency: json_text_member_of(body, "currency"@)->Some_0,
                merchant_id: json_text_member_of(body, "merchant_id"@)->Some_0,
                customer_name: decoded_customer_name(body)->Some_0,
                created_at: json_text_member_of(body, "created_at"@)->Some_0,
                updated_at: json_text_member_of(body, "updated_at"@)->Some_0,
            },
        )
    } else {
        None
    }
}

fn required_text(body: &[u8], key: &str) -> (r: Result<String, ErrorKind>)
    ensures
        r is Ok <==> json_text_member_of(body@, key@) is Some,
        r is Ok ==> r->Ok_0@ == json_text_member_of(body@, key@)->Some_0,
        r is Err ==> r->Err_0 == ErrorKind::MalformedPayload,
{
    match json_text_member(body, key) {
        Some(t) => Ok(t),
        None => Err(ErrorKind::MalformedPayload),
    }
}

/// Decodes a webhook body; see `decoded`. Anything else is malformed.
pub fn decode_payload(body: &[u8]) -> (r: Result<WebhookPayload, ErrorKind>)
    ensures
        r is Ok <==> decoded(body@) is Some,
        r is Ok ==> payload_view(r->Ok_0) == decoded(body@)->Some_0,
        r is Err ==> r->Err_0 == ErrorKind::MalformedPayload,
{
    let transfer_id = required_text(body, "transfer_id")?;
    let status = required_text(body, "status")?;
    let amount_cents = match json_integer_member(body, "amount_cents") {
        Some(n) => n,
        None => match json_integer_member(body, "amount") {
            Some(n) => n,
            None => { return Err(ErrorKind::MalformedPayload); },
        },
    };
    let currency = required_text(body, "currency")?;
    let merchant_id = required_text(body, "merchant_id")?;
    let customer_name = match json_text_member(body, "customer_name") {
        Some(t) => Some(t),
        None => {
            if json_null_member(body, "customer_name") {
                None
            } else {
                return Err(ErrorKind::MalformedPayload);
            }
        },
    };
    let created_at = required_text(body, "created_at")?;
    let updated_at = required_text(body, "updated_at")?;
    Ok(
        WebhookPayload {
            transfer_id,
            status,
            amount_cents,
            currency,
            merchant_id,
            customer_name,
            created_at,
            updated_at,
        },
    )
}

/// A delivery is genuine when its signature header matches the base64
/// HMAC-SHA256 of its raw body under the shared secret.
pub open spec fn signature_accepted(body: Seq<u8>, signature: &str, secret: &str) -> bool {
    signature_matches(signature.spec_bytes(), expected_signature(body, secret.spec_bytes()))
}

impl Store {
    /// Handles one webhook delivery at time `now`. A signature that does
    /// not match the raw body is refused with no change; a body that does
    /// not decode is refused with no change; otherwise the decoded report
    /// is reconciled, and the raw body is kept as the transaction's audit
    /// record.
    pub fn handle_webhook_at(&mut self, body: Vec<u8>, signature: &str, secret: &str, now: i64) -> (r:
        Result<WebhookOutcome, ErrorKind>)
        requires
            well_formed(old(self)@),
        ensures
            well_formed(final(self)@),
            !signature_accepted(body@, signature, secret) ==> r == Err::<WebhookOutcome, ErrorKind>(
                ErrorKind::Auth,
            ) && final(self)@ == old(self)@,
            signature_accepted(body@, signature, secret) && decoded(body@) is None ==> r == Err::<
                WebhookOutcome,
                ErrorKind,
            >(ErrorKind::MalformedPayload) && final(self)@ == old(self)@,
            signature_accepted(body@, signature, secret) && decoded(body@) is Some ==> exists|
                p: WebhookPayload,
            |
                payload_view(p) == decoded(body@)->Some_0 && (final(self)@, r)
                    == #[trigger] webhook_effect(old(self)@, p, body, now),
    {
        if !verify_zenobia_signature(body.as_slice(), signature, secret) {
            return Err(ErrorKind::Auth);
        }
        let payload = match decode_payload(body.as_slice()) {
            Ok(p) => p,
            Err(e) => { return Err(e); },
        };
        let ghost p = payload;
        let r = self.apply_webhook(&payload, body, now);
        assert(payload_view(p) == decoded(body@)->Some_0 && (final(self)@, r) == webhook_effect(old(self)@, p, body, now));
        r
    }
}

} // verus!
