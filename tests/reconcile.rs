use base64::Engine;
use hmac::Mac;
use payment_reconciler::error::ErrorKind;
use payment_reconciler::ledger::{WebhookOutcome, MEMBERSHIP_TERM_SECONDS};
use payment_reconciler::order::{order_target, transaction_status, OrderStatus, TransactionStatus};
use payment_reconciler::pricing::{add_to_cart, CartItem, MEMBERSHIP_PRODUCT_ID};
use payment_reconciler::store::{extend_expiry, Store, TransferRequest};
use payment_reconciler::webhook::decode_payload;

const SECRET: &str = "whsec_test";
const NOW: i64 = 1_760_000_000;

fn sign(body: &[u8]) -> String {
    let mut mac = hmac::Hmac::<sha2::Sha256>::new_from_slice(SECRET.as_bytes()).unwrap();
    mac.update(body);
    base64::engine::general_purpose::STANDARD.encode(mac.finalize().into_bytes())
}

fn body(transfer_id: &str, status: &str) -> Vec<u8> {
    format!(
        "{{\"transfer_id\":\"{}\",\"status\":\"{}\",\"amount\":16236,\"currency\":\"USD\",\"merchant_id\":\"m1\",\"customer_name\":\"Ada\",\"created_at\":\"2025-01-01\",\"updated_at\":\"2025-01-02\"}}",
        transfer_id, status
    )
    .into_bytes()
}

fn deliver(store: &mut Store, b: Vec<u8>, now: i64) -> Result<WebhookOutcome, ErrorKind> {
    let sig = sign(&b);
    store.handle_webhook_at(b, &sig, SECRET, now)
}

fn plant() -> CartItem {
    CartItem { product_id: 4, name: "Pilea".to_string(), price_cents: 2499 }
}

fn snapshot(store: &Store) -> String {
    format!("{:?}|{:?}|{:?}|{:?}", store.orders(), store.items(), store.transactions(), store.users())
}

/// A non-member's order of one plant with its transfer `tr_1` recorded.
fn checkout(is_member: bool, expires: Option<i64>) -> (Store, i64, i64) {
    let mut store = Store::new();
    let uid = store.add_user("ada@example.com".to_string(), is_member, expires).unwrap();
    let mut cart = Vec::new();
    add_to_cart(&mut cart, plant(), is_member);
    let oid = store
        .create_order(uid, &cart, "1 Leaf St".to_string(), "1 Leaf St".to_string(), "ada@example.com".to_string(), "zenobiapay".to_string(), NOW)
        .unwrap();
    store.finish_transfer(oid, Some("tr_1".to_string()), NOW).unwrap();
    (store, uid, oid)
}

#[test]
fn end_to_end_membership_purchase() {
    let mut store = Store::new();
    let uid = store.add_user("ada@example.com".to_string(), false, None).unwrap();
    let mut cart = Vec::new();
    add_to_cart(&mut cart, plant(), false);
    assert_eq!(cart.len(), 2);
    assert_eq!(cart[0].price_cents, 12500);
    let oid = store
        .create_order(uid, &cart, "ship".to_string(), "bill".to_string(), "ada@example.com".to_string(), "zenobiapay".to_string(), NOW)
        .unwrap();
    let order = store.order(oid).unwrap();
    assert_eq!(order.subtotal_cents, 14999);
    assert_eq!(order.tax_cents, 1237);
    assert_eq!(order.total_amount_cents, 16236);
    assert_eq!(order.status, OrderStatus::Pending);
    assert_eq!(store.items().iter().filter(|i| i.order_id == oid).count(), 2);
    assert_eq!(store.transfer_request(oid), Ok(TransferRequest { order_id: oid, amount_cents: 16236 }));
    assert_eq!(store.finish_transfer(oid, Some("tr_1".to_string()), NOW), Ok(()));
    assert_eq!(store.order(oid).unwrap().transfer_id.as_deref(), Some("tr_1"));
    let tx = &store.transactions()[0];
    assert_eq!(tx.transfer_id, "tr_1");
    assert_eq!(tx.amount_cents, 16236);
    assert_eq!(tx.status, TransactionStatus::Pending);

    let r = deliver(&mut store, body("tr_1", "completed"), NOW);
    assert_eq!(r, Ok(WebhookOutcome { order_id: oid, order_status: OrderStatus::Completed, membership_granted: true }));
    assert_eq!(store.order(oid).unwrap().status, OrderStatus::Completed);
    assert!(store.order(oid).unwrap().webhook_received);
    let user = store.user(uid).unwrap();
    assert!(user.is_member);
    assert_eq!(user.membership_expires_on, Some(NOW + 365 * 86400));
}

#[test]
fn replayed_completed_webhook_keeps_expiry() {
    let (mut store, uid, oid) = checkout(false, None);
    deliver(&mut store, body("tr_1", "completed"), NOW).unwrap();
    let r = deliver(&mut store, body("tr_1", "completed"), NOW + 3600);
    assert_eq!(r, Ok(WebhookOutcome { order_id: oid, order_status: OrderStatus::Completed, membership_granted: false }));
    assert_eq!(store.order(oid).unwrap().status, OrderStatus::Completed);
    assert_eq!(store.user(uid).unwrap().membership_expires_on, Some(NOW + MEMBERSHIP_TERM_SECONDS));
}

#[test]
fn delivering_twice_equals_delivering_once() {
    let (mut once, _, _) = checkout(false, None);
    let (mut twice, _, _) = checkout(false, None);
    deliver(&mut once, body("tr_1", "completed"), NOW).unwrap();
    deliver(&mut twice, body("tr_1", "completed"), NOW).unwrap();
    deliver(&mut twice, body("tr_1", "completed"), NOW + 99).unwrap();
    assert_eq!(snapshot(&once), snapshot(&twice));
}

#[test]
fn pending_order_completes_and_then_stays() {
    let (mut store, _, oid) = checkout(true, Some(NOW + 10));
    let r = deliver(&mut store, body("tr_1", "processing"), NOW + 1).unwrap();
    assert_eq!(r.order_status, OrderStatus::Processing);
    assert_eq!(store.order(oid).unwrap().updated_at, NOW + 1);
    let r = deliver(&mut store, body("tr_1", "completed"), NOW + 2).unwrap();
    assert_eq!(r.order_status, OrderStatus::Completed);
    assert!(!r.membership_granted);
    let before = format!("{:?}", store.orders());
    for status in ["failed", "cancelled", "pending", "processing", "completed"] {
        let r = deliver(&mut store, body("tr_1", status), NOW + 5).unwrap();
        assert_eq!(r.order_status, OrderStatus::Completed);
        assert_eq!(format!("{:?}", store.orders()), before);
    }
    // the transaction still records every report
    assert_eq!(store.transactions()[0].status, TransactionStatus::Completed);
}

#[test]
fn transaction_records_each_report() {
    let (mut store, _, _) = checkout(true, None);
    deliver(&mut store, body("tr_1", "pending"), NOW).unwrap();
    assert_eq!(store.transactions()[0].status, TransactionStatus::Pending);
    assert_eq!(store.transactions()[0].customer_name.as_deref(), Some("Ada"));
    assert_eq!(store.transactions()[0].raw_payload.as_deref(), Some(body("tr_1", "pending").as_slice()));
    deliver(&mut store, body("tr_1", "weird"), NOW).unwrap();
    assert_eq!(store.transactions()[0].status, TransactionStatus::Processing);
}

#[test]
fn failed_or_cancelled_report_cancels_order() {
    let (mut store, uid, oid) = checkout(false, None);
    let r = deliver(&mut store, body("tr_1", "failed"), NOW).unwrap();
    assert_eq!(r.order_status, OrderStatus::Cancelled);
    assert_eq!(store.transactions()[0].status, TransactionStatus::Failed);
    let (mut other, _, _) = checkout(false, None);
    assert_eq!(deliver(&mut other, body("tr_1", "cancelled"), NOW).unwrap().order_status, OrderStatus::Cancelled);
    // a late completion moves nothing and grants nothing
    let r = deliver(&mut store, body("tr_1", "completed"), NOW).unwrap();
    assert_eq!(r, WebhookOutcome { order_id: oid, order_status: OrderStatus::Cancelled, membership_granted: false });
    assert!(!store.user(uid).unwrap().is_member);
}

#[test]
fn unknown_transfer_is_not_found_and_changes_nothing() {
    let (mut store, _, _) = checkout(false, None);
    let before = snapshot(&store);
    assert_eq!(deliver(&mut store, body("tr_999", "completed"), NOW), Err(ErrorKind::NotFound));
    assert_eq!(snapshot(&store), before);
}

#[test]
fn bad_signature_is_refused_without_change() {
    let (mut store, _, _) = checkout(false, None);
    let before = snapshot(&store);
    let b = body("tr_1", "completed");
    assert_eq!(store.handle_webhook_at(b.clone(), "", SECRET, NOW), Err(ErrorKind::Auth));
    let sig = sign(&b);
    assert_eq!(store.handle_webhook_at(b.clone(), &sig, "other secret", NOW), Err(ErrorKind::Auth));
    let mut tampered = b.clone();
    tampered[5] = b'X';
    assert_eq!(store.handle_webhook_at(tampered, &sig, SECRET, NOW), Err(ErrorKind::Auth));
    assert_eq!(snapshot(&store), before);
}

#[test]
fn malformed_body_is_refused_without_change() {
    let (mut store, _, _) = checkout(false, None);
    let before = snapshot(&store);
    assert_eq!(deliver(&mut store, b"not json".to_vec(), NOW), Err(ErrorKind::MalformedPayload));
    assert_eq!(deliver(&mut store, b"{\"transfer_id\":\"tr_1\",\"status\":\"completed\"}".to_vec(), NOW), Err(ErrorKind::MalformedPayload));
    assert_eq!(snapshot(&store), before);
}

#[test]
fn decode_reads_members() {
    let p = decode_payload(&body("tr_7", "completed")).unwrap();
    assert_eq!(p.transfer_id, "tr_7");
    assert_eq!(p.status, "completed");
    assert_eq!(p.amount_cents, 16236);
    assert_eq!(p.currency, "USD");
    assert_eq!(p.merchant_id, "m1");
    assert_eq!(p.customer_name.as_deref(), Some("Ada"));
    let null_name = b"{\"transfer_id\":\"a\",\"status\":\"s\",\"amount\":1,\"currency\":\"USD\",\"merchant_id\":\"m\",\"customer_name\":null,\"created_at\":\"x\",\"updated_at\":\"y\"}";
    assert_eq!(decode_payload(null_name).unwrap().customer_name, None);
    let no_name = b"{\"transfer_id\":\"a\",\"status\":\"s\",\"amount\":1,\"currency\":\"USD\",\"merchant_id\":\"m\",\"created_at\":\"x\",\"updated_at\":\"y\"}";
    assert_eq!(decode_payload(no_name).unwrap().customer_name, None);
    let float_amount = b"{\"transfer_id\":\"a\",\"status\":\"s\",\"amount\":1.5,\"currency\":\"USD\",\"merchant_id\":\"m\",\"created_at\":\"x\",\"updated_at\":\"y\"}";
    assert_eq!(decode_payload(float_amount).err(), Some(ErrorKind::MalformedPayload));
    let number_name = b"{\"transfer_id\":\"a\",\"status\":\"s\",\"amount\":1,\"currency\":\"USD\",\"merchant_id\":\"m\",\"customer_name\":5,\"created_at\":\"x\",\"updated_at\":\"y\"}";
    assert_eq!(decode_payload(number_name).err(), Some(ErrorKind::MalformedPayload));
    assert_eq!(decode_payload(b"[1,2]").err(), Some(ErrorKind::MalformedPayload));
}

#[test]
fn renewing_member_gets_one_term_past_current_end() {
    let end = NOW + 100 * 86400;
    let (mut store, uid, oid) = checkout(true, Some(end));
    // a member's cart has no membership line: add one by hand
    let cart = vec![CartItem { product_id: MEMBERSHIP_PRODUCT_ID, name: "Annual Membership".to_string(), price_cents: 12500 }];
    let renewal = store
        .create_order(uid, &cart, String::new(), String::new(), String::new(), "zenobiapay".to_string(), NOW)
        .unwrap();
    store.finish_transfer(renewal, Some("tr_2".to_string()), NOW).unwrap();
    deliver(&mut store, body("tr_1", "completed"), NOW).unwrap();
    assert_eq!(store.user(uid).unwrap().membership_expires_on, Some(end));
    assert!(store.order(oid).is_some());
    let r = deliver(&mut store, body("tr_2", "completed"), NOW).unwrap();
    assert!(r.membership_granted);
    assert_eq!(store.user(uid).unwrap().membership_expires_on, Some(end + MEMBERSHIP_TERM_SECONDS));
}

#[test]
fn lapsed_membership_restarts_from_now() {
    let (mut store, uid, _) = checkout(false, Some(NOW - 5000));
    deliver(&mut store, body("tr_1", "completed"), NOW).unwrap();
    assert_eq!(store.user(uid).unwrap().membership_expires_on, Some(NOW + MEMBERSHIP_TERM_SECONDS));
}

#[test]
fn grant_is_once_per_order() {
    let (mut store, uid, oid) = checkout(false, None);
    assert_eq!(store.grant_membership(uid, oid, NOW), Ok(true));
    assert_eq!(store.grant_membership(uid, oid, NOW + 5), Ok(false));
    assert_eq!(store.user(uid).unwrap().membership_expires_on, Some(NOW + MEMBERSHIP_TERM_SECONDS));
    assert_eq!(store.grant_membership(uid, oid + 1, NOW), Ok(true));
    assert_eq!(store.user(uid).unwrap().membership_expires_on, Some(NOW + 2 * MEMBERSHIP_TERM_SECONDS));
    assert_eq!(store.grant_membership(uid + 7, oid, NOW), Err(ErrorKind::NotFound));
}

#[test]
fn completion_needs_a_completed_order_with_membership_line() {
    let (mut store, uid, oid) = checkout(false, None);
    assert_eq!(store.handle_completed_payment(oid, NOW), Ok(false));
    assert_eq!(store.transition_order(oid, OrderStatus::Completed, NOW), Ok(true));
    assert_eq!(store.handle_completed_payment(oid, NOW), Ok(true));
    assert_eq!(store.handle_completed_payment(oid, NOW), Ok(false));
    assert!(store.user(uid).unwrap().is_member);
    assert_eq!(store.handle_completed_payment(oid + 1, NOW), Err(ErrorKind::NotFound));
    let (mut member_store, member, member_order) = checkout(true, None);
    deliver(&mut member_store, body("tr_1", "completed"), NOW).unwrap();
    assert_eq!(member_store.order(member_order).unwrap().status, OrderStatus::Completed);
    assert_eq!(member_store.user(member).unwrap().membership_expires_on, None);
}

#[test]
fn expiry_past_largest_time_is_refused_without_change() {
    assert_eq!(extend_expiry(Some(i64::MAX - 10), 0), None);
    assert_eq!(extend_expiry(None, 5), Some(5 + MEMBERSHIP_TERM_SECONDS));
    assert_eq!(extend_expiry(Some(100), 50), Some(100 + MEMBERSHIP_TERM_SECONDS));
    let (mut store, _, _) = checkout(false, Some(i64::MAX - 10));
    let before = snapshot(&store);
    assert_eq!(deliver(&mut store, body("tr_1", "completed"), NOW), Err(ErrorKind::Persistence));
    assert_eq!(snapshot(&store), before);
}

#[test]
fn failed_transfer_marks_order_failed() {
    let mut store = Store::new();
    let uid = store.add_user("a@b".to_string(), true, None).unwrap();
    let cart = vec![plant()];
    let oid = store.create_order(uid, &cart, String::new(), String::new(), String::new(), String::new(), NOW).unwrap();
    assert_eq!(store.finish_transfer(oid, None, NOW + 1), Err(ErrorKind::Processor));
    assert_eq!(store.order(oid).unwrap().status, OrderStatus::Failed);
    assert_eq!(store.order(oid).unwrap().updated_at, NOW + 1);
    assert!(store.transactions().is_empty());
    assert_eq!(store.finish_transfer(oid, Some("tr_9".to_string()), NOW), Err(ErrorKind::Validation));
    assert_eq!(store.transfer_request(oid), Err(ErrorKind::Validation));
    assert_eq!(store.finish_transfer(oid + 1, None, NOW), Err(ErrorKind::NotFound));
    assert_eq!(store.transfer_request(oid + 1), Err(ErrorKind::NotFound));
}

#[test]
fn empty_or_reused_transfer_id_fails_order() {
    let (mut store, uid, _) = checkout(true, None);
    let cart = vec![plant()];
    let second = store.create_order(uid, &cart, String::new(), String::new(), String::new(), String::new(), NOW).unwrap();
    assert_eq!(store.finish_transfer(second, Some("tr_1".to_string()), NOW), Err(ErrorKind::Persistence));
    assert_eq!(store.order(second).unwrap().status, OrderStatus::Failed);
    let third = store.create_order(uid, &cart, String::new(), String::new(), String::new(), String::new(), NOW).unwrap();
    assert_eq!(store.finish_transfer(third, Some(String::new()), NOW), Err(ErrorKind::Processor));
    assert_eq!(store.order(third).unwrap().status, OrderStatus::Failed);
    assert_eq!(store.transactions().len(), 1);
}

#[test]
fn retry_creates_second_transaction() {
    let (mut store, _, oid) = checkout(true, None);
    assert_eq!(store.finish_transfer(oid, Some("tr_2".to_string()), NOW), Ok(()));
    assert_eq!(store.transactions().len(), 2);
    assert_eq!(store.order(oid).unwrap().transfer_id.as_deref(), Some("tr_2"));
    assert_eq!(store.transactions()[1].id, 2);
    // the earlier attempt no longer waits
    assert_eq!(store.transactions()[0].status, TransactionStatus::Cancelled);
    assert_eq!(store.transactions()[1].status, TransactionStatus::Pending);
}

#[test]
fn create_order_refusals() {
    let mut store = Store::new();
    let cart = vec![plant()];
    assert_eq!(store.create_order(1, &cart, String::new(), String::new(), String::new(), String::new(), NOW), Err(ErrorKind::NotFound));
    let uid = store.add_user("a@b".to_string(), false, None).unwrap();
    assert_eq!(store.create_order(uid, &[], String::new(), String::new(), String::new(), String::new(), NOW), Err(ErrorKind::Validation));
    let free = vec![CartItem { product_id: 1, name: "x".to_string(), price_cents: 0 }];
    assert_eq!(store.create_order(uid, &free, String::new(), String::new(), String::new(), String::new(), NOW), Err(ErrorKind::Validation));
    assert!(store.orders().is_empty());
    assert!(store.items().is_empty());
}

#[test]
fn ledger_moves_follow_partial_order() {
    let (mut store, _, oid) = checkout(true, None);
    assert_eq!(store.transition_order(oid, OrderStatus::Refunded, NOW), Ok(false));
    assert_eq!(store.transition_order(oid, OrderStatus::Pending, NOW), Ok(false));
    assert_eq!(store.transition_order(oid, OrderStatus::Processing, NOW), Ok(true));
    assert_eq!(store.transition_order(oid, OrderStatus::Completed, NOW), Ok(true));
    assert_eq!(store.transition_order(oid, OrderStatus::Cancelled, NOW), Ok(false));
    assert_eq!(store.transition_order(oid, OrderStatus::Refunded, NOW + 9), Ok(true));
    assert_eq!(store.order(oid).unwrap().status, OrderStatus::Refunded);
    assert_eq!(store.order(oid).unwrap().updated_at, NOW + 9);
    assert_eq!(store.transition_order(oid, OrderStatus::Completed, NOW), Ok(false));
    assert_eq!(store.transition_order(99, OrderStatus::Completed, NOW), Err(ErrorKind::NotFound));
    assert_eq!(OrderStatus::Refunded.as_str(), "refunded");
    assert_eq!(OrderStatus::Pending.as_str(), "pending");
}

#[test]
fn processor_status_mapping() {
    assert_eq!(order_target("completed"), OrderStatus::Completed);
    assert_eq!(order_target("failed"), OrderStatus::Cancelled);
    assert_eq!(order_target("cancelled"), OrderStatus::Cancelled);
    assert_eq!(order_target("pending"), OrderStatus::Processing);
    assert_eq!(order_target("Completed"), OrderStatus::Processing);
    assert_eq!(transaction_status("pending"), TransactionStatus::Pending);
    assert_eq!(transaction_status("completed"), TransactionStatus::Completed);
    assert_eq!(transaction_status("failed"), TransactionStatus::Failed);
    assert_eq!(transaction_status("cancelled"), TransactionStatus::Cancelled);
    assert_eq!(transaction_status(""), TransactionStatus::Processing);
    assert!(OrderStatus::Pending.can_transition(OrderStatus::Failed));
    assert!(!OrderStatus::Processing.can_transition(OrderStatus::Processing));
    assert!(OrderStatus::Completed.can_transition(OrderStatus::Refunded));
    assert!(!OrderStatus::Cancelled.can_transition(OrderStatus::Refunded));
    assert!(OrderStatus::Failed.is_terminal());
    assert!(!OrderStatus::Processing.is_terminal());
}

#[test]
fn decode_reads_amount_cents_first() {
    let with_cents = b"{\"transfer_id\":\"a\",\"status\":\"s\",\"amount_cents\":16236,\"amount\":1,\"currency\":\"USD\",\"merchant_id\":\"m\",\"created_at\":\"x\",\"updated_at\":\"y\"}";
    assert_eq!(decode_payload(with_cents).unwrap().amount_cents, 16236);
    let only_cents = b"{\"transfer_id\":\"a\",\"status\":\"s\",\"amount_cents\":7,\"currency\":\"USD\",\"merchant_id\":\"m\",\"created_at\":\"x\",\"updated_at\":\"y\"}";
    assert_eq!(decode_payload(only_cents).unwrap().amount_cents, 7);
    let no_amount = b"{\"transfer_id\":\"a\",\"status\":\"s\",\"currency\":\"USD\",\"merchant_id\":\"m\",\"created_at\":\"x\",\"updated_at\":\"y\"}";
    assert_eq!(decode_payload(no_amount).err(), Some(ErrorKind::MalformedPayload));
    let text_status = b"{\"transfer_id\":\"a\",\"status\":3,\"amount\":1,\"currency\":\"USD\",\"merchant_id\":\"m\",\"created_at\":\"x\",\"updated_at\":\"y\"}";
    assert_eq!(decode_payload(text_status).err(), Some(ErrorKind::MalformedPayload));
}

#[test]
fn genuine_report_with_amount_cents_reconciles() {
    let (mut store, _, oid) = checkout(false, None);
    let b = b"{\"transfer_id\":\"tr_1\",\"status\":\"completed\",\"amount_cents\":16236,\"currency\":\"USD\",\"merchant_id\":\"m1\",\"created_at\":\"a\",\"updated_at\":\"b\"}".to_vec();
    let r = deliver(&mut store, b, NOW).unwrap();
    assert_eq!(r.order_status, OrderStatus::Completed);
    assert_eq!(store.order(oid).unwrap().customer_name, None);
}
