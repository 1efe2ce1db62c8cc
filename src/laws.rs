//! Properties that hold of every input: pricing consistency and the safety
//! of webhook redelivery.
use vstd::prelude::*;

use crate::ledger::{
    completion_effect, extended_expiry, finish_transfer_effect, grant_effect, has_order, has_user,
    is_active, order_after_webhook,
    order_has_membership, order_of, transaction_after_webhook, transfer_index, transfer_used,
    user_of, webhook_effect, well_formed, Ledger, WebhookPayload,
};
use crate::auth::{sha256_label, signature_matches};
use crate::order::{order_target_for, OrderStatus};
use crate::pricing::{
    all_prices_positive, priceable, pricing_of, subtotal_of, tax_of, total_of, CartItem,
};

verus! {

proof fn lemma_subtotal_positive(items: Seq<CartItem>)
    requires
        items.len() > 0,
        all_prices_positive(items),
    ensures
        subtotal_of(items) > 0,
    decreases items.len(),
{
    if items.len() > 1 {
        let rest = items.drop_last();
        assert(all_prices_positive(rest)) by {
            assert forall|i: int| 0 <= i < rest.len() implies #[trigger] rest[i].price_cents > 0 by {
                assert(rest[i] == items[i]);
            }
        }
        lemma_subtotal_positive(rest);
    } else {
        assert(items.drop_last().len() == 0);
        assert(subtotal_of(items.drop_last()) == 0);
    }
    assert(items.last().price_cents > 0);
    assert(subtotal_of(items) == subtotal_of(items.drop_last()) + items.last().price_cents);
}

/// For a cart of positively priced items, the total is the subtotal plus
/// the tax, and both are non-negative; when the cart can be priced, the
/// computed cents say the same.
pub proof fn pricing_total_is_subtotal_plus_tax(items: Seq<CartItem>)
    requires
        items.len() > 0,
        all_prices_positive(items),
    ensures
        subtotal_of(items) > 0,
        tax_of(subtotal_of(items)) >= 0,
        total_of(subtotal_of(items)) == subtotal_of(items) + tax_of(subtotal_of(items)),
        priceable(items) ==> {
            &&& pricing_of(items).total_cents == pricing_of(items).subtotal_cents + pricing_of(
                items,
            ).tax_cents
            &&& pricing_of(items).subtotal_cents >= 0
            &&& pricing_of(items).tax_cents >= 0
        },
{
    lemma_subtotal_positive(items);
    let s = subtotal_of(items);
    assert(0 <= s * 825 / 10000 <= s) by (nonlinear_arith)
        requires
            s > 0,
    ;
}

/// The signature check refuses an empty header and accepts the expected
/// tag behind the `sha256=` label; it accepts the bare tag unless the tag
/// is empty or itself begins with the label; and it accepts no header but
/// these two.
pub proof fn signature_check_accepts_only_the_tag(signature: Seq<u8>, expected: Seq<u8>)
    ensures
        !signature_matches(Seq::empty(), expected),
        signature_matches(sha256_label() + expected, expected),
        expected.len() > 0 && !(expected.len() >= 7 && expected.subrange(0, 7) == sha256_label())
            ==> signature_matches(expected, expected),
        signature_matches(signature, expected) ==> signature == expected || signature
            == sha256_label() + expected,
{
    let labelled = sha256_label() + expected;
    assert(labelled.subrange(0, 7) =~= sha256_label());
    assert(labelled.subrange(7, labelled.len() as int) =~= expected);
    if signature_matches(signature, expected) && signature != expected {
        assert(signature =~= sha256_label() + expected);
    }
}

/// The transaction row that a delivery for `transfer_id` reaches is the one
/// that carries it.
proof fn lemma_transfer_index(l: Ledger, transfer_id: Seq<char>, i: int)
    requires
        well_formed(l),
        0 <= i < l.transactions.len(),
        l.transactions[i].transfer_id@ == transfer_id,
    ensures
        transfer_used(l, transfer_id),
        transfer_index(l, transfer_id) == i,
{
    let j = transfer_index(l, transfer_id);
    assert(l.transactions[i].transfer_id@ == transfer_id);
    if j != i {
        assert(l.transactions[j].transfer_id@ != l.transactions[i].transfer_id@);
    }
}

/// Delivering the same webhook a second time, at any time, after it was
/// applied once leaves the ledger exactly as the first delivery left it:
/// the same transaction record, the same order, and no second membership
/// term.
pub proof fn webhook_redelivery_changes_nothing(
    l: Ledger,
    p: WebhookPayload,
    raw: Vec<u8>,
    now1: i64,
    now2: i64,
)
    requires
        well_formed(l),
        webhook_effect(l, p, raw, now1).1 is Ok,
    ensures
        webhook_effect(webhook_effect(l, p, raw, now1).0, p, raw, now2).0 == webhook_effect(
            l,
            p,
            raw,
            now1,
        ).0,
        webhook_effect(webhook_effect(l, p, raw, now1).0, p, raw, now2).1 is Ok,
{
    let tid = p.transfer_id@;
    let ti = transfer_index(l, tid);
    let t = l.transactions[ti];
    let oid = t.order_id;
    assert(l.transactions[ti].id == ti + 1);
    let o = order_of(l, oid as int);
    let o2 = order_after_webhook(o, p, now1);
    let t2 = transaction_after_webhook(t, p, raw);
    let l2 = Ledger {
        transactions: l.transactions.update(ti, t2),
        orders: l.orders.update(oid - 1, o2),
        ..l
    };
    let l1 = webhook_effect(l, p, raw, now1).0;
    let target = order_target_for(p.status@);
    // The first delivery changed the order and the transaction, and at most
    // the users and the grant markers besides.
    assert(l1.orders == l2.orders && l1.transactions == l2.transactions && l1.items == l.items);
    assert(l1.users.len() == l.users.len());
    // The second delivery reaches the same row.
    assert forall|a: int, b: int|
        0 <= a < l1.transactions.len() && 0 <= b < l1.transactions.len() && a != b
            implies #[trigger] l1.transactions[a].transfer_id@
        != #[trigger] l1.transactions[b].transfer_id@ by {
        assert(l.transactions[a].transfer_id@ != l.transactions[b].transfer_id@);
    }
    assert(l1.transactions[ti] == t2);
    let j = transfer_index(l1, tid);
    assert(transfer_used(l1, tid)) by {
        assert(l1.transactions[ti].transfer_id@ == tid);
    }
    if j != ti {
        assert(l1.transactions[j].transfer_id@ != l1.transactions[ti].transfer_id@);
    }
    // The record and the order are already what the delivery would write.
    assert(transaction_after_webhook(t2, p, raw) == t2);
    assert(order_of(l1, oid as int) == o2);
    if !o.status.spec_is_terminal() {
        assert(o2.status == OrderStatus::Processing || o2.status.spec_is_terminal());
    }
    assert(order_after_webhook(o2, p, now2) == o2);
    let l3 = Ledger {
        transactions: l1.transactions.update(ti, t2),
        orders: l1.orders.update(oid - 1, o2),
        ..l1
    };
    assert(l3.transactions =~= l1.transactions);
    assert(l3.orders =~= l1.orders);
    assert(l3 == l1);
    if target == OrderStatus::Completed {
        let c = completion_effect(l2, oid, now1);
        assert(c.1 is Ok);
        assert(has_order(l2, oid as int));
        assert(order_of(l2, oid as int) == o2);
        if o2.status == OrderStatus::Completed && order_has_membership(l2, oid) {
            let uid = o2.user_id;
            assert(l.orders[oid - 1].id == oid);
            assert(has_user(l, uid as int));
            assert(c == grant_effect(l2, uid, oid, now1));
            assert(l1 == c.0);
            assert(l1.granted.contains(oid)) by {
                if !l2.granted.contains(oid) {
                    assert(l1.granted == l2.granted.push(oid));
                    assert(l1.granted[l2.granted.len() as int] == oid);
                }
            }
            assert(order_has_membership(l1, oid));
            assert(completion_effect(l1, oid, now2) == grant_effect(l1, uid, oid, now2));
        }
    }
}

/// From pending, a delivery reporting `completed` completes the order,
/// whenever a membership it pays for can be written.
pub proof fn completed_webhook_completes_pending_order(
    l: Ledger,
    p: WebhookPayload,
    raw: Vec<u8>,
    now: i64,
    i: int,
)
    requires
        well_formed(l),
        0 <= i < l.transactions.len(),
        l.transactions[i].transfer_id@ == p.transfer_id@,
        order_of(l, l.transactions[i].order_id as int).status == OrderStatus::Pending,
        p.status@ == "completed"@,
        extended_expiry(
            user_of(l, order_of(l, l.transactions[i].order_id as int).user_id as int).membership_expires_on,
            now,
        ) <= i64::MAX,
    ensures
        webhook_effect(l, p, raw, now).1 is Ok,
        webhook_effect(l, p, raw, now).1->Ok_0.order_status == OrderStatus::Completed,
        webhook_effect(l, p, raw, now).1->Ok_0.order_id == l.transactions[i].order_id,
        order_of(webhook_effect(l, p, raw, now).0, l.transactions[i].order_id as int).status
            == OrderStatus::Completed,
        order_has_membership(l, l.transactions[i].order_id) && !l.granted.contains(
            l.transactions[i].order_id,
        ) ==> {
            let uid = order_of(l, l.transactions[i].order_id as int).user_id as int;
            &&& user_of(webhook_effect(l, p, raw, now).0, uid).is_member
            &&& user_of(webhook_effect(l, p, raw, now).0, uid).membership_expires_on == Some(
                extended_expiry(user_of(l, uid).membership_expires_on, now) as i64,
            )
            &&& webhook_effect(l, p, raw, now).0.granted.contains(l.transactions[i].order_id)
        },
{
    lemma_transfer_index(l, p.transfer_id@, i);
    let t = l.transactions[i];
    let oid = t.order_id;
    assert(l.transactions[i].id == i + 1);
    assert(l.orders[oid - 1].id == oid);
    let o = order_of(l, oid as int);
    assert(has_user(l, o.user_id as int));
    let o2 = order_after_webhook(o, p, now);
    assert(o2.status == OrderStatus::Completed);
    let l2 = Ledger {
        transactions: l.transactions.update(i, transaction_after_webhook(t, p, raw)),
        orders: l.orders.update(oid - 1, o2),
        ..l
    };
    assert(order_of(l2, oid as int) == o2);
    assert(user_of(l2, o2.user_id as int) == user_of(l, o.user_id as int));
    assert(order_has_membership(l2, oid) == order_has_membership(l, oid));
    if order_has_membership(l, oid) && !l.granted.contains(oid) {
        let l1 = webhook_effect(l, p, raw, now).0;
        assert(l1 == grant_effect(l2, o2.user_id, oid, now).0);
        assert(l1.granted == l2.granted.push(oid));
        assert(l1.granted[l2.granted.len() as int] == oid);
    }
}

/// A delivery for a transaction whose order is terminal leaves every order
/// as it was: redelivery after completion cannot move an order again.
pub proof fn webhook_leaves_terminal_order_unchanged(
    l: Ledger,
    p: WebhookPayload,
    raw: Vec<u8>,
    now: i64,
    i: int,
)
    requires
        well_formed(l),
        0 <= i < l.transactions.len(),
        l.transactions[i].transfer_id@ == p.transfer_id@,
        order_of(l, l.transactions[i].order_id as int).status.spec_is_terminal(),
    ensures
        webhook_effect(l, p, raw, now).0.orders == l.orders,
{
    lemma_transfer_index(l, p.transfer_id@, i);
    let oid = l.transactions[i].order_id;
    assert(l.transactions[i].id == i + 1);
    let o = order_of(l, oid as int);
    assert(order_after_webhook(o, p, now) == o);
    assert(l.orders.update(oid - 1, o) =~= l.orders);
}

/// After a transfer is recorded for an order, its new transaction is the
/// only one of that order that still waits for an outcome.
pub proof fn new_transfer_is_only_waiting_transaction(
    l: Ledger,
    order_id: i64,
    created: Option<String>,
    now: i64,
)
    requires
        well_formed(l),
        finish_transfer_effect(l, order_id, created, now).1 is Ok,
    ensures
        ({
            let txs = finish_transfer_effect(l, order_id, created, now).0.transactions;
            &&& txs.len() == l.transactions.len() + 1
            &&& txs.last().order_id == order_id
            &&& is_active(txs.last().status)
            &&& forall|i: int|
                0 <= i < txs.len() - 1 && #[trigger] txs[i].order_id == order_id ==> !is_active(
                    txs[i].status,
                )
        }),
{
    let txs = finish_transfer_effect(l, order_id, created, now).0.transactions;
    assert forall|i: int|
        0 <= i < txs.len() - 1 && #[trigger] txs[i].order_id == order_id implies !is_active(
        txs[i].status,
    ) by {
        assert(txs[i] == crate::ledger::superseded(l.transactions[i], order_id));
    }
}

/// A delivery that fails, whatever the reason, leaves the ledger as it
/// was; a later delivery of the same report is then its first application.
pub proof fn failed_webhook_changes_nothing(l: Ledger, p: WebhookPayload, raw: Vec<u8>, now: i64)
    requires
        well_formed(l),
        webhook_effect(l, p, raw, now).1 is Err,
    ensures
        webhook_effect(l, p, raw, now).0 == l,
{
}

/// A delivery for a transfer that no transaction carries changes nothing
/// and is reported as not found.
pub proof fn unknown_transfer_changes_nothing(l: Ledger, p: WebhookPayload, raw: Vec<u8>, now: i64)
    requires
        !transfer_used(l, p.transfer_id@),
    ensures
        webhook_effect(l, p, raw, now).0 == l,
        webhook_effect(l, p, raw, now).1 == Err::<crate::ledger::WebhookOutcome, crate::error::ErrorKind>(
            crate::error::ErrorKind::NotFound,
        ),
{
}

} // verus!
