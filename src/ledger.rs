//! The model of the order ledger: its records, its tables as sequences,
//! the invariant that ties them together, and the effect of each operation
//! as a function from ledger to ledger and result.
use vstd::prelude::*;

use crate::error::ErrorKind;
use crate::order::{
    after_webhook, order_target_for, transaction_status_for, OrderStatus, TransactionStatus,
};
use crate::pricing::{pricing_of, priceable, CartItem, MEMBERSHIP_PRODUCT_ID};

verus! {

/// One product line of an order, with its name and price as they were at
/// checkout.
#[derive(Debug)]
pub struct OrderItem {
    pub id: i64,
    pub order_id: i64,
    pub product_id: i64,
    pub product_name: String,
    pub quantity: i32,
    pub unit_price_cents: i64,
}

/// An order; `total_amount_cents` is `subtotal_cents + tax_cents`.
#[derive(Debug)]
pub struct Order {
    pub id: i64,
    pub user_id: i64,
    pub subtotal_cents: i64,
    pub tax_cents: i64,
    pub total_amount_cents: i64,
    pub status: OrderStatus,
    pub payment_method: String,
    pub transfer_id: Option<String>,
    pub shipping_address: String,
    pub billing_address: String,
    pub customer_name: Option<String>,
    pub customer_email: String,
    pub webhook_received: bool,
    pub created_at: i64,
    pub updated_at: i64,
}

/// One attempt to pay an order, keyed by the processor's transfer id.
#[derive(Debug)]
pub struct Transaction {
    pub id: i64,
    pub order_id: i64,
    pub transfer_id: String,
    pub amount_cents: i64,
    pub status: TransactionStatus,
    pub customer_name: Option<String>,
    pub raw_payload: Option<Vec<u8>>,
    pub created_at: i64,
}

/// The fields of a user that payments touch. Times are seconds since the
/// Unix epoch.
#[derive(Debug)]
pub struct User {
    pub id: i64,
    pub email: String,
    pub is_member: bool,
    pub membership_expires_on: Option<i64>,
}

/// What a store holds.
pub struct Ledger {
    pub orders: Seq<Order>,
    pub items: Seq<OrderItem>,
    pub transactions: Seq<Transaction>,
    pub users: Seq<User>,
    /// Ids of the orders whose membership has been granted.
    pub granted: Seq<i64>,
}

pub open spec fn has_order(l: Ledger, id: int) -> bool {
    1 <= id <= l.orders.len()
}

pub open spec fn has_user(l: Ledger, id: int) -> bool {
    1 <= id <= l.users.len()
}

pub open spec fn order_of(l: Ledger, id: int) -> Order {
    l.orders[id - 1]
}

pub open spec fn user_of(l: Ledger, id: int) -> User {
    l.users[id - 1]
}

/// The ids are row numbers, every reference points at a row, transfer ids
/// are unique, and every table's ids fit in an `i64`.
pub open spec fn well_formed(l: Ledger) -> bool {
    &&& l.orders.len() <= i64::MAX
    &&& l.items.len() <= i64::MAX
    &&& l.transactions.len() <= i64::MAX
    &&& l.users.len() <= i64::MAX
    &&& forall|i: int|
        0 <= i < l.orders.len() ==> #[trigger] l.orders[i].id == i + 1 && has_user(
            l,
            l.orders[i].user_id as int,
        )
    &&& forall|i: int|
        0 <= i < l.items.len() ==> #[trigger] l.items[i].id == i + 1 && has_order(
            l,
            l.items[i].order_id as int,
        )
    &&& forall|i: int|
        0 <= i < l.transactions.len() ==> #[trigger] l.transactions[i].id == i + 1 && has_order(
            l,
            l.transactions[i].order_id as int,
        )
    &&& forall|i: int| 0 <= i < l.users.len() ==> #[trigger] l.users[i].id == i + 1
    &&& forall|i: int, j: int|
        0 <= i < l.transactions.len() && 0 <= j < l.transactions.len() && i != j
            ==> #[trigger] l.transactions[i].transfer_id@ != #[trigger] l.transactions[j].transfer_id@
}

pub open spec fn empty_ledger() -> Ledger {
    Ledger {
        orders: Seq::empty(),
        items: Seq::empty(),
        transactions: Seq::empty(),
        users: Seq::empty(),
        granted: Seq::empty(),
    }
}

pub open spec fn new_user(l: Ledger, email: String, is_member: bool, expires: Option<i64>) -> User {
    User {
        id: (l.users.len() + 1) as i64,
        email,
        is_member,
        membership_expires_on: expires,
    }
}

pub open spec fn add_user_effect(
    l: Ledger,
    email: String,
    is_member: bool,
    expires: Option<i64>,
) -> (Ledger, Result<i64, ErrorKind>) {
    if l.users.len() >= i64::MAX {
        (l, Err(ErrorKind::Persistence))
    } else {
        (
            Ledger { users: l.users.push(new_user(l, email, is_member, expires)), ..l },
            Ok((l.users.len() + 1) as i64),
        )
    }
}

/// The items that an order of `cart` gets, numbered on from `first`.
pub open spec fn order_lines(order_id: i64, cart: Seq<CartItem>, first: int) -> Seq<OrderItem> {
    Seq::new(
        cart.len(),
        |k: int|
            OrderItem {
                id: (first + k + 1) as i64,
                order_id,
                product_id: cart[k].product_id,
                product_name: cart[k].name,
                quantity: 1,
                unit_price_cents: cart[k].price_cents,
            },
    )
}

/// A new pending order, priced from its cart, with no transfer yet.
pub open spec fn new_order(
    l: Ledger,
    user_id: i64,
    cart: Seq<CartItem>,
    shipping_address: String,
    billing_address: String,
    customer_email: String,
    payment_method: String,
    now: i64,
) -> Order {
    Order {
        id: (l.orders.len() + 1) as i64,
        user_id,
        subtotal_cents: pricing_of(cart).subtotal_cents,
        tax_cents: pricing_of(cart).tax_cents,
        total_amount_cents: pricing_of(cart).total_cents,
        status: OrderStatus::Pending,
        payment_method,
        transfer_id: None,
        shipping_address,
        billing_address,
        customer_name: None,
        customer_email,
        webhook_received: false,
        created_at: now,
        updated_at: now,
    }
}

/// Creating an order: an unknown user, a cart that cannot be priced, and a
/// full table are refused in that order; otherwise the order and all of its
/// items are written together.
pub open spec fn create_order_effect(
    l: Ledger,
    user_id: i64,
    cart: Seq<CartItem>,
    shipping_address: String,
    billing_address: String,
    customer_email: String,
    payment_method: String,
    now: i64,
) -> (Ledger, Result<i64, ErrorKind>) {
    if !has_user(l, user_id as int) {
        (l, Err(ErrorKind::NotFound))
    } else if !priceable(cart) {
        (l, Err(ErrorKind::Validation))
    } else if l.orders.len() >= i64::MAX || l.items.len() + cart.len() > i64::MAX {
        (l, Err(ErrorKind::Persistence))
    } else {
        let o = new_order(
            l,
            user_id,
            cart,
            shipping_address,
            billing_address,
            customer_email,
            payment_method,
            now,
        );
        (
            Ledger {
                orders: l.orders.push(o),
                items: l.items + order_lines(o.id, cart, l.items.len() as int),
                ..l
            },
            Ok(o.id),
        )
    }
}


/// Seconds in one membership term of 365 days.
pub const MEMBERSHIP_TERM_SECONDS: i64 = 31536000;

/// What a payment webhook reports, decoded from its body.
#[derive(Debug)]
pub struct WebhookPayload {
    pub transfer_id: String,
    pub status: String,
    pub amount_cents: i64,
    pub currency: String,
    pub merchant_id: String,
    pub customer_name: Option<String>,
    pub created_at: String,
    pub updated_at: String,
}

/// What reconciling a webhook did to its order.
#[derive(Debug, Clone, Copy, PartialEq, Eq, Structural)]
pub struct WebhookOutcome {
    pub order_id: i64,
    pub order_status: OrderStatus,
    pub membership_granted: bool,
}

pub open spec fn with_status(o: Order, status: OrderStatus, now: i64) -> Order {
    Order { status, updated_at: now, ..o }
}

pub open spec fn set_order(l: Ledger, id: int, o: Order) -> Ledger {
    Ledger { orders: l.orders.update(id - 1, o), ..l }
}

/// A ledger move of one order: applied when the partial order of statuses
/// allows it, a no-op otherwise.
pub open spec fn transition_effect(l: Ledger, id: i64, to: OrderStatus, now: i64) -> (
    Ledger,
    Result<bool, ErrorKind>,
) {
    if !has_order(l, id as int) {
        (l, Err(ErrorKind::NotFound))
    } else if order_of(l, id as int).status.spec_can_transition(to) {
        (set_order(l, id as int, with_status(order_of(l, id as int), to, now)), Ok(true))
    } else {
        (l, Ok(false))
    }
}

pub open spec fn transfer_used(l: Ledger, transfer_id: Seq<char>) -> bool {
    exists|i: int|
        0 <= i < l.transactions.len() && #[trigger] l.transactions[i].transfer_id@ == transfer_id
}

/// The row of the transaction with `transfer_id`, when there is one.
pub open spec fn transfer_index(l: Ledger, transfer_id: Seq<char>) -> int {
    choose|i: int|
        0 <= i < l.transactions.len() && #[trigger] l.transactions[i].transfer_id@ == transfer_id
}

/// The pending transaction that a new transfer creates.
pub open spec fn new_transaction(l: Ledger, order_id: i64, transfer_id: String, now: i64) -> Transaction {
    Transaction {
        id: (l.transactions.len() + 1) as i64,
        order_id,
        transfer_id,
        amount_cents: order_of(l, order_id as int).total_amount_cents,
        status: TransactionStatus::Pending,
        customer_name: None,
        raw_payload: None,
        created_at: now,
    }
}

/// A transaction that still waits for an outcome.
pub open spec fn is_active(s: TransactionStatus) -> bool {
    s == TransactionStatus::Pending || s == TransactionStatus::Processing
}

pub open spec fn superseded(t: Transaction, order_id: i64) -> Transaction {
    if t.order_id == order_id && is_active(t.status) {
        Transaction { status: TransactionStatus::Cancelled, ..t }
    } else {
        t
    }
}

/// The transactions once a new attempt for `order_id` replaces the ones
/// that still wait: those are cancelled.
pub open spec fn supersede(txs: Seq<Transaction>, order_id: i64) -> Seq<Transaction> {
    Seq::new(txs.len(), |i: int| superseded(txs[i], order_id))
}

/// The end of a transfer attempt for an order. `created` is the transfer id
/// that the processor returned, or `None` when the call failed. An unknown
/// order and an order that is no longer open are refused with no change.
/// A failed call, an empty or already used transfer id, or a full table
/// mark the order failed. Otherwise the pending transaction and the
/// order's transfer id are written together, and earlier transactions of
/// the order that still wait are cancelled.
pub open spec fn finish_transfer_effect(
    l: Ledger,
    order_id: i64,
    created: Option<String>,
    now: i64,
) -> (Ledger, Result<(), ErrorKind>) {
    if !has_order(l, order_id as int) {
        (l, Err(ErrorKind::NotFound))
    } else if order_of(l, order_id as int).status.spec_is_terminal() {
        (l, Err(ErrorKind::Validation))
    } else {
        let o = order_of(l, order_id as int);
        let failed = set_order(l, order_id as int, with_status(o, OrderStatus::Failed, now));
        match created {
            None => (failed, Err(ErrorKind::Processor)),
            Some(t) => if t@.len() == 0 {
                (failed, Err(ErrorKind::Processor))
            } else if transfer_used(l, t@) || l.transactions.len() >= i64::MAX {
                (failed, Err(ErrorKind::Persistence))
            } else {
                (
                    Ledger {
                        orders: l.orders.update(
                            order_id - 1,
                            Order { transfer_id: Some(t), updated_at: now, ..o },
                        ),
                        transactions: supersede(l.transactions, order_id).push(
                            new_transaction(l, order_id, t, now),
                        ),
                        ..l
                    },
                    Ok(()),
                )
            },
        }
    }
}

/// A membership extended from the later of its current end and `now`.
pub open spec fn extended_expiry(current: Option<i64>, now: i64) -> int {
    match current {
        Some(e) => if e > now {
            e + MEMBERSHIP_TERM_SECONDS
        } else {
            now + MEMBERSHIP_TERM_SECONDS
        },
        None => now + MEMBERSHIP_TERM_SECONDS,
    }
}

/// Granting the membership that an order paid for, at most once per order:
/// the user becomes a member until one term past the later of the current
/// end and `now`, and the order is marked as granted. An order already
/// marked changes nothing; an end past the largest time is refused.
pub open spec fn grant_effect(l: Ledger, user_id: i64, order_id: i64, now: i64) -> (
    Ledger,
    Result<bool, ErrorKind>,
) {
    if !has_user(l, user_id as int) {
        (l, Err(ErrorKind::NotFound))
    } else if l.granted.contains(order_id) {
        (l, Ok(false))
    } else if extended_expiry(user_of(l, user_id as int).membership_expires_on, now) > i64::MAX {
        (l, Err(ErrorKind::Persistence))
    } else {
        let u = user_of(l, user_id as int);
        (
            Ledger {
                users: l.users.update(
                    user_id - 1,
                    User {
                        is_member: true,
                        membership_expires_on: Some(
                            extended_expiry(u.membership_expires_on, now) as i64,
                        ),
                        ..u
                    },
                ),
                granted: l.granted.push(order_id),
                ..l
            },
            Ok(true),
        )
    }
}

pub open spec fn order_has_membership(l: Ledger, order_id: i64) -> bool {
    exists|k: int|
        0 <= k < l.items.len() && #[trigger] l.items[k].order_id == order_id
            && l.items[k].product_id == MEMBERSHIP_PRODUCT_ID
}

/// The follow-up of a completed payment: a completed order that holds the
/// membership line grants its user a membership.
pub open spec fn completion_effect(l: Ledger, order_id: i64, now: i64) -> (
    Ledger,
    Result<bool, ErrorKind>,
) {
    if !has_order(l, order_id as int) {
        (l, Err(ErrorKind::NotFound))
    } else if order_of(l, order_id as int).status != OrderStatus::Completed || !order_has_membership(
        l,
        order_id,
    ) {
        (l, Ok(false))
    } else {
        grant_effect(l, order_of(l, order_id as int).user_id, order_id, now)
    }
}

/// An open order takes the status that a webhook asks for as far as the
/// partial order allows, with the payer's name and the received flag; a
/// terminal order is left as it is.
pub open spec fn order_after_webhook(o: Order, p: WebhookPayload, now: i64) -> Order {
    if o.status.spec_is_terminal() {
        o
    } else {
        let s = after_webhook(o.status, order_target_for(p.status@));
        Order {
            status: s,
            customer_name: p.customer_name,
            webhook_received: true,
            updated_at: if s != o.status {
                now
            } else {
                o.updated_at
            },
            ..o
        }
    }
}

/// A transaction records every report, redundant or not, for audit.
pub open spec fn transaction_after_webhook(t: Transaction, p: WebhookPayload, raw: Vec<u8>) -> Transaction {
    Transaction {
        status: transaction_status_for(p.status@),
        customer_name: p.customer_name,
        raw_payload: Some(raw),
        ..t
    }
}

/// Reconciling an authenticated, decoded webhook: an unknown transfer
/// changes nothing and is not found; otherwise the transaction records the
/// report, the order moves, and a completed payment triggers the
/// membership grant. When the grant cannot be written, nothing is.
pub open spec fn webhook_effect(l: Ledger, p: WebhookPayload, raw: Vec<u8>, now: i64) -> (
    Ledger,
    Result<WebhookOutcome, ErrorKind>,
) {
    if !transfer_used(l, p.transfer_id@) {
        (l, Err(ErrorKind::NotFound))
    } else {
        let ti = transfer_index(l, p.transfer_id@);
        let t = l.transactions[ti];
        let o2 = order_after_webhook(order_of(l, t.order_id as int), p, now);
        let l2 = Ledger {
            transactions: l.transactions.update(ti, transaction_after_webhook(t, p, raw)),
            orders: l.orders.update(t.order_id - 1, o2),
            ..l
        };
        if order_target_for(p.status@) == OrderStatus::Completed {
            let c = completion_effect(l2, t.order_id, now);
            match c.1 {
                Ok(g) => (
                    c.0,
                    Ok(
                        WebhookOutcome {
                            order_id: t.order_id,
                            order_status: o2.status,
                            membership_granted: g,
                        },
                    ),
                ),
                Err(e) => (l, Err(e)),
            }
        } else {
            (
                l2,
                Ok(
                    WebhookOutcome {
                        order_id: t.order_id,
                        order_status: o2.status,
                        membership_granted: false,
                    },
                ),
            )
        }
    }
}

pub proof fn lemma_wf_set_order(l: Ledger, k: int, o: Order)
    requires
        well_formed(l),
        0 <= k < l.orders.len(),
        o.id == l.orders[k].id,
        o.user_id == l.orders[k].user_id,
    ensures
        well_formed(Ledger { orders: l.orders.update(k, o), ..l }),
{
    let l2 = Ledger { orders: l.orders.update(k, o), ..l };
    assert forall|i: int| 0 <= i < l2.orders.len() implies #[trigger] l2.orders[i].id == i + 1
        && has_user(l2, l2.orders[i].user_id as int) by {
        assert(l.orders[i].id == i + 1);
    }
    assert forall|i: int| 0 <= i < l2.items.len() implies #[trigger] l2.items[i].id == i + 1
        && has_order(l2, l2.items[i].order_id as int) by {
        assert(l.items[i].id == i + 1);
    }
    assert forall|i: int| 0 <= i < l2.transactions.len() implies #[trigger] l2.transactions[i].id
        == i + 1 && has_order(l2, l2.transactions[i].order_id as int) by {
        assert(l.transactions[i].id == i + 1);
    }
}

pub proof fn lemma_wf_set_transaction(l: Ledger, k: int, t: Transaction)
    requires
        well_formed(l),
        0 <= k < l.transactions.len(),
        t.id == l.transactions[k].id,
        t.order_id == l.transactions[k].order_id,
        t.transfer_id == l.transactions[k].transfer_id,
    ensures
        well_formed(Ledger { transactions: l.transactions.update(k, t), ..l }),
{
    let l2 = Ledger { transactions: l.transactions.update(k, t), ..l };
    assert forall|i: int| 0 <= i < l2.transactions.len() implies #[trigger] l2.transactions[i].id
        == i + 1 && has_order(l2, l2.transactions[i].order_id as int) by {
        assert(l.transactions[i].id == i + 1);
    }
    assert forall|i: int, j: int|
        0 <= i < l2.transactions.len() && 0 <= j < l2.transactions.len() && i != j
            implies #[trigger] l2.transactions[i].transfer_id@
        != #[trigger] l2.transactions[j].transfer_id@ by {
        assert(l.transactions[i].transfer_id@ != l.transactions[j].transfer_id@);
    }
}

pub proof fn lemma_wf_push_transaction(l: Ledger, t: Transaction)
    requires
        well_formed(l),
        l.transactions.len() < i64::MAX,
        t.id == l.transactions.len() + 1,
        has_order(l, t.order_id as int),
        !transfer_used(l, t.transfer_id@),
    ensures
        well_formed(Ledger { transactions: l.transactions.push(t), ..l }),
{
    let l2 = Ledger { transactions: l.transactions.push(t), ..l };
    assert forall|i: int| 0 <= i < l2.transactions.len() implies #[trigger] l2.transactions[i].id
        == i + 1 && has_order(l2, l2.transactions[i].order_id as int) by {
        if i < l.transactions.len() {
            assert(l2.transactions[i] == l.transactions[i]);
            assert(l.transactions[i].id == i + 1);
        }
    }
    assert forall|i: int, j: int|
        0 <= i < l2.transactions.len() && 0 <= j < l2.transactions.len() && i != j
            implies #[trigger] l2.transactions[i].transfer_id@
        != #[trigger] l2.transactions[j].transfer_id@ by {
        if i < l.transactions.len() && j < l.transactions.len() {
            assert(l.transactions[i].transfer_id@ != l.transactions[j].transfer_id@);
        } else if i < l.transactions.len() {
            assert(l2.transactions[i] == l.transactions[i]);
        } else if j < l.transactions.len() {
            assert(l2.transactions[j] == l.transactions[j]);
        }
    }
}

pub proof fn lemma_wf_supersede(l: Ledger, order_id: i64)
    requires
        well_formed(l),
    ensures
        well_formed(Ledger { transactions: supersede(l.transactions, order_id), ..l }),
        forall|tid: Seq<char>|
            transfer_used(Ledger { transactions: supersede(l.transactions, order_id), ..l }, tid)
                == #[trigger] transfer_used(l, tid),
{
    let l2 = Ledger { transactions: supersede(l.transactions, order_id), ..l };
    assert forall|i: int| 0 <= i < l2.transactions.len() implies #[trigger] l2.transactions[i].id
        == i + 1 && has_order(l2, l2.transactions[i].order_id as int) by {
        assert(l.transactions[i].id == i + 1);
    }
    assert forall|i: int, j: int|
        0 <= i < l2.transactions.len() && 0 <= j < l2.transactions.len() && i != j
            implies #[trigger] l2.transactions[i].transfer_id@
        != #[trigger] l2.transactions[j].transfer_id@ by {
        assert(l.transactions[i].transfer_id@ != l.transactions[j].transfer_id@);
    }
    assert forall|tid: Seq<char>| transfer_used(l2, tid) == #[trigger] transfer_used(l, tid) by {
        if transfer_used(l, tid) {
            let i = choose|i: int|
                0 <= i < l.transactions.len() && #[trigger] l.transactions[i].transfer_id@ == tid;
            assert(l2.transactions[i].transfer_id@ == tid);
        }
        if transfer_used(l2, tid) {
            let i = choose|i: int|
                0 <= i < l2.transactions.len() && #[trigger] l2.transactions[i].transfer_id@ == tid;
            assert(l.transactions[i].transfer_id@ == tid);
        }
    }
}

pub proof fn lemma_wf_set_user(l: Ledger, k: int, u: User)
    requires
        well_formed(l),
        0 <= k < l.users.len(),
        u.id == l.users[k].id,
    ensures
        well_formed(Ledger { users: l.users.update(k, u), ..l }),
{
    let l2 = Ledger { users: l.users.update(k, u), ..l };
    assert forall|i: int| 0 <= i < l2.users.len() implies #[trigger] l2.users[i].id == i + 1 by {
        assert(l.users[i].id == i + 1);
    }
    assert forall|i: int| 0 <= i < l2.orders.len() implies #[trigger] l2.orders[i].id == i + 1
        && has_user(l2, l2.orders[i].user_id as int) by {
        assert(l.orders[i].id == i + 1);
    }
}

} // verus!
