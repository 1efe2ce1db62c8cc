//! The order ledger as executable tables. Every operation is one atomic
//! step: it commits all of its writes or none of them, and its effect is
//! the one that the ledger model gives.
use vstd::prelude::*;

use crate::error::ErrorKind;
use crate::ledger::{
    add_user_effect, completion_effect, create_order_effect, empty_ledger, extended_expiry,
    finish_transfer_effect, grant_effect, has_order, has_user, lemma_wf_push_transaction,
    lemma_wf_set_order, lemma_wf_set_transaction, lemma_wf_set_user, lemma_wf_supersede, supersede,
    superseded, new_order, new_transaction,
    order_after_webhook, order_has_membership, order_lines, order_of, transaction_after_webhook,
    transfer_index, webhook_effect, WebhookOutcome, WebhookPayload, transfer_used, transition_effect, user_of, well_formed, with_status, Ledger,
    Order, OrderItem, Transaction, User, MEMBERSHIP_TERM_SECONDS,
};
use crate::order::{order_target, transaction_status, OrderStatus, TransactionStatus};
use crate::pricing::{calculate_pricing, CartItem, MEMBERSHIP_PRODUCT_ID};

verus! {

/// A transfer to create with the payment processor.
#[derive(Debug, Clone, Copy, PartialEq, Eq, Structural)]
pub struct TransferRequest {
    pub order_id: i64,
    pub amount_cents: i64,
}

/// The ledger's tables; row `i` of each table has id `i + 1`.
pub struct Store {
    orders: Vec<Order>,
    items: Vec<OrderItem>,
    transactions: Vec<Transaction>,
    users: Vec<User>,
    granted: Vec<i64>,
}

impl View for Store {
    type V = Ledger;

    closed spec fn view(&self) -> Ledger {
        Ledger {
            orders: self.orders@,
            items: self.items@,
            transactions: self.transactions@,
            users: self.users@,
            granted: self.granted@,
        }
    }
}

fn clone_text(s: &Option<String>) -> (r: Option<String>)
    ensures
        r == *s,
{
    match s {
        Some(t) => Some(t.clone()),
        None => None,
    }
}

impl Store {
    /// An empty store.
    pub fn new() -> (r: Store)
        ensures
            r@ == empty_ledger(),
            well_formed(r@),
    {
        Store {
            orders: Vec::new(),
            items: Vec::new(),
            transactions: Vec::new(),
            users: Vec::new(),
            granted: Vec::new(),
        }
    }

    pub fn orders(&self) -> (r: &[Order])
        ensures
            r@ == self@.orders,
    {
        self.orders.as_slice()
    }

    pub fn items(&self) -> (r: &[OrderItem])
        ensures
            r@ == self@.items,
    {
        self.items.as_slice()
    }

    pub fn transactions(&self) -> (r: &[Transaction])
        ensures
            r@ == self@.transactions,
    {
        self.transactions.as_slice()
    }

    pub fn users(&self) -> (r: &[User])
        ensures
            r@ == self@.users,
    {
        self.users.as_slice()
    }

    /// The order with id `id`, if there is one.
    pub fn order(&self, id: i64) -> (r: Option<&Order>)
        requires
            well_formed(self@),
        ensures
            r is Some <==> has_order(self@, id as int),
            r is Some ==> *r->Some_0 == order_of(self@, id as int),
    {
        if 1 <= id && (id as u64) <= (self.orders.len() as u64) {
            Some(&self.orders[(id - 1) as usize])
        } else {
            None
        }
    }

    /// The user with id `id`, if there is one.
    pub fn user(&self, id: i64) -> (r: Option<&User>)
        requires
            well_formed(self@),
        ensures
            r is Some <==> has_user(self@, id as int),
            r is Some ==> *r->Some_0 == user_of(self@, id as int),
    {
        if 1 <= id && (id as u64) <= (self.users.len() as u64) {
            Some(&self.users[(id - 1) as usize])
        } else {
            None
        }
    }

    /// Registers a user and returns the new id.
    pub fn add_user(&mut self, email: String, is_member: bool, expires: Option<i64>) -> (r: Result<
        i64,
        ErrorKind,
    >)
        requires
            well_formed(old(self)@),
        ensures
            well_formed(final(self)@),
            (final(self)@, r) == add_user_effect(old(self)@, email, is_member, expires),
    {
        if self.users.len() as u64 >= i64::MAX as u64 {
            return Err(ErrorKind::Persistence);
        }
        let id = (self.users.len() as u64 + 1) as i64;
        let ghost l0 = self@;
        self.users.push(User { id, email, is_member, membership_expires_on: expires });
        proof {
            let l = self@;
            assert forall|i: int| 0 <= i < l.users.len() implies #[trigger] l.users[i].id == i + 1 by {
                if i < l0.users.len() {
                    assert(l.users[i] == l0.users[i]);
                }
            }
            assert forall|i: int| 0 <= i < l.orders.len() implies #[trigger] l.orders[i].id == i + 1
                && has_user(l, l.orders[i].user_id as int) by {
                assert(l.orders[i] == l0.orders[i]);
            }
        }
        Ok(id)
    }

    /// Creates a pending order for `user_id` from `cart`, priced once here,
    /// with one item per cart line; returns the new order's id.
    pub fn create_order(
        &mut self,
        user_id: i64,
        cart: &[CartItem],
        shipping_address: String,
        billing_address: String,
        customer_email: String,
        payment_method: String,
        now: i64,
    ) -> (r: Result<i64, ErrorKind>)
        requires
            well_formed(old(self)@),
        ensures
            well_formed(final(self)@),
            (final(self)@, r) == create_order_effect(
                old(self)@,
                user_id,
                cart@,
                shipping_address,
                billing_address,
                customer_email,
                payment_method,
                now,
            ),
    {
        if !(1 <= user_id && (user_id as u64) <= (self.users.len() as u64)) {
            return Err(ErrorKind::NotFound);
        }
        let pricing = match calculate_pricing(cart) {
            Ok(p) => p,
            Err(e) => return Err(e),
        };
        if self.orders.len() as u64 >= i64::MAX as u64 || cart.len() as u64 > (i64::MAX as u64)
            - (self.items.len() as u64) {
            return Err(ErrorKind::Persistence);
        }
        let ghost l0 = self@;
        let order_id = (self.orders.len() as u64 + 1) as i64;
        let ghost o = new_order(
            l0,
            user_id,
            cart@,
            shipping_address,
            billing_address,
            customer_email,
            payment_method,
            now,
        );
        self.orders.push(
            Order {
                id: order_id,
                user_id,
                subtotal_cents: pricing.subtotal_cents,
                tax_cents: pricing.tax_cents,
                total_amount_cents: pricing.total_cents,
                status: OrderStatus::Pending,
                payment_method,
                transfer_id: None,
                shipping_address,
                billing_address,
                customer_name: None,
                customer_email,
                webhook_received: false,
                created_at: now,
                updated_at: now,
            },
        );
        let ghost lines = order_lines(order_id, cart@, l0.items.len() as int);
        let mut k: usize = 0;
        while k < cart.len()
            invariant
                0 <= k <= cart@.len(),
                l0.items.len() + cart@.len() <= i64::MAX,
                lines == order_lines(order_id, cart@, l0.items.len() as int),
                self.orders@ == l0.orders.push(o),
                self.transactions@ == l0.transactions,
                self.users@ == l0.users,
                self.granted@ == l0.granted,
                self.items@ == l0.items + lines.subrange(0, k as int),
            decreases cart@.len() - k,
        {
            let id = (self.items.len() as u64 + 1) as i64;
            self.items.push(
                OrderItem {
                    id,
                    order_id,
                    product_id: cart[k].product_id,
                    product_name: cart[k].name.clone(),
                    quantity: 1,
                    unit_price_cents: cart[k].price_cents,
                },
            );
            assert(self.items@ =~= l0.items + lines.subrange(0, k + 1));
            k = k + 1;
        }
        assert(lines.subrange(0, cart@.len() as int) =~= lines);
        proof {
            let l = self@;
            assert forall|i: int| 0 <= i < l.items.len() implies #[trigger] l.items[i].id == i + 1
                && has_order(l, l.items[i].order_id as int) by {
                if i >= l0.items.len() {
                    let k = i - l0.items.len();
                    assert(l.items[i] == lines[k]);
                    assert(lines[k].order_id == order_id);
                    assert(lines[k].id == (l0.items.len() + k + 1) as i64);
                    assert(has_order(l, order_id as int));
                } else {
                    assert(l.items[i] == l0.items[i]);
                    assert(l0.items[i].id == i + 1);
                }
            }
            assert forall|i: int| 0 <= i < l.orders.len() implies #[trigger] l.orders[i].id == i + 1
                && has_user(l, l.orders[i].user_id as int) by {
                if i < l0.orders.len() {
                    assert(l.orders[i] == l0.orders[i]);
                } else {
                    assert(l.orders[i] == o);
                    assert(has_user(l0, user_id as int));
                }
            }
            assert forall|i: int| 0 <= i < l.transactions.len() implies #[trigger] l.transactions[i].id
                == i + 1 && has_order(l, l.transactions[i].order_id as int) by {
                assert(l.transactions[i] == l0.transactions[i]);
            }
        }
        Ok(order_id)
    }

    /// Moves order `id` to `to` when the partial order of statuses allows
    /// it; tells whether it moved.
    pub fn transition_order(&mut self, id: i64, to: OrderStatus, now: i64) -> (r: Result<
        bool,
        ErrorKind,
    >)
        requires
            well_formed(old(self)@),
        ensures
            well_formed(final(self)@),
            (final(self)@, r) == transition_effect(old(self)@, id, to, now),
    {
        if !(1 <= id && (id as u64) <= (self.orders.len() as u64)) {
            return Err(ErrorKind::NotFound);
        }
        let k = (id - 1) as usize;
        if !self.orders[k].status.can_transition(to) {
            return Ok(false);
        }
        let ghost l0 = self@;
        proof {
            lemma_wf_set_order(self@, k as int, Order { status: to, updated_at: now, ..self@.orders[k as int] });
        }
        self.orders[k].status = to;
        self.orders[k].updated_at = now;
        assert(self.orders@ =~= l0.orders.update(k as int, with_status(l0.orders[k as int], to, now)));
        Ok(true)
    }

    /// What to ask the processor for, for order `order_id`: its total, as
    /// long as the order is still open for payment.
    pub fn transfer_request(&self, order_id: i64) -> (r: Result<TransferRequest, ErrorKind>)
        requires
            well_formed(self@),
        ensures
            !has_order(self@, order_id as int) ==> r == Err::<TransferRequest, ErrorKind>(
                ErrorKind::NotFound,
            ),
            has_order(self@, order_id as int) && order_of(self@, order_id as int).status.spec_is_terminal()
                ==> r == Err::<TransferRequest, ErrorKind>(ErrorKind::Validation),
            has_order(self@, order_id as int) && !order_of(self@, order_id as int).status.spec_is_terminal()
                ==> r == Ok::<TransferRequest, ErrorKind>(
                TransferRequest {
                    order_id,
                    amount_cents: order_of(self@, order_id as int).total_amount_cents,
                },
            ),
    {
        if !(1 <= order_id && (order_id as u64) <= (self.orders.len() as u64)) {
            return Err(ErrorKind::NotFound);
        }
        let k = (order_id - 1) as usize;
        if self.orders[k].status.is_terminal() {
            return Err(ErrorKind::Validation);
        }
        Ok(TransferRequest { order_id, amount_cents: self.orders[k].total_amount_cents })
    }

    /// Whether a transaction carries `transfer_id`.
    fn find_transfer(&self, transfer_id: &String) -> (r: Option<usize>)
        requires
            well_formed(self@),
        ensures
            r is None <==> !transfer_used(self@, transfer_id@),
            r is Some ==> r->Some_0 < self@.transactions.len()
                && self@.transactions[r->Some_0 as int].transfer_id@ == transfer_id@,
    {
        let mut i: usize = 0;
        while i < self.transactions.len()
            invariant
                0 <= i <= self@.transactions.len(),
                forall|j: int|
                    0 <= j < i ==> #[trigger] self@.transactions[j].transfer_id@ != transfer_id@,
            decreases self@.transactions.len() - i,
        {
            if self.transactions[i].transfer_id == *transfer_id {
                return Some(i);
            }
            i = i + 1;
        }
        None
    }

    /// Cancels the transactions of `order_id` that still wait.
    fn supersede_active(&mut self, order_id: i64)
        requires
            well_formed(old(self)@),
        ensures
            final(self)@ == (Ledger { transactions: supersede(old(self)@.transactions, order_id), ..old(self)@ }),
            well_formed(final(self)@),
            forall|tid: Seq<char>| transfer_used(final(self)@, tid) == #[trigger] transfer_used(old(self)@, tid),
    {
        let ghost l0 = self@;
        proof {
            lemma_wf_supersede(l0, order_id);
        }
        let mut i: usize = 0;
        while i < self.transactions.len()
            invariant
                0 <= i <= l0.transactions.len(),
                self.transactions@.len() == l0.transactions.len(),
                self.orders@ == l0.orders,
                self.items@ == l0.items,
                self.users@ == l0.users,
                self.granted@ == l0.granted,
                forall|j: int| 0 <= j < i ==> #[trigger] self.transactions@[j] == superseded(l0.transactions[j], order_id),
                forall|j: int| i <= j < l0.transactions.len() ==> #[trigger] self.transactions@[j] == l0.transactions[j],
            decreases l0.transactions.len() - i,
        {
            let waiting = match self.transactions[i].status {
                TransactionStatus::Pending | TransactionStatus::Processing => true,
                _ => false,
            };
            if self.transactions[i].order_id == order_id && waiting {
                self.transactions[i].status = TransactionStatus::Cancelled;
            }
            i = i + 1;
        }
        assert(self.transactions@ =~= supersede(l0.transactions, order_id));
    }

    /// Ends a transfer attempt for `order_id`. `created` is the transfer id
    /// that the processor returned, or `None` when the call failed; on any
    /// failure the open order is marked failed.
    pub fn finish_transfer(&mut self, order_id: i64, created: Option<String>, now: i64) -> (r:
        Result<(), ErrorKind>)
        requires
            well_formed(old(self)@),
        ensures
            well_formed(final(self)@),
            (final(self)@, r) == finish_transfer_effect(old(self)@, order_id, created, now),
    {
        if !(1 <= order_id && (order_id as u64) <= (self.orders.len() as u64)) {
            return Err(ErrorKind::NotFound);
        }
        let k = (order_id - 1) as usize;
        if self.orders[k].status.is_terminal() {
            return Err(ErrorKind::Validation);
        }
        let ghost l0 = self@;
        let ghost o = self@.orders[k as int];
        let err = match &created {
            None => Some(ErrorKind::Processor),
            Some(t) => {
                if t.as_str().is_empty() {
                    Some(ErrorKind::Processor)
                } else if self.find_transfer(t).is_some() || self.transactions.len() as u64
                    >= i64::MAX as u64 {
                    Some(ErrorKind::Persistence)
                } else {
                    None
                }
            },
        };
        match err {
            Some(e) => {
                proof {
                    lemma_wf_set_order(l0, k as int, Order { status: OrderStatus::Failed, updated_at: now, ..o });
                }
                self.orders[k].status = OrderStatus::Failed;
                self.orders[k].updated_at = now;
                assert(self.orders@ =~= l0.orders.update(k as int, with_status(o, OrderStatus::Failed, now)));
                Err(e)
            },
            None => {
                let t = match created {
                    Some(t) => t,
                    None => { return Err(ErrorKind::Processor); },
                };
                let tx = Transaction {
                    id: (self.transactions.len() as u64 + 1) as i64,
                    order_id,
                    transfer_id: t.clone(),
                    amount_cents: self.orders[k].total_amount_cents,
                    status: TransactionStatus::Pending,
                    customer_name: None,
                    raw_payload: None,
                    created_at: now,
                };
                assert(tx == new_transaction(l0, order_id, t, now));
                self.supersede_active(order_id);
                let ghost ls = self@;
                proof {
                    lemma_wf_set_order(ls, k as int, Order { transfer_id: Some(t), updated_at: now, ..o });
                    lemma_wf_push_transaction(
                        Ledger { orders: ls.orders.update(k as int, Order { transfer_id: Some(t), updated_at: now, ..o }), ..ls },
                        tx,
                    );
                }
                self.orders[k].transfer_id = Some(t);
                self.orders[k].updated_at = now;
                assert(self.orders@ =~= l0.orders.update(k as int, Order { transfer_id: Some(t), updated_at: now, ..o }));
                self.transactions.push(tx);
                Ok(())
            },
        }
    }

    fn is_granted(&self, order_id: i64) -> (r: bool)
        ensures
            r == self@.granted.contains(order_id),
    {
        let mut i: usize = 0;
        while i < self.granted.len()
            invariant
                0 <= i <= self@.granted.len(),
                forall|j: int| 0 <= j < i ==> #[trigger] self@.granted[j] != order_id,
            decreases self@.granted.len() - i,
        {
            if self.granted[i] == order_id {
                return true;
            }
            i = i + 1;
        }
        false
    }

    fn has_membership_item(&self, order_id: i64) -> (r: bool)
        ensures
            r == order_has_membership(self@, order_id),
    {
        let mut i: usize = 0;
        while i < self.items.len()
            invariant
                0 <= i <= self@.items.len(),
                forall|j: int|
                    0 <= j < i ==> !(#[trigger] self@.items[j].order_id == order_id
                        && self@.items[j].product_id == MEMBERSHIP_PRODUCT_ID),
            decreases self@.items.len() - i,
        {
            if self.items[i].order_id == order_id && self.items[i].product_id
                == MEMBERSHIP_PRODUCT_ID {
                return true;
            }
            i = i + 1;
        }
        false
    }

    /// Grants the membership that order `order_id` paid for to `user_id`,
    /// at most once per order; tells whether it was granted now.
    pub fn grant_membership(&mut self, user_id: i64, order_id: i64, now: i64) -> (r: Result<
        bool,
        ErrorKind,
    >)
        requires
            well_formed(old(self)@),
        ensures
            well_formed(final(self)@),
            (final(self)@, r) == grant_effect(old(self)@, user_id, order_id, now),
    {
        if !(1 <= user_id && (user_id as u64) <= (self.users.len() as u64)) {
            return Err(ErrorKind::NotFound);
        }
        if self.is_granted(order_id) {
            return Ok(false);
        }
        let k = (user_id - 1) as usize;
        let until = match extend_expiry(self.users[k].membership_expires_on, now) {
            Some(e) => e,
            None => { return Err(ErrorKind::Persistence); },
        };
        self.granted.push(order_id);
        let ghost l0 = self@;
        proof {
            lemma_wf_set_user(self@, k as int, User { is_member: true, membership_expires_on: Some(until), ..self@.users[k as int] });
        }
        self.users[k].is_member = true;
        self.users[k].membership_expires_on = Some(until);
        assert(self.users@ =~= l0.users.update(k as int, User { is_member: true, membership_expires_on: Some(until), ..l0.users[k as int] }));
        Ok(true)
    }

    /// Follows up a completed payment of order `order_id`: a completed order
    /// that holds the membership line grants its user a membership.
    pub fn handle_completed_payment(&mut self, order_id: i64, now: i64) -> (r: Result<
        bool,
        ErrorKind,
    >)
        requires
            well_formed(old(self)@),
        ensures
            well_formed(final(self)@),
            (final(self)@, r) == completion_effect(old(self)@, order_id, now),
    {
        if !(1 <= order_id && (order_id as u64) <= (self.orders.len() as u64)) {
            return Err(ErrorKind::NotFound);
        }
        let k = (order_id - 1) as usize;
        if self.orders[k].status != OrderStatus::Completed || !self.has_membership_item(order_id) {
            return Ok(false);
        }
        let user_id = self.orders[k].user_id;
        self.grant_membership(user_id, order_id, now)
    }


    /// Reconciles an authenticated, decoded webhook against the ledger:
    /// the transaction records the report and the raw body, the order moves
    /// as far as its status allows, and a completed payment of an order
    /// with the membership line grants the membership once.
    pub fn apply_webhook(&mut self, payload: &WebhookPayload, raw: Vec<u8>, now: i64) -> (r:
        Result<WebhookOutcome, ErrorKind>)
        requires
            well_formed(old(self)@),
        ensures
            well_formed(final(self)@),
            (final(self)@, r) == webhook_effect(old(self)@, *payload, raw, now),
    {
        let ghost l0 = self@;
        let ti = match self.find_transfer(&payload.transfer_id) {
            None => { return Err(ErrorKind::NotFound); },
            Some(i) => i,
        };
        proof {
            let j = transfer_index(l0, payload.transfer_id@);
            assert(0 <= j < l0.transactions.len() && l0.transactions[j].transfer_id@
                == payload.transfer_id@);
            if j != ti as int {
                assert(l0.transactions[j].transfer_id@ != l0.transactions[ti as int].transfer_id@);
            }
        }
        let order_id = self.transactions[ti].order_id;
        assert(l0.transactions[ti as int].id == ti + 1);
        let n_orders = self.orders.len();
        assert(1 <= order_id <= n_orders);
        let k = (order_id - 1) as usize;
        let target = order_target(payload.status.as_str());
        let current = self.orders[k].status;
        let terminal = current.is_terminal();
        let next = if !terminal && current.can_transition(target) {
            target
        } else {
            current
        };
        let ghost o2 = order_after_webhook(l0.orders[k as int], *payload, now);
        assert(o2.status == next);
        let user_id = self.orders[k].user_id;
        assert(l0.orders[k as int].id == k + 1);
        assert(has_user(l0, user_id as int));
        let ghost t2 = transaction_after_webhook(l0.transactions[ti as int], *payload, raw);
        let ghost sl2 = Ledger {
            transactions: l0.transactions.update(ti as int, t2),
            orders: l0.orders.update(k as int, o2),
            ..l0
        };
        assert(order_of(sl2, order_id as int) == o2);
        assert(user_of(sl2, user_id as int) == user_of(l0, user_id as int));
        assert(sl2.items == l0.items);
        assert(order_has_membership(sl2, order_id) == order_has_membership(l0, order_id));
        if target == OrderStatus::Completed && next == OrderStatus::Completed
            && self.has_membership_item(order_id) && !self.is_granted(order_id) {
            let n_users = self.users.len();
            assert(1 <= user_id <= n_users);
            let uk = (user_id - 1) as usize;
            if extend_expiry(self.users[uk].membership_expires_on, now).is_none() {
                return Err(ErrorKind::Persistence);
            }
        }
        proof {
            lemma_wf_set_transaction(l0, ti as int, t2);
        }
        self.transactions[ti].status = transaction_status(payload.status.as_str());
        self.transactions[ti].customer_name = clone_text(&payload.customer_name);
        self.transactions[ti].raw_payload = Some(raw);
        assert(self.transactions@ =~= l0.transactions.update(ti as int, t2));
        let ghost l1 = self@;
        proof {
            lemma_wf_set_order(l1, k as int, o2);
        }
        if !terminal {
            self.orders[k].status = next;
            self.orders[k].customer_name = clone_text(&payload.customer_name);
            self.orders[k].webhook_received = true;
            if next != current {
                self.orders[k].updated_at = now;
            }
        }
        assert(self.orders@ =~= l0.orders.update(k as int, o2));
        assert(self@ == sl2);
        let granted = if target == OrderStatus::Completed {
            match self.handle_completed_payment(order_id, now) {
                Ok(g) => g,
                Err(e) => {
                    proof {
                        assert(false);
                    }
                    return Err(e);
                },
            }
        } else {
            false
        };
        Ok(WebhookOutcome { order_id, order_status: next, membership_granted: granted })
    }

}

/// The end of a membership extended by one term from the later of its
/// current end and `now`, when that fits in an `i64`.
pub fn extend_expiry(current: Option<i64>, now: i64) -> (r: Option<i64>)
    ensures
        r is Some <==> extended_expiry(current, now) <= i64::MAX,
        r is Some ==> r->Some_0 == extended_expiry(current, now),
{
    let base = match current {
        Some(e) => if e > now {
            e
        } else {
            now
        },
        None => now,
    };
    base.checked_add(MEMBERSHIP_TERM_SECONDS)
}

} // verus!
