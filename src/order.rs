//! Order and transaction statuses, and how processor reports move them.
use vstd::prelude::*;

verus! {

/// Status of an order. `Pending` is initial; `Completed`, `Cancelled`,
/// `Failed` and `Refunded` are terminal, except that a completed order may
/// still be refunded.
#[derive(Debug, Clone, Copy, PartialEq, Eq, Structural)]
pub enum OrderStatus {
    Pending,
    Processing,
    Completed,
    Cancelled,
    Failed,
    Refunded,
}

/// Status of one payment attempt with the processor.
#[derive(Debug, Clone, Copy, PartialEq, Eq, Structural)]
pub enum TransactionStatus {
    Pending,
    Processing,
    Completed,
    Failed,
    Cancelled,
}

impl OrderStatus {
    pub open spec fn spec_is_terminal(&self) -> bool {
        match *self {
            OrderStatus::Pending | OrderStatus::Processing => false,
            _ => true,
        }
    }

    /// The fixed partial order of statuses: pending may move to processing
    /// or to an outcome, processing to an outcome, completed to refunded.
    /// Re-asserting the current status is not a move.
    pub open spec fn spec_can_transition(&self, to: OrderStatus) -> bool {
        match (*self, to) {
            (OrderStatus::Pending, OrderStatus::Processing) => true,
            (OrderStatus::Pending, OrderStatus::Completed) => true,
            (OrderStatus::Pending, OrderStatus::Cancelled) => true,
            (OrderStatus::Pending, OrderStatus::Failed) => true,
            (OrderStatus::Processing, OrderStatus::Completed) => true,
            (OrderStatus::Processing, OrderStatus::Cancelled) => true,
            (OrderStatus::Processing, OrderStatus::Failed) => true,
            (OrderStatus::Completed, OrderStatus::Refunded) => true,
            _ => false,
        }
    }

    #[verifier::when_used_as_spec(spec_is_terminal)]
    pub fn is_terminal(&self) -> (r: bool)
        ensures
            r == self.spec_is_terminal(),
    {
        match self {
            OrderStatus::Pending | OrderStatus::Processing => false,
            _ => true,
        }
    }

    #[verifier::when_used_as_spec(spec_can_transition)]
    pub fn can_transition(&self, to: OrderStatus) -> (r: bool)
        ensures
            r == self.spec_can_transition(to),
    {
        match (*self, to) {
            (OrderStatus::Pending, OrderStatus::Processing) => true,
            (OrderStatus::Pending, OrderStatus::Completed) => true,
            (OrderStatus::Pending, OrderStatus::Cancelled) => true,
            (OrderStatus::Pending, OrderStatus::Failed) => true,
            (OrderStatus::Processing, OrderStatus::Completed) => true,
            (OrderStatus::Processing, OrderStatus::Cancelled) => true,
            (OrderStatus::Processing, OrderStatus::Failed) => true,
            (OrderStatus::Completed, OrderStatus::Refunded) => true,
            _ => false,
        }
    }

    /// The status name as stored and shown.
    pub fn as_str(&self) -> (r: &'static str)
        ensures
            r@ == order_status_text(*self),
    {
        match self {
            OrderStatus::Pending => "pending",
            OrderStatus::Processing => "processing",
            OrderStatus::Completed => "completed",
            OrderStatus::Cancelled => "cancelled",
            OrderStatus::Failed => "failed",
            OrderStatus::Refunded => "refunded",
        }
    }
}

pub open spec fn order_status_text(s: OrderStatus) -> Seq<char> {
    match s {
        OrderStatus::Pending => "pending"@,
        OrderStatus::Processing => "processing"@,
        OrderStatus::Completed => "completed"@,
        OrderStatus::Cancelled => "cancelled"@,
        OrderStatus::Failed => "failed"@,
        OrderStatus::Refunded => "refunded"@,
    }
}

/// The order status that a processor status asks for: `completed` completes,
/// `failed` and `cancelled` cancel, anything else means processing.
pub open spec fn order_target_for(status: Seq<char>) -> OrderStatus {
    if status == "completed"@ {
        OrderStatus::Completed
    } else if status == "failed"@ || status == "cancelled"@ {
        OrderStatus::Cancelled
    } else {
        OrderStatus::Processing
    }
}

/// The transaction status recorded for a processor status; unknown names
/// count as processing.
pub open spec fn transaction_status_for(status: Seq<char>) -> TransactionStatus {
    if status == "pending"@ {
        TransactionStatus::Pending
    } else if status == "completed"@ {
        TransactionStatus::Completed
    } else if status == "failed"@ {
        TransactionStatus::Failed
    } else if status == "cancelled"@ {
        TransactionStatus::Cancelled
    } else {
        TransactionStatus::Processing
    }
}

/// Where a webhook asking for `target` leaves an order in status `current`:
/// it moves when the partial order allows it and stays otherwise, so a
/// terminal order or a repeated report is a no-op.
pub open spec fn after_webhook(current: OrderStatus, target: OrderStatus) -> OrderStatus {
    if current.spec_can_transition(target) {
        target
    } else {
        current
    }
}

fn text_is(s: &str, word: &str) -> (r: bool)
    ensures
        r == (s@ == word@),
{
    let a = String::from_str(s);
    let b = String::from_str(word);
    a == b
}

/// The order status that a processor status asks for.
pub fn order_target(status: &str) -> (r: OrderStatus)
    ensures
        r == order_target_for(status@),
{
    if text_is(status, "completed") {
        OrderStatus::Completed
    } else if text_is(status, "failed") || text_is(status, "cancelled") {
        OrderStatus::Cancelled
    } else {
        OrderStatus::Processing
    }
}

/// The transaction status recorded for a processor status.
pub fn transaction_status(status: &str) -> (r: TransactionStatus)
    ensures
        r == transaction_status_for(status@),
{
    if text_is(status, "pending") {
        TransactionStatus::Pending
    } else if text_is(status, "completed") {
        TransactionStatus::Completed
    } else if text_is(status, "failed") {
        TransactionStatus::Failed
    } else if text_is(status, "cancelled") {
        TransactionStatus::Cancelled
    } else {
        TransactionStatus::Processing
    }
}

} // verus!
