use vstd::prelude::*;

verus! {

/// The kinds of failure that the library reports.
#[derive(Debug, Clone, Copy, PartialEq, Eq, Structural)]
pub enum ErrorKind {
    /// Empty cart, a non-positive price, an amount too large to hold, or
    /// an order that is no longer open for payment.
    Validation,
    /// A missing or mismatched webhook signature.
    Auth,
    /// A webhook body that does not decode.
    MalformedPayload,
    /// An unknown transfer, order or user.
    NotFound,
    /// The payment processor could not create a transfer.
    Processor,
    /// The store cannot commit the write.
    Persistence,
}

} // verus!
