//! Order reconciliation for a storefront that sells a yearly membership:
//! cart pricing in integer cents, an order ledger with a fixed status
//! machine, transfer bookkeeping, authenticated payment webhooks, and
//! membership entitlement granted at most once per order.
pub mod auth;
pub mod error;
pub mod laws;
pub mod ledger;
pub mod order;
pub mod pricing;
pub mod store;
pub mod webhook;
