//! A custodial settlement vault: per-user balances of two whitelisted
//! assets, atomic two-leg trade settlement with fee collection, and an
//! append-only, queryable settlement history.
//!
//! The vault is an explicit state machine: configuration (admin, asset
//! whitelist, matching engine) and ledger state live in a
//! [`vault::SettlementContract`] value, and every privileged operation
//! takes the verified caller identity as an argument.  The surrounding
//! host is expected to authenticate callers, move real funds, persist
//! the state, and publish the event values built by [`events`].

pub mod types;

pub mod balances;

pub mod history;

pub mod records;

pub mod vault;

pub mod events;

pub mod laws;
