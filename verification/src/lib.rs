//! Genesis accounts configuration: the bootstrap account and delegation
//! entities of a ledger's genesis state, together with the canonical,
//! byte-for-byte reproducible binary encoding they are exchanged in, the
//! load rule for the external accounts source, and the adapter that turns
//! a finished configuration into the records the execution engine seeds
//! the initial ledger state from.

pub mod account;
pub mod codec;
pub mod config;
pub mod delegator;
pub mod genesis;
pub mod primitives;
