//! A custodial ledger for pooled funds and escrowed remittances.
//!
//! The crate holds two engines and a registry. The fund pool
//! ([`family_pool`], [`pool_rules`], [`pool_contract`]) keeps deposits that a
//! group of members owns together and releases them under role-based
//! approval. The escrow ([`remittance`], [`remittance_contract`]) keeps one
//! sender's transfer until the recipient presents the redemption code or the
//! sender cancels. The registry ([`token_wrapper`]) knows the tokens and
//! their rates of exchange.
//!
//! All three are plain state machines. The host authenticates the caller,
//! supplies the ledger time, moves the tokens and persists the state; what it
//! learned and what it did come in as arguments ([`host`]). Each operation
//! that moves tokens comes in two parts: one that names the transfer needed,
//! or the reason for refusing, and changes nothing; and one that, told how
//! the transfer ended, records the operation or leaves everything as it was.
//!
//! What each operation does is stated over a mathematical model of the state,
//! and proved. [`pool_laws`] and [`remittance_laws`] state what holds whatever
//! is asked of an engine.
pub mod digest;
pub mod error;
pub mod family_pool;
pub mod host;
pub mod identity;
pub mod ids;
pub mod pool_audit;
pub mod pool_contract;
pub mod pool_laws;
pub mod pool_lookup;
pub mod pool_rules;
pub mod rates;
pub mod remittance;
pub mod remittance_contract;
pub mod remittance_laws;
pub mod search;
pub mod token_wrapper;
