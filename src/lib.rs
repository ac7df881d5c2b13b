//! A registry of decentralized identities: each identity string is bound to an
//! owning account, a document pointer, delegated accounts and a trust score.
use vstd::prelude::*;

pub mod chain;
pub mod error;
pub mod table;
pub mod record;
pub mod registry;
pub mod contract;
pub mod laws;
