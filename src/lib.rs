//! A registry of trading pairs for an automated market maker: pair types and
//! their fees, the two-step creation of pairs, their removal, paginated
//! queries, and a two-party handshake for handing over ownership.

pub mod assets;
pub mod config;
pub mod contract;
pub mod error;
pub mod factory;
pub mod laws;
pub mod lex;
pub mod registry;
