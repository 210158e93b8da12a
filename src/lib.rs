//! A regtest gateway in front of one full-node daemon: address validation,
//! serialized access to the single upstream connection, and the mapping of
//! upstream results into response shapes.

pub mod address;
pub mod config;
pub mod error;
pub mod gateway;
pub mod guard;
pub mod logger;
pub mod utxo;
