//! A proof-of-authority ledger node: blocks, the authority registry, the
//! ledger with its validation rules, peer synchronisation decisions, the
//! contract engine and the resource broker.

pub mod block;
pub mod blockchain;
pub mod crypto;
pub mod encoding;
pub mod miner;
pub mod network;
pub mod node;
pub mod poa;
pub mod resource_manager;
pub mod server;
pub mod smart_contract;
pub mod string_map;
pub mod words;
