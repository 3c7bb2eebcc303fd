//! The decision core of a Lightning node: which state it keeps, which rules it follows, and what
//! it asks of the wallet, the chain source and the key-value store around it.
//!
//! Everything here is free of I/O. Where the node has to talk to the outside world, a function of
//! this library says what to ask for, and another one takes the answer and says what follows.
pub mod access;
pub mod balance;
pub mod bench;
pub mod builder;
pub mod chain;
pub mod channel;
pub mod closed_channel;
pub mod config;
pub mod connection;
pub mod data_store;
pub mod error;
pub mod hex;
pub mod item_set;
pub mod keys;
pub mod metrics;
pub mod payment;
pub mod server;
pub mod sort;
pub mod text;
pub mod tlv;
pub mod transaction;
pub mod types;
pub mod vec_map;
