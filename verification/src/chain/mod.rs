//! Keeping the wallets up to date with the chain.
pub mod bitcoind;
pub mod bitcoind_rpc;
pub mod cbf;
pub mod electrum;
pub mod esplora;
pub mod events;
pub mod fees;
pub mod filters;
pub mod headers;
pub mod json;
pub mod kyoto;
pub mod mempool;
pub mod scripts;
pub mod source;
pub mod status;
pub mod sync;
