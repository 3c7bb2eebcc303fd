//! What can go wrong while a node is running.
use vstd::prelude::*;

verus! {

/// An error of a running node.
#[derive(Clone, Copy, Debug, PartialEq, Eq, Structural)]
pub enum Error {
    NotRunning,
    ConnectionFailed,
    InvalidSocketAddress,
    InvalidPublicKey,
    InvalidInvoice,
    PersistenceFailed,
    InvalidPageToken,
    FeerateEstimationUpdateFailed,
    FeerateEstimationUpdateTimeout,
    WalletOperationFailed,
    WalletOperationTimeout,
    TxSyncFailed,
    TxSyncTimeout,
    BackgroundSyncNotEnabled,
    ChannelSplicingFailed,
    OnchainWalletAccountNotRegistered,
    /// The chain data changed while it was being read.
    ChainAccessInconsistency,
    FundingTxCreationFailed,
}

/// How an access to the key-value store failed.
#[derive(Clone, Copy, Debug, PartialEq, Eq, Structural)]
pub enum IoErrorKind {
    NotFound,
    InvalidInput,
    Other,
}

} // verus!
