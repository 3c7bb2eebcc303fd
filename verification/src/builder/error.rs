//! Why a node cannot be built.
use vstd::prelude::*;

verus! {

/// An error encountered during building a node.
#[derive(Clone, Copy, Debug, PartialEq, Eq, Structural)]
pub enum BuildError {
    /// The seed bytes or a seed-derived wallet configuration are invalid.
    InvalidSeedBytes,
    /// The given seed file is invalid, e.g., has invalid length, or could not be read.
    InvalidSeedFile,
    /// The current system time is invalid, clocks might have gone backwards.
    InvalidSystemTime,
    /// The a read channel monitor is invalid.
    InvalidChannelMonitor,
    /// The given listening addresses are invalid, e.g. too many were passed.
    InvalidListeningAddresses,
    /// The given announcement addresses are invalid, e.g. too many were passed.
    InvalidAnnouncementAddresses,
    /// The provided alias is invalid.
    InvalidNodeAlias,
    /// An attempt to setup a runtime has failed.
    RuntimeSetupFailed,
    /// We failed to read data from the store.
    ReadFailed,
    /// The deserialized channel data would be dangerous to use, typically because channel monitors
    /// are stale compared to the channel manager.
    DangerousValue,
    /// We failed to write data to the store.
    WriteFailed,
    /// We failed to access the given `storage_dir_path`.
    StoragePathAccessFailed,
    /// We failed to setup our store.
    KVStoreSetupFailed,
    /// We failed to setup the onchain wallet.
    WalletSetupFailed,
    /// We failed to setup the logger.
    LoggerSetupFailed,
    /// The given network does not match the node's previously configured network.
    NetworkMismatch,
    /// The role of the node in an asynchronous payments context is not compatible with the current
    /// configuration.
    AsyncPaymentsConfigMismatch,
}

impl BuildError {
    /// The error in words.
    pub open spec fn spec_message(self) -> &'static str {
        match self {
            BuildError::InvalidSeedBytes =>
                "Given seed bytes or seed-derived wallet configuration are invalid.",
            BuildError::InvalidSeedFile => "Given seed file is invalid or could not be read.",
            BuildError::InvalidSystemTime =>
                "System time is invalid. Clocks might have gone back in time.",
            BuildError::InvalidChannelMonitor => "Failed to watch a deserialized ChannelMonitor",
            BuildError::InvalidListeningAddresses => "Given listening addresses are invalid.",
            BuildError::InvalidAnnouncementAddresses => "Given announcement addresses are invalid.",
            BuildError::RuntimeSetupFailed => "Failed to setup a runtime.",
            BuildError::ReadFailed => "Failed to read from store.",
            BuildError::DangerousValue =>
                "Deserialized channel data is dangerous to use (stale channel monitors).",
            BuildError::WriteFailed => "Failed to write to store.",
            BuildError::StoragePathAccessFailed => "Failed to access the given storage path.",
            BuildError::KVStoreSetupFailed => "Failed to setup KVStore.",
            BuildError::WalletSetupFailed => "Failed to setup onchain wallet.",
            BuildError::LoggerSetupFailed => "Failed to setup the logger.",
            BuildError::InvalidNodeAlias => "Given node alias is invalid.",
            BuildError::NetworkMismatch =>
                "Given network does not match the node's previously configured network.",
            BuildError::AsyncPaymentsConfigMismatch =>
                "The async payments role is not compatible with the current configuration.",
        }
    }

    /// The error in words.
    pub fn message(&self) -> (text: String)
        ensures
            text@ == self.spec_message()@,
    {
        let text = match self {
            BuildError::InvalidSeedBytes =>
                "Given seed bytes or seed-derived wallet configuration are invalid.",
            BuildError::InvalidSeedFile => "Given seed file is invalid or could not be read.",
            BuildError::InvalidSystemTime =>
                "System time is invalid. Clocks might have gone back in time.",
            BuildError::InvalidChannelMonitor => "Failed to watch a deserialized ChannelMonitor",
            BuildError::InvalidListeningAddresses => "Given listening addresses are invalid.",
            BuildError::InvalidAnnouncementAddresses => "Given announcement addresses are invalid.",
            BuildError::RuntimeSetupFailed => "Failed to setup a runtime.",
            BuildError::ReadFailed => "Failed to read from store.",
            BuildError::DangerousValue =>
                "Deserialized channel data is dangerous to use (stale channel monitors).",
            BuildError::WriteFailed => "Failed to write to store.",
            BuildError::StoragePathAccessFailed => "Failed to access the given storage path.",
            BuildError::KVStoreSetupFailed => "Failed to setup KVStore.",
            BuildError::WalletSetupFailed => "Failed to setup onchain wallet.",
            BuildError::LoggerSetupFailed => "Failed to setup the logger.",
            BuildError::InvalidNodeAlias => "Given node alias is invalid.",
            BuildError::NetworkMismatch =>
                "Given network does not match the node's previously configured network.",
            BuildError::AsyncPaymentsConfigMismatch =>
                "The async payments role is not compatible with the current configuration.",
        };
        text.to_owned()
    }
}

/// Every error says what went wrong.
pub proof fn law_errors_say_what_went_wrong()
    ensures
        BuildError::InvalidSeedBytes.spec_message()@
            == "Given seed bytes or seed-derived wallet configuration are invalid."@,
        BuildError::InvalidSeedFile.spec_message()@
            == "Given seed file is invalid or could not be read."@,
        BuildError::InvalidSystemTime.spec_message()@
            == "System time is invalid. Clocks might have gone back in time."@,
        BuildError::InvalidChannelMonitor.spec_message()@
            == "Failed to watch a deserialized ChannelMonitor"@,
        BuildError::InvalidListeningAddresses.spec_message()@
            == "Given listening addresses are invalid."@,
        BuildError::InvalidAnnouncementAddresses.spec_message()@
            == "Given announcement addresses are invalid."@,
        BuildError::RuntimeSetupFailed.spec_message()@
            == "Failed to setup a runtime."@,
        BuildError::ReadFailed.spec_message()@
            == "Failed to read from store."@,
        BuildError::DangerousValue.spec_message()@
            == "Deserialized channel data is dangerous to use (stale channel monitors)."@,
        BuildError::WriteFailed.spec_message()@
            == "Failed to write to store."@,
        BuildError::StoragePathAccessFailed.spec_message()@
            == "Failed to access the given storage path."@,
        BuildError::KVStoreSetupFailed.spec_message()@
            == "Failed to setup KVStore."@,
        BuildError::WalletSetupFailed.spec_message()@
            == "Failed to setup onchain wallet."@,
        BuildError::LoggerSetupFailed.spec_message()@
            == "Failed to setup the logger."@,
        BuildError::InvalidNodeAlias.spec_message()@
            == "Given node alias is invalid."@,
        BuildError::NetworkMismatch.spec_message()@
            == "Given network does not match the node's previously configured network."@,
        BuildError::AsyncPaymentsConfigMismatch.spec_message()@
            == "The async payments role is not compatible with the current configuration."@,
{
}

} // verus!
