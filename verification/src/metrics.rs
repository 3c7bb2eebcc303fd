//! What the node remembers of the work it did last.
use crate::config::OnchainWalletAccount;
use crate::vec_map::{MapKey, VecMap};
use vstd::prelude::*;

verus! {

impl MapKey for OnchainWalletAccount {
    fn key_eq(&self, other: &Self) -> (same: bool) {
        *self == *other
    }

    fn key_copy(&self) -> (copy: Self) {
        *self
    }
}

/// The times and heights at which the node last did its recurring work.
pub struct NodeMetrics {
    pub latest_lightning_wallet_sync_timestamp: Option<u64>,
    pub latest_onchain_wallet_sync_timestamp: Option<u64>,
    pub latest_fee_rate_cache_update_timestamp: Option<u64>,
    pub latest_rgs_snapshot_timestamp: Option<u32>,
    pub latest_channel_monitor_archival_height: Option<u32>,
    /// When each account besides the primary wallet was last synced.
    pub wallet_sync_timestamps: VecMap<OnchainWalletAccount, u64>,
}

impl NodeMetrics {
    /// When an account was last synced.
    pub open spec fn synced_at(self, account: OnchainWalletAccount) -> Option<u64> {
        if self.wallet_sync_timestamps@.dom().contains(account) {
            Some(self.wallet_sync_timestamps@[account])
        } else {
            None
        }
    }

    /// Nothing was done yet.
    pub fn new() -> (metrics: Self)
        ensures
            metrics.latest_lightning_wallet_sync_timestamp is None,
            metrics.latest_onchain_wallet_sync_timestamp is None,
            metrics.latest_fee_rate_cache_update_timestamp is None,
            metrics.latest_rgs_snapshot_timestamp is None,
            metrics.latest_channel_monitor_archival_height is None,
            metrics.wallet_sync_timestamps@ == Map::<OnchainWalletAccount, u64>::empty(),
    {
        NodeMetrics {
            latest_lightning_wallet_sync_timestamp: None,
            latest_onchain_wallet_sync_timestamp: None,
            latest_fee_rate_cache_update_timestamp: None,
            latest_rgs_snapshot_timestamp: None,
            latest_channel_monitor_archival_height: None,
            wallet_sync_timestamps: VecMap::new(),
        }
    }

    /// When an account was last synced.
    pub fn get_wallet_sync_timestamp(&self, account: OnchainWalletAccount) -> (at: Option<u64>)
        ensures
            at == self.synced_at(account),
    {
        match self.wallet_sync_timestamps.get(&account) {
            Some(at) => Some(*at),
            None => None,
        }
    }

    /// Notes that an account was synced.
    pub fn set_wallet_sync_timestamp(&mut self, account: OnchainWalletAccount, at: u64)
        ensures
            final(self).wallet_sync_timestamps@ == old(self).wallet_sync_timestamps@.insert(
                account,
                at,
            ),
            final(self).same_but_for_accounts(*old(self)),
    {
        self.wallet_sync_timestamps.insert(account, at);
    }

    /// Whether two records agree in everything but the times at which accounts were synced.
    pub open spec fn same_but_for_accounts(self, other: Self) -> bool {
        &&& self.latest_lightning_wallet_sync_timestamp
            == other.latest_lightning_wallet_sync_timestamp
        &&& self.latest_onchain_wallet_sync_timestamp == other.latest_onchain_wallet_sync_timestamp
        &&& self.latest_fee_rate_cache_update_timestamp
            == other.latest_fee_rate_cache_update_timestamp
        &&& self.latest_rgs_snapshot_timestamp == other.latest_rgs_snapshot_timestamp
        &&& self.latest_channel_monitor_archival_height
            == other.latest_channel_monitor_archival_height
    }
}

/// Whether an account is in a list.
pub fn contains_account(
    accounts: &Vec<OnchainWalletAccount>,
    account: OnchainWalletAccount,
) -> (found: bool)
    ensures
        found == accounts@.contains(account),
{
    let mut i: usize = 0;
    while i < accounts.len()
        invariant
            i <= accounts@.len(),
            forall|j: int| 0 <= j < i ==> accounts@[j] != account,
        decreases accounts@.len() - i,
    {
        if accounts[i] == account {
            return true;
        }
        i += 1;
    }
    false
}

/// What is noted for an account is told of it, and nothing else is changed by it: neither what was noted for
/// other accounts, nor any of the other times and heights.
pub proof fn law_noted_syncs_are_told(
    before: NodeMetrics,
    after: NodeMetrics,
    account: OnchainWalletAccount,
    at: u64,
    other: OnchainWalletAccount,
)
    requires
        after.wallet_sync_timestamps@ == before.wallet_sync_timestamps@.insert(account, at),
        after.same_but_for_accounts(before),
    ensures
        after.synced_at(account) == Some(at),
        other != account ==> after.synced_at(other) == before.synced_at(other),
        !before.wallet_sync_timestamps@.dom().contains(other) && other != account
            ==> after.synced_at(other) is None,
        after.latest_lightning_wallet_sync_timestamp
            == before.latest_lightning_wallet_sync_timestamp,
        after.latest_onchain_wallet_sync_timestamp == before.latest_onchain_wallet_sync_timestamp,
        after.latest_fee_rate_cache_update_timestamp
            == before.latest_fee_rate_cache_update_timestamp,
        after.latest_rgs_snapshot_timestamp == before.latest_rgs_snapshot_timestamp,
        after.latest_channel_monitor_archival_height
            == before.latest_channel_monitor_archival_height,
{
}

/// Noting a sync and asking for it gives the time that was noted, and the times of other accounts stay.
pub proof fn law_the_noted_time_is_given(
    metrics: &mut NodeMetrics,
    account: OnchainWalletAccount,
    at: u64,
    other: OnchainWalletAccount,
    noted: Option<u64>,
    before: Option<u64>,
    after: Option<u64>,
)
    requires
        other != account,
        call_ensures(NodeMetrics::get_wallet_sync_timestamp, (&*old(metrics), other), before),
        call_ensures(NodeMetrics::set_wallet_sync_timestamp, (metrics, account, at), ()),
        call_ensures(NodeMetrics::get_wallet_sync_timestamp, (&*final(metrics), account), noted),
        call_ensures(NodeMetrics::get_wallet_sync_timestamp, (&*final(metrics), other), after),
    ensures
        noted == Some(at),
        after == before,
        final(metrics).latest_onchain_wallet_sync_timestamp == old(
            metrics
        ).latest_onchain_wallet_sync_timestamp,
        final(metrics).latest_lightning_wallet_sync_timestamp == old(
            metrics
        ).latest_lightning_wallet_sync_timestamp,
{
}

} // verus!
