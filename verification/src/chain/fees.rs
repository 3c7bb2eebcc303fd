//! The rates at which fees are paid, by how soon a transaction has to be confirmed.
use crate::vec_map::{MapKey, VecMap};
use vstd::prelude::*;

verus! {

/// How soon a transaction of the Lightning wallet has to be confirmed.
#[derive(Clone, Copy, Debug, PartialEq, Eq, Structural)]
pub enum LdkConfirmationTarget {
    MaximumFeeEstimate,
    UrgentOnChainSweep,
    MinAllowedAnchorChannelRemoteFee,
    MinAllowedNonAnchorChannelRemoteFee,
    AnchorChannelFee,
    NonAnchorChannelFee,
    ChannelCloseMinimum,
    OutputSpendingFee,
}

/// How soon a transaction has to be confirmed.
#[derive(Clone, Copy, Debug, PartialEq, Eq, Structural)]
pub enum ConfirmationTarget {
    /// A payment of the on-chain wallet.
    OnchainPayment,
    /// The funding of a channel.
    ChannelFunding,
    /// A transaction of the Lightning wallet.
    Lightning(LdkConfirmationTarget),
}

impl MapKey for ConfirmationTarget {
    fn key_eq(&self, other: &Self) -> (same: bool) {
        *self == *other
    }

    fn key_copy(&self) -> (copy: Self) {
        *self
    }
}

/// Fee rates in satoshis per 1000 weight units.
pub type FeeRateCache = VecMap<ConfirmationTarget, u64>;

/// Whether a cache holds the rates of a list, each adjusted to its target.
pub open spec fn holds_rates<A: Fn(ConfirmationTarget, u64) -> u64>(
    cache: Map<ConfirmationTarget, u64>,
    targets: Seq<ConfirmationTarget>,
    rates: Seq<u64>,
    adjust: A,
) -> bool {
    &&& forall|target: ConfirmationTarget| #[trigger]
        cache.dom().contains(target) <==> exists|i: int|
            0 <= i < targets.len() && i < rates.len() && #[trigger] targets[i] == target
    &&& forall|i: int|
        0 <= i < targets.len() && i < rates.len() ==> call_ensures(
            adjust,
            (#[trigger] targets[i], rates[i]),
            cache[targets[i]],
        )
}

/// The rates of a list, each adjusted to its target. Where the lists are not of one length, what is
/// left over is ignored.
pub fn fee_rate_cache<A: Fn(ConfirmationTarget, u64) -> u64>(
    targets: &Vec<ConfirmationTarget>,
    rates: &Vec<u64>,
    adjust: &A,
) -> (cache: FeeRateCache)
    requires
        targets@.no_duplicates(),
        forall|target: ConfirmationTarget, rate: u64| #[trigger]
            call_requires(adjust, (target, rate)),
    ensures
        holds_rates(cache@, targets@, rates@, *adjust),
{
    let mut cache: FeeRateCache = VecMap::new();
    let mut i: usize = 0;
    while i < targets.len() && i < rates.len()
        invariant
            i <= targets@.len(),
            i <= rates@.len(),
            targets@.no_duplicates(),
            forall|target: ConfirmationTarget, rate: u64| #[trigger]
                call_requires(adjust, (target, rate)),
            forall|target: ConfirmationTarget| #[trigger]
                cache@.dom().contains(target) <==> exists|j: int|
                    0 <= j < i && #[trigger] targets@[j] == target,
            forall|j: int|
                0 <= j < i ==> call_ensures(
                    *adjust,
                    (#[trigger] targets@[j], rates@[j]),
                    cache@[targets@[j]],
                ),
        decreases targets@.len() - i,
    {
        let target = targets[i];
        let adjusted: u64 = adjust(target, rates[i]);
        let ghost before = cache@;
        cache.insert(target, adjusted);
        proof {
            assert forall|t: ConfirmationTarget| #[trigger]
                cache@.dom().contains(t) <==> exists|j: int|
                    0 <= j < i + 1 && #[trigger] targets@[j] == t by {
                if cache@.dom().contains(t) {
                    if t == target {
                        assert(targets@[i as int] == t);
                    } else {
                        assert(before.dom().contains(t));
                    }
                }
                if exists|j: int| 0 <= j < i + 1 && #[trigger] targets@[j] == t {
                    let j = choose|j: int| 0 <= j < i + 1 && #[trigger] targets@[j] == t;
                    if j < i {
                        assert(before.dom().contains(t));
                    }
                }
            }
            assert forall|j: int| 0 <= j < i + 1 implies call_ensures(
                *adjust,
                (#[trigger] targets@[j], rates@[j]),
                cache@[targets@[j]],
            ) by {
                if j < i {
                    assert(targets@[j] != targets@[i as int]);
                }
            }
        }
        i += 1;
    }
    cache
}

/// Whether a list holds the rate that a source gives for each of the targets.
pub open spec fn are_rates_for<R: Fn(ConfirmationTarget) -> u64>(
    rates: Seq<u64>,
    targets: Seq<ConfirmationTarget>,
    rate_for: R,
) -> bool {
    &&& rates.len() == targets.len()
    &&& forall|i: int|
        0 <= i < rates.len() ==> call_ensures(rate_for, (targets[i],), #[trigger] rates[i])
}

/// The rates that a source gives for a list of targets.
pub fn rates_for<R: Fn(ConfirmationTarget) -> u64>(
    targets: &Vec<ConfirmationTarget>,
    rate_for: &R,
) -> (rates: Vec<u64>)
    requires
        forall|target: ConfirmationTarget| #[trigger] call_requires(rate_for, (target,)),
    ensures
        are_rates_for(rates@, targets@, *rate_for),
{
    let mut rates: Vec<u64> = Vec::new();
    let mut i: usize = 0;
    while i < targets.len()
        invariant
            i <= targets@.len(),
            rates@.len() == i,
            forall|target: ConfirmationTarget| #[trigger] call_requires(rate_for, (target,)),
            forall|j: int|
                0 <= j < i ==> call_ensures(*rate_for, (targets@[j],), #[trigger] rates@[j]),
        decreases targets@.len() - i,
    {
        rates.push(rate_for(targets[i]));
        i += 1;
    }
    rates
}

/// Each target that there is a rate for has its own rate, as it is adjusted for that very target, and no
/// other target has one.
pub proof fn law_every_target_has_its_rate<A: Fn(ConfirmationTarget, u64) -> u64>(
    cache: Map<ConfirmationTarget, u64>,
    targets: Seq<ConfirmationTarget>,
    rates: Seq<u64>,
    adjust: A,
    i: int,
    target: ConfirmationTarget,
)
    requires
        holds_rates(cache, targets, rates, adjust),
    ensures
        0 <= i < targets.len() && i < rates.len() ==> cache.dom().contains(targets[i])
            && call_ensures(adjust, (targets[i], rates[i]), cache[targets[i]]),
        cache.dom().contains(target) ==> exists|k: int|
            0 <= k < targets.len() && k < rates.len() && #[trigger] targets[k] == target,
{
}

/// There are as many rates as targets, and each is the rate for its target.
pub proof fn law_rates_are_those_of_their_targets<R: Fn(ConfirmationTarget) -> u64>(
    rates: Seq<u64>,
    targets: Seq<ConfirmationTarget>,
    rate_for: R,
    i: int,
)
    requires
        are_rates_for(rates, targets, rate_for),
    ensures
        rates.len() == targets.len(),
        0 <= i < targets.len() ==> call_ensures(rate_for, (targets[i],), rates[i]),
{
}

} // verus!
