//! The reward distribution coordinator: per-hunt fungible pools, replay-safe
//! distribution records, and the atomic distribution protocol.
//!
//! The fungible-token transfer itself is an external collaborator: the host
//! performs it and reports the outcome as the `transfer_ok` argument. Every
//! state change here happens only after all checks and reported outcomes are
//! known, so a failed nested call leaves no observable change (atomicity).

use vstd::prelude::*;

use crate::errors::RewardErrorCode;
use crate::nft::{NftDataView, NftMetadata, NftMetadataView, NftReward};
use crate::types::clone_bytes;

verus! {

/// One hunt's pool balance.
#[derive(Clone, Copy, Debug, PartialEq, Eq, Structural)]
pub struct PoolBalance {
    pub hunt_id: u64,
    pub balance: i128,
}

/// Immutable record of one successful distribution.
#[derive(Clone, Copy, Debug, PartialEq, Eq, Structural)]
pub struct DistributionRecord {
    /// Fungible amount transferred; zero when only a collectible was issued.
    pub xlm_amount: i128,
    /// Collectible minted by the distribution, when one was requested.
    pub nft_id: Option<u64>,
}

/// Distribution status of a (hunt, player) pair.
#[derive(Clone, Copy, Debug, PartialEq, Eq, Structural)]
pub struct DistributionStatus {
    pub distributed: bool,
    pub xlm_amount: i128,
    pub nft_id: Option<u64>,
}

/// One (hunt, player) entry of the distribution ledger.
#[derive(Clone, Copy, Debug, PartialEq, Eq, Structural)]
pub struct DistributionEntry {
    pub hunt_id: u64,
    pub player: u64,
    pub record: DistributionRecord,
}

/// Mathematical view of a [`RewardConfig`].
#[verifier::ext_equal]
pub struct RewardConfigView {
    pub xlm_amount: Option<i128>,
    pub nft_contract: Option<u64>,
    pub nft_title: Seq<u8>,
    pub nft_description: Seq<u8>,
    pub nft_image_uri: Seq<u8>,
    pub nft_hunt_title: Seq<u8>,
    pub nft_rarity: u32,
    pub nft_tier: u32,
}

impl RewardConfigView {
    /// A fungible reward is requested when a positive amount is configured.
    pub open spec fn has_xlm(self) -> bool {
        match self.xlm_amount {
            Some(a) => a > 0,
            None => false,
        }
    }

    /// A collectible reward is requested when a registry is named.
    pub open spec fn has_nft(self) -> bool {
        self.nft_contract is Some
    }

    /// A configuration is valid when it requests at least one reward type.
    pub open spec fn is_valid(self) -> bool {
        self.has_xlm() || self.has_nft()
    }

    /// The configured fungible amount; zero when none is configured.
    pub open spec fn spec_xlm(self) -> int {
        match self.xlm_amount {
            Some(a) => a as int,
            None => 0,
        }
    }

    /// The registry named by the configuration; zero stands for none and
    /// only matters when `has_nft()` holds.
    pub open spec fn spec_nft_contract(self) -> u64 {
        match self.nft_contract {
            Some(c) => c,
            None => 0,
        }
    }

    /// The collectible metadata this configuration asks the registry to mint.
    pub open spec fn spec_metadata(self) -> NftMetadataView {
        NftMetadataView {
            title: self.nft_title,
            description: self.nft_description,
            image_uri: self.nft_image_uri,
            hunt_title: self.nft_hunt_title,
            rarity: self.nft_rarity,
            tier: self.nft_tier,
        }
    }
}

/// Configuration of one distribution: the fungible amount and/or the
/// collectible to mint.
#[derive(Debug)]
pub struct RewardConfig {
    /// Fungible amount to distribute; `None` when no fungible reward.
    pub xlm_amount: Option<i128>,
    /// Registry that mints the collectible; `None` when no collectible.
    pub nft_contract: Option<u64>,
    pub nft_title: Vec<u8>,
    pub nft_description: Vec<u8>,
    pub nft_image_uri: Vec<u8>,
    /// Hunt title, kept in the collectible metadata for context.
    pub nft_hunt_title: Vec<u8>,
    /// Rarity tier: 0 = default, 1..=5 = common to legendary.
    pub nft_rarity: u32,
    /// Custom tier; 0 = none.
    pub nft_tier: u32,
}

impl View for RewardConfig {
    type V = RewardConfigView;

    open spec fn view(&self) -> RewardConfigView {
        RewardConfigView {
            xlm_amount: self.xlm_amount,
            nft_contract: self.nft_contract,
            nft_title: self.nft_title@,
            nft_description: self.nft_description@,
            nft_image_uri: self.nft_image_uri@,
            nft_hunt_title: self.nft_hunt_title@,
            nft_rarity: self.nft_rarity,
            nft_tier: self.nft_tier,
        }
    }
}

impl Clone for RewardConfig {
    /// Copies the configuration; the copy has the same view.
    fn clone(&self) -> (r: Self)
        ensures
            r@ == self@,
    {
        let r = RewardConfig {
            xlm_amount: self.xlm_amount,
            nft_contract: self.nft_contract,
            nft_title: clone_bytes(&self.nft_title),
            nft_description: clone_bytes(&self.nft_description),
            nft_image_uri: clone_bytes(&self.nft_image_uri),
            nft_hunt_title: clone_bytes(&self.nft_hunt_title),
            nft_rarity: self.nft_rarity,
            nft_tier: self.nft_tier,
        };
        proof {
            assert(r@ =~= self@);
        }
        r
    }
}

impl RewardConfig {
    /// Tells whether a fungible reward is requested.
    pub fn has_xlm(&self) -> (r: bool)
        ensures
            r == self@.has_xlm(),
    {
        match self.xlm_amount {
            Some(a) => a > 0,
            None => false,
        }
    }

    /// Tells whether a collectible reward is requested.
    pub fn has_nft(&self) -> (r: bool)
        ensures
            r == self@.has_nft(),
    {
        self.nft_contract.is_some()
    }

    /// Tells whether at least one reward type is requested.
    pub fn is_valid(&self) -> (r: bool)
        ensures
            r == self@.is_valid(),
    {
        self.has_xlm() || self.has_nft()
    }
}

/// The pool balance recorded for a hunt; zero when no entry exists.
pub open spec fn spec_pool(pools: Seq<PoolBalance>, hunt_id: u64) -> int
    decreases pools.len(),
{
    if pools.len() == 0 {
        0
    } else if pools.last().hunt_id == hunt_id {
        pools.last().balance as int
    } else {
        spec_pool(pools.drop_last(), hunt_id)
    }
}

/// The distribution record of a (hunt, player) pair, if one was written.
pub open spec fn spec_record(records: Seq<DistributionEntry>, hunt_id: u64, player: u64) -> Option<
    DistributionRecord,
>
    decreases records.len(),
{
    if records.len() == 0 {
        None
    } else if records.last().hunt_id == hunt_id && records.last().player == player {
        Some(records.last().record)
    } else {
        spec_record(records.drop_last(), hunt_id, player)
    }
}

/// With pairwise distinct hunt ids, the pool of a hunt is the balance of its
/// entry, wherever it stands.
proof fn lemma_pool_at(pools: Seq<PoolBalance>, k: int)
    requires
        forall|x: int, y: int|
            0 <= x < pools.len() && 0 <= y < pools.len() && x != y ==> (
            #[trigger] pools[x]).hunt_id != (#[trigger] pools[y]).hunt_id,
        0 <= k < pools.len(),
    ensures
        spec_pool(pools, pools[k].hunt_id) == pools[k].balance,
    decreases pools.len(),
{
    if k == pools.len() - 1 {
    } else {
        assert(pools.last().hunt_id != pools[k].hunt_id);
        assert(pools.drop_last()[k] == pools[k]);
        lemma_pool_at(pools.drop_last(), k);
    }
}

/// A hunt with no entry has pool zero.
proof fn lemma_pool_absent(pools: Seq<PoolBalance>, hunt_id: u64)
    requires
        forall|x: int| 0 <= x < pools.len() ==> (#[trigger] pools[x]).hunt_id != hunt_id,
    ensures
        spec_pool(pools, hunt_id) == 0,
    decreases pools.len(),
{
    if pools.len() > 0 {
        lemma_pool_absent(pools.drop_last(), hunt_id);
    }
}

/// Updating the balance of one entry changes only that hunt's pool.
proof fn lemma_pool_update(pools: Seq<PoolBalance>, k: int, b: i128)
    requires
        forall|x: int, y: int|
            0 <= x < pools.len() && 0 <= y < pools.len() && x != y ==> (
            #[trigger] pools[x]).hunt_id != (#[trigger] pools[y]).hunt_id,
        0 <= k < pools.len(),
    ensures
        spec_pool(
            pools.update(k, PoolBalance { hunt_id: pools[k].hunt_id, balance: b }),
            pools[k].hunt_id,
        ) == b,
        forall|h: u64|
            h != pools[k].hunt_id ==> spec_pool(
                pools.update(k, PoolBalance { hunt_id: pools[k].hunt_id, balance: b }),
                h,
            ) == spec_pool(pools, h),
    decreases pools.len(),
{
    let upd = pools.update(k, PoolBalance { hunt_id: pools[k].hunt_id, balance: b });
    assert forall|x: int, y: int|
        0 <= x < upd.len() && 0 <= y < upd.len() && x != y implies (#[trigger] upd[x]).hunt_id != (
    #[trigger] upd[y]).hunt_id by {
        assert(upd[x].hunt_id == pools[x].hunt_id && upd[y].hunt_id == pools[y].hunt_id);
    }
    lemma_pool_at(upd, k);
    assert forall|h: u64| h != pools[k].hunt_id implies spec_pool(upd, h) == spec_pool(
        pools,
        h,
    ) by {
        lemma_pool_other(pools, k, b, h);
    }
}

/// Helper of [`lemma_pool_update`]: an update at `k` leaves every other
/// hunt's pool as it was.
proof fn lemma_pool_other(pools: Seq<PoolBalance>, k: int, b: i128, h: u64)
    requires
        0 <= k < pools.len(),
        h != pools[k].hunt_id,
    ensures
        spec_pool(pools.update(k, PoolBalance { hunt_id: pools[k].hunt_id, balance: b }), h)
            == spec_pool(pools, h),
    decreases pools.len(),
{
    let upd = pools.update(k, PoolBalance { hunt_id: pools[k].hunt_id, balance: b });
    if k == pools.len() - 1 {
        assert(upd.drop_last() =~= pools.drop_last());
    } else {
        assert(upd.last() == pools.last());
        assert(upd.drop_last() =~= pools.drop_last().update(
            k,
            PoolBalance { hunt_id: pools[k].hunt_id, balance: b },
        ));
        assert(pools.drop_last()[k] == pools[k]);
        lemma_pool_other(pools.drop_last(), k, b, h);
    }
}

/// With pairwise distinct pairs, the record of a pair is the one at its
/// entry, wherever it stands.
proof fn lemma_record_at(records: Seq<DistributionEntry>, k: int)
    requires
        forall|x: int, y: int|
            0 <= x < records.len() && 0 <= y < records.len() && x != y ==> !((
            #[trigger] records[x]).hunt_id == (#[trigger] records[y]).hunt_id && records[x].player
                == records[y].player),
        0 <= k < records.len(),
    ensures
        spec_record(records, records[k].hunt_id, records[k].player) == Some(records[k].record),
    decreases records.len(),
{
    if k == records.len() - 1 {
    } else {
        assert(records.drop_last()[k] == records[k]);
        lemma_record_at(records.drop_last(), k);
    }
}

/// A pair with no entry has no record.
proof fn lemma_record_absent(records: Seq<DistributionEntry>, hunt_id: u64, player: u64)
    requires
        forall|x: int|
            0 <= x < records.len() ==> !((#[trigger] records[x]).hunt_id == hunt_id
                && records[x].player == player),
    ensures
        spec_record(records, hunt_id, player) is None,
    decreases records.len(),
{
    if records.len() > 0 {
        lemma_record_absent(records.drop_last(), hunt_id, player);
    }
}

/// Appending an entry for one pair leaves every other pair's record as it
/// was.
proof fn lemma_record_push_other(
    records: Seq<DistributionEntry>,
    e: DistributionEntry,
    hunt_id: u64,
    player: u64,
)
    requires
        !(e.hunt_id == hunt_id && e.player == player),
    ensures
        spec_record(records.push(e), hunt_id, player) == spec_record(records, hunt_id, player),
{
    assert(records.push(e).drop_last() =~= records);
}

/// Appending a pool entry for one hunt leaves every other hunt's pool as it
/// was.
proof fn lemma_pool_push_other(pools: Seq<PoolBalance>, e: PoolBalance, h: u64)
    requires
        e.hunt_id != h,
    ensures
        spec_pool(pools.push(e), h) == spec_pool(pools, h),
{
    assert(pools.push(e).drop_last() =~= pools);
}

/// Finds the index of a hunt's pool entry.
fn find_pool_index(pools: &Vec<PoolBalance>, hunt_id: u64) -> (r: Option<usize>)
    ensures
        match r {
            Some(k) => k < pools@.len() && pools@[k as int].hunt_id == hunt_id,
            None => forall|k: int|
                0 <= k < pools@.len() ==> (#[trigger] pools@[k]).hunt_id != hunt_id,
        },
{
    let mut k: usize = 0;
    while k < pools.len()
        invariant
            0 <= k <= pools@.len(),
            forall|m: int| 0 <= m < k ==> (#[trigger] pools@[m]).hunt_id != hunt_id,
        decreases pools@.len() - k,
    {
        if pools[k].hunt_id == hunt_id {
            return Some(k);
        }
        k = k + 1;
    }
    None
}

/// Finds the index of a (hunt, player) entry in the distribution ledger.
fn find_record_index(records: &Vec<DistributionEntry>, hunt_id: u64, player: u64) -> (r: Option<
    usize,
>)
    ensures
        match r {
            Some(k) => k < records@.len() && records@[k as int].hunt_id == hunt_id
                && records@[k as int].player == player,
            None => forall|k: int|
                0 <= k < records@.len() ==> !((#[trigger] records@[k]).hunt_id == hunt_id
                    && records@[k].player == player),
        },
{
    let mut k: usize = 0;
    while k < records.len()
        invariant
            0 <= k <= records@.len(),
            forall|m: int|
                0 <= m < k ==> !((#[trigger] records@[m]).hunt_id == hunt_id && records@[m].player
                    == player),
        decreases records@.len() - k,
    {
        if records[k].hunt_id == hunt_id && records[k].player == player {
            return Some(k);
        }
        k = k + 1;
    }
    None
}

/// The reward coordinator: the fungible token in use, a default registry,
/// the per-hunt pools, and the distribution ledger.
pub struct RewardManager {
    /// Fungible token contract the pools are held in; set by `initialize`.
    pub xlm_token: Option<u64>,
    /// Default collectible registry, used when a configuration names none.
    pub nft_contract: Option<u64>,
    /// Per-hunt pool balances; one entry per funded hunt.
    pub pools: Vec<PoolBalance>,
    /// One immutable entry per successful distribution.
    pub records: Vec<DistributionEntry>,
}

impl RewardManager {
    /// Structural invariant: pools are keyed uniquely and never negative,
    /// and the ledger holds at most one entry per (hunt, player) pair.
    pub open spec fn wf(self) -> bool {
        &&& forall|x: int, y: int|
            0 <= x < self.pools@.len() && 0 <= y < self.pools@.len() && x != y ==> (
            #[trigger] self.pools@[x]).hunt_id != (#[trigger] self.pools@[y]).hunt_id
        &&& forall|x: int| 0 <= x < self.pools@.len() ==> (#[trigger] self.pools@[x]).balance >= 0
        &&& forall|x: int, y: int|
            0 <= x < self.records@.len() && 0 <= y < self.records@.len() && x != y ==> !((
            #[trigger] self.records@[x]).hunt_id == (#[trigger] self.records@[y]).hunt_id
                && self.records@[x].player == self.records@[y].player)
    }

    /// The pool balance of a hunt; zero when it was never funded.
    pub open spec fn pool_of(self, hunt_id: u64) -> int {
        spec_pool(self.pools@, hunt_id)
    }

    /// The distribution record of a (hunt, player) pair, if any.
    pub open spec fn record_of(self, hunt_id: u64, player: u64) -> Option<DistributionRecord> {
        spec_record(self.records@, hunt_id, player)
    }

    /// The condition under which [`Self::distribute_rewards`] succeeds for a
    /// valid configuration: no prior record, the fungible leg (when
    /// requested) initialized, funded and transferred, and the collectible
    /// leg (when requested) resolved to the registry at hand.
    pub open spec fn spec_distribution_ok(
        self,
        cfg: RewardConfigView,
        hunt_id: u64,
        player: u64,
        registry_addr: u64,
        transfer_ok: bool,
    ) -> bool {
        &&& self.record_of(hunt_id, player) is None
        &&& (cfg.has_xlm() ==> self.xlm_token is Some && self.pool_of(hunt_id) >= cfg.spec_xlm()
            && transfer_ok)
        &&& (cfg.has_nft() ==> cfg.spec_nft_contract() == registry_addr)
    }

    /// A fresh coordinator: uninitialized, no pool, no record.
    pub fn new() -> (r: RewardManager)
        ensures
            r.wf(),
            r.xlm_token is None,
            r.nft_contract is None,
            r.pools@.len() == 0,
            r.records@.len() == 0,
    {
        RewardManager { xlm_token: None, nft_contract: None, pools: Vec::new(), records: Vec::new() }
    }

    /// Records the fungible token contract that pools are held in.
    pub fn initialize(&mut self, xlm_token: u64)
        requires
            old(self).wf(),
        ensures
            final(self).wf(),
            *final(self) == (RewardManager { xlm_token: Some(xlm_token), ..*old(self) }),
    {
        self.xlm_token = Some(xlm_token);
    }

    /// Records the default collectible registry.
    pub fn set_nft_reward_contract(&mut self, nft_contract: u64)
        requires
            old(self).wf(),
        ensures
            final(self).wf(),
            *final(self) == (RewardManager { nft_contract: Some(nft_contract), ..*old(self) }),
    {
        self.nft_contract = Some(nft_contract);
    }

    /// Returns the pool balance of a hunt; zero when it was never funded.
    pub fn get_pool_balance(&self, hunt_id: u64) -> (r: i128)
        requires
            self.wf(),
        ensures
            r == self.pool_of(hunt_id),
    {
        match find_pool_index(&self.pools, hunt_id) {
            Some(k) => {
                proof {
                    lemma_pool_at(self.pools@, k as int);
                }
                self.pools[k].balance
            },
            None => {
                proof {
                    lemma_pool_absent(self.pools@, hunt_id);
                }
                0
            },
        }
    }

    /// Tells whether a reward was already distributed to a player for a hunt.
    pub fn is_reward_distributed(&self, hunt_id: u64, player: u64) -> (r: bool)
        requires
            self.wf(),
        ensures
            r == (self.record_of(hunt_id, player) is Some),
    {
        match find_record_index(&self.records, hunt_id, player) {
            Some(k) => {
                proof {
                    lemma_record_at(self.records@, k as int);
                }
                true
            },
            None => {
                proof {
                    lemma_record_absent(self.records@, hunt_id, player);
                }
                false
            },
        }
    }

    /// Returns the distribution status of a (hunt, player) pair: whether it
    /// was distributed, and the recorded amounts.
    pub fn get_distribution_status(&self, hunt_id: u64, player: u64) -> (r: DistributionStatus)
        requires
            self.wf(),
        ensures
            match self.record_of(hunt_id, player) {
                Some(rec) => r == (DistributionStatus {
                    distributed: true,
                    xlm_amount: rec.xlm_amount,
                    nft_id: rec.nft_id,
                }),
                None => r == (DistributionStatus {
                    distributed: false,
                    xlm_amount: 0,
                    nft_id: None,
                }),
            },
    {
        match find_record_index(&self.records, hunt_id, player) {
            Some(k) => {
                proof {
                    lemma_record_at(self.records@, k as int);
                }
                let rec = self.records[k].record;
                DistributionStatus {
                    distributed: true,
                    xlm_amount: rec.xlm_amount,
                    nft_id: rec.nft_id,
                }
            },
            None => {
                proof {
                    lemma_record_absent(self.records@, hunt_id, player);
                }
                DistributionStatus { distributed: false, xlm_amount: 0, nft_id: None }
            },
        }
    }

    /// Funds a hunt's pool: the host transfers `amount` from the funder into
    /// the coordinator's account and reports the outcome as `transfer_ok`;
    /// only a successful transfer credits the pool. Pools of different hunts
    /// are fully isolated.
    pub fn fund_reward_pool(
        &mut self,
        _funder: u64,
        hunt_id: u64,
        amount: i128,
        transfer_ok: bool,
    ) -> (r: Result<(), RewardErrorCode>)
        requires
            old(self).wf(),
            old(self).pool_of(hunt_id) + amount <= i128::MAX,
        ensures
            final(self).wf(),
            amount <= 0 ==> r == Err::<(), RewardErrorCode>(RewardErrorCode::InvalidAmount)
                && *final(self) == *old(self),
            amount > 0 && old(self).xlm_token is None ==> r == Err::<(), RewardErrorCode>(
                RewardErrorCode::NotInitialized,
            ) && *final(self) == *old(self),
            amount > 0 && old(self).xlm_token is Some && !transfer_ok ==> r == Err::<
                (),
                RewardErrorCode,
            >(RewardErrorCode::TransferFailed) && *final(self) == *old(self),
            amount > 0 && old(self).xlm_token is Some && transfer_ok ==> {
                &&& r == Ok::<(), RewardErrorCode>(())
                &&& final(self).pool_of(hunt_id) == old(self).pool_of(hunt_id) + amount
                &&& forall|h: u64|
                    h != hunt_id ==> #[trigger] final(self).pool_of(h) == old(self).pool_of(h)
                &&& final(self).records == old(self).records
                &&& final(self).xlm_token == old(self).xlm_token
                &&& final(self).nft_contract == old(self).nft_contract
            },
    {
        if amount <= 0 {
            return Err(RewardErrorCode::InvalidAmount);
        }
        if self.xlm_token.is_none() {
            return Err(RewardErrorCode::NotInitialized);
        }
        if !transfer_ok {
            return Err(RewardErrorCode::TransferFailed);
        }
        match find_pool_index(&self.pools, hunt_id) {
            Some(k) => {
                proof {
                    lemma_pool_at(old(self).pools@, k as int);
                    lemma_pool_update(
                        old(self).pools@,
                        k as int,
                        (old(self).pools@[k as int].balance + amount) as i128,
                    );
                }
                let current = self.pools[k].balance;
                let e = &mut self.pools[k];
                e.balance = current + amount;
                proof {
                    assert(self.pools@ =~= old(self).pools@.update(
                        k as int,
                        PoolBalance { hunt_id, balance: (current + amount) as i128 },
                    ));
                }
            },
            None => {
                proof {
                    lemma_pool_absent(self.pools@, hunt_id);
                }
                self.pools.push(PoolBalance { hunt_id, balance: amount });
                proof {
                    assert(self.pools@.last() == (PoolBalance { hunt_id, balance: amount }));
                    assert forall|h: u64| h != hunt_id implies #[trigger] spec_pool(
                        self.pools@,
                        h,
                    ) == spec_pool(old(self).pools@, h) by {
                        lemma_pool_push_other(
                            old(self).pools@,
                            PoolBalance { hunt_id, balance: amount },
                            h,
                        );
                    }
                }
            },
        }
        Ok(())
    }

    /// Distributes a hunt's reward to a player, atomically and at most once
    /// per (hunt, player) pair ever.
    ///
    /// Check order: valid configuration, no prior distribution, then for a
    /// fungible reward the token initialization, the pool balance, and the
    /// host-reported transfer outcome, then for a collectible the registry
    /// resolution — the host resolves the configured registry address and
    /// passes that registry as `registry` with its address as
    /// `registry_addr`. Only when everything succeeded are the pool debited,
    /// the collectible minted, and the record written; any failure leaves
    /// every state untouched.
    pub fn distribute_rewards(
        &mut self,
        registry: &mut NftReward,
        registry_addr: u64,
        hunt_id: u64,
        player_address: u64,
        reward_config: &RewardConfig,
        transfer_ok: bool,
        now: u64,
    ) -> (r: Result<(), RewardErrorCode>)
        requires
            old(self).wf(),
            old(registry).wf(),
            old(registry).spec_total_supply() < u64::MAX,
        ensures
            final(self).wf(),
            final(registry).wf(),
            final(self).xlm_token == old(self).xlm_token,
            final(self).nft_contract == old(self).nft_contract,
            !reward_config@.is_valid() ==> r == Err::<(), RewardErrorCode>(
                RewardErrorCode::InvalidConfig,
            ) && *final(self) == *old(self) && *final(registry) == *old(registry),
            reward_config@.is_valid() && old(self).record_of(hunt_id, player_address) is Some
                ==> r == Err::<(), RewardErrorCode>(RewardErrorCode::AlreadyDistributed)
                && *final(self) == *old(self) && *final(registry) == *old(registry),
            reward_config@.is_valid() && old(self).record_of(hunt_id, player_address) is None
                && reward_config@.has_xlm() && old(self).xlm_token is None ==> r == Err::<
                (),
                RewardErrorCode,
            >(RewardErrorCode::NotInitialized) && *final(self) == *old(self) && *final(registry)
                == *old(registry),
            reward_config@.is_valid() && old(self).record_of(hunt_id, player_address) is None
                && reward_config@.has_xlm() && old(self).xlm_token is Some && old(self).pool_of(
                hunt_id,
            ) < reward_config@.spec_xlm() ==> r == Err::<(), RewardErrorCode>(
                RewardErrorCode::InsufficientPool,
            ) && *final(self) == *old(self) && *final(registry) == *old(registry),
            reward_config@.is_valid() && old(self).record_of(hunt_id, player_address) is None
                && reward_config@.has_xlm() && old(self).xlm_token is Some && old(self).pool_of(
                hunt_id,
            ) >= reward_config@.spec_xlm() && !transfer_ok ==> r == Err::<(), RewardErrorCode>(
                RewardErrorCode::TransferFailed,
            ) && *final(self) == *old(self) && *final(registry) == *old(registry),
            reward_config@.is_valid() && old(self).record_of(hunt_id, player_address) is None && (
            reward_config@.has_xlm() ==> old(self).xlm_token is Some && old(self).pool_of(hunt_id)
                >= reward_config@.spec_xlm() && transfer_ok) && reward_config@.has_nft()
                && reward_config@.spec_nft_contract() != registry_addr ==> r == Err::<
                (),
                RewardErrorCode,
            >(RewardErrorCode::NftMintFailed) && *final(self) == *old(self) && *final(registry)
                == *old(registry),
            reward_config@.is_valid() && old(self).record_of(hunt_id, player_address) is None && (
            reward_config@.has_xlm() ==> old(self).xlm_token is Some && old(self).pool_of(hunt_id)
                >= reward_config@.spec_xlm() && transfer_ok) && (reward_config@.has_nft()
                ==> reward_config@.spec_nft_contract() == registry_addr) ==> {
                &&& r == Ok::<(), RewardErrorCode>(())
                &&& final(self).record_of(hunt_id, player_address) == Some(
                    DistributionRecord {
                        xlm_amount: if reward_config@.has_xlm() {
                            reward_config@.spec_xlm() as i128
                        } else {
                            0
                        },
                        nft_id: if reward_config@.has_nft() {
                            Some((old(registry).spec_total_supply() + 1) as u64)
                        } else {
                            None
                        },
                    },
                )
                &&& forall|h: u64, q: u64|
                    !(h == hunt_id && q == player_address) ==> #[trigger] final(self).record_of(
                        h,
                        q,
                    ) == old(self).record_of(h, q)
                &&& reward_config@.has_xlm() ==> final(self).pool_of(hunt_id) == old(
                    self,
                ).pool_of(hunt_id) - reward_config@.spec_xlm()
                &&& !reward_config@.has_xlm() ==> final(self).pools == old(self).pools
                &&& forall|h: u64|
                    h != hunt_id ==> #[trigger] final(self).pool_of(h) == old(self).pool_of(h)
                &&& reward_config@.has_nft() ==> {
                    &&& final(registry).spec_total_supply() == old(registry).spec_total_supply()
                        + 1
                    &&& final(registry).spec_nft(
                        (old(registry).spec_total_supply() + 1) as u64,
                    ) == (NftDataView {
                        nft_id: (old(registry).spec_total_supply() + 1) as u64,
                        hunt_id,
                        owner: player_address,
                        completion_player: player_address,
                        metadata: reward_config@.spec_metadata(),
                        minted_at: now,
                    })
                    &&& final(registry).spec_owner_ids(player_address) == old(
                        registry,
                    ).spec_owner_ids(player_address).push(
                        (old(registry).spec_total_supply() + 1) as u64,
                    )
                }
                &&& !reward_config@.has_nft() ==> *final(registry) == *old(registry)
            },
    {
        if !reward_config.is_valid() {
            return Err(RewardErrorCode::InvalidConfig);
        }
        match find_record_index(&self.records, hunt_id, player_address) {
            Some(k) => {
                proof {
                    lemma_record_at(self.records@, k as int);
                }
                return Err(RewardErrorCode::AlreadyDistributed);
            },
            None => {
                proof {
                    lemma_record_absent(self.records@, hunt_id, player_address);
                }
            },
        }
        let mut xlm_amount: i128 = 0;
        let mut pool_entry: usize = 0;
        let has_xlm = reward_config.has_xlm();
        if has_xlm {
            let amount = match reward_config.xlm_amount {
                Some(a) => a,
                None => vstd::pervasive::unreached(),
            };
            if self.xlm_token.is_none() {
                return Err(RewardErrorCode::NotInitialized);
            }
            match find_pool_index(&self.pools, hunt_id) {
                Some(k) => {
                    proof {
                        lemma_pool_at(self.pools@, k as int);
                    }
                    if self.pools[k].balance < amount {
                        return Err(RewardErrorCode::InsufficientPool);
                    }
                    pool_entry = k;
                },
                None => {
                    proof {
                        lemma_pool_absent(self.pools@, hunt_id);
                    }
                    return Err(RewardErrorCode::InsufficientPool);
                },
            }
            if !transfer_ok {
                return Err(RewardErrorCode::TransferFailed);
            }
            xlm_amount = amount;
        }
        let has_nft = reward_config.has_nft();
        if has_nft {
            let resolved = match reward_config.nft_contract {
                Some(c) => c,
                None => vstd::pervasive::unreached(),
            };
            if resolved != registry_addr {
                return Err(RewardErrorCode::NftMintFailed);
            }
        }
        if has_xlm {
            proof {
                lemma_pool_at(old(self).pools@, pool_entry as int);
                lemma_pool_update(
                    old(self).pools@,
                    pool_entry as int,
                    (old(self).pools@[pool_entry as int].balance - xlm_amount) as i128,
                );
            }
            let current = self.pools[pool_entry].balance;
            let e = &mut self.pools[pool_entry];
            e.balance = current - xlm_amount;
            proof {
                assert(self.pools@ =~= old(self).pools@.update(
                    pool_entry as int,
                    PoolBalance { hunt_id, balance: (current - xlm_amount) as i128 },
                ));
            }
        }
        let mut nft_id: Option<u64> = None;
        if has_nft {
            let meta = NftMetadata {
                title: clone_bytes(&reward_config.nft_title),
                description: clone_bytes(&reward_config.nft_description),
                image_uri: clone_bytes(&reward_config.nft_image_uri),
                hunt_title: clone_bytes(&reward_config.nft_hunt_title),
                rarity: reward_config.nft_rarity,
                tier: reward_config.nft_tier,
            };
            proof {
                assert(meta@ =~= reward_config@.spec_metadata());
            }
            let minted = registry.mint_reward_nft(hunt_id, player_address, meta, now);
            nft_id = Some(minted);
        }
        let record = DistributionRecord { xlm_amount, nft_id };
        self.records.push(DistributionEntry { hunt_id, player: player_address, record });
        proof {
            assert(self.records@.last() == (DistributionEntry {
                hunt_id,
                player: player_address,
                record,
            }));
            assert forall|h: u64, q: u64|
                !(h == hunt_id && q == player_address) implies #[trigger] spec_record(
                self.records@,
                h,
                q,
            ) == spec_record(old(self).records@, h, q) by {
                lemma_record_push_other(
                    old(self).records@,
                    DistributionEntry { hunt_id, player: player_address, record },
                    h,
                    q,
                );
            }
            assert forall|x: int, y: int|
                0 <= x < self.records@.len() && 0 <= y < self.records@.len() && x != y implies !((
            #[trigger] self.records@[x]).hunt_id == (#[trigger] self.records@[y]).hunt_id
                && self.records@[x].player == self.records@[y].player) by {
                if x < old(self).records@.len() && y < old(self).records@.len() {
                    assert(self.records@[x] == old(self).records@[x]);
                    assert(self.records@[y] == old(self).records@[y]);
                } else if x < old(self).records@.len() {
                    assert(self.records@[x] == old(self).records@[x]);
                    if old(self).records@[x].hunt_id == hunt_id && old(
                        self,
                    ).records@[x].player == player_address {
                        lemma_record_at(old(self).records@, x);
                        assert(false);
                    }
                } else {
                    assert(self.records@[y] == old(self).records@[y]);
                    if old(self).records@[y].hunt_id == hunt_id && old(
                        self,
                    ).records@[y].player == player_address {
                        lemma_record_at(old(self).records@, y);
                        assert(false);
                    }
                }
            }
        }
        Ok(())
    }

    /// Compatibility entry point for fungible-only distributions: builds a
    /// configuration from a bare amount and reports success as a boolean.
    /// A collectible is never issued on this path.
    pub fn distribute_rewards_legacy(
        &mut self,
        registry: &mut NftReward,
        registry_addr: u64,
        player: u64,
        hunt_id: u64,
        xlm_amount: i128,
        _nft_enabled: bool,
        transfer_ok: bool,
        now: u64,
    ) -> (r: bool)
        requires
            old(self).wf(),
            old(registry).wf(),
            old(registry).spec_total_supply() < u64::MAX,
        ensures
            final(self).wf(),
            final(registry).wf(),
            *final(registry) == *old(registry),
            final(self).xlm_token == old(self).xlm_token,
            final(self).nft_contract == old(self).nft_contract,
            xlm_amount <= 0 ==> r == false && *final(self) == *old(self),
            xlm_amount > 0 && old(self).record_of(hunt_id, player) is Some ==> r == false
                && *final(self) == *old(self),
            xlm_amount > 0 && old(self).record_of(hunt_id, player) is None && old(
                self,
            ).xlm_token is None ==> r == false && *final(self) == *old(self),
            xlm_amount > 0 && old(self).record_of(hunt_id, player) is None && old(
                self,
            ).xlm_token is Some && old(self).pool_of(hunt_id) < xlm_amount ==> r == false
                && *final(self) == *old(self),
            xlm_amount > 0 && old(self).record_of(hunt_id, player) is None && old(
                self,
            ).xlm_token is Some && old(self).pool_of(hunt_id) >= xlm_amount && !transfer_ok ==> r
                == false && *final(self) == *old(self),
            xlm_amount > 0 && old(self).record_of(hunt_id, player) is None && old(
                self,
            ).xlm_token is Some && old(self).pool_of(hunt_id) >= xlm_amount && transfer_ok ==> {
                &&& r == true
                &&& final(self).record_of(hunt_id, player) == Some(
                    DistributionRecord { xlm_amount, nft_id: None },
                )
                &&& forall|h: u64, q: u64|
                    !(h == hunt_id && q == player) ==> #[trigger] final(self).record_of(h, q)
                        == old(self).record_of(h, q)
                &&& final(self).pool_of(hunt_id) == old(self).pool_of(hunt_id) - xlm_amount
                &&& forall|h: u64|
                    h != hunt_id ==> #[trigger] final(self).pool_of(h) == old(self).pool_of(h)
            },
    {
        let config = RewardConfig {
            xlm_amount: if xlm_amount > 0 {
                Some(xlm_amount)
            } else {
                None
            },
            nft_contract: None,
            nft_title: Vec::new(),
            nft_description: Vec::new(),
            nft_image_uri: Vec::new(),
            nft_hunt_title: Vec::new(),
            nft_rarity: 0,
            nft_tier: 0,
        };
        let result = self.distribute_rewards(
            registry,
            registry_addr,
            hunt_id,
            player,
            &config,
            transfer_ok,
            now,
        );
        result.is_ok()
    }
}

} // verus!
