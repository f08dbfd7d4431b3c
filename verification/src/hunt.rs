//! The hunt engine: hunt lifecycle, clue store, player progress, claims.
//!
//! The engine owns its durable state as plain values. Time is handed in by
//! the host as a `now` argument; authorization proofs and event emission are
//! the host's duty and are not modelled here.

use vstd::prelude::*;

use crate::answer::{normalize_answer, normalize_bytes, sha256, sha256_of, valid_answer};
use crate::errors::{HuntError, HuntErrorCode};
use crate::nft::NftReward;
use crate::reward::{RewardConfig as DistributionConfig, RewardConfigView, RewardManager};
use crate::types::{
    clone_bytes, clone_ids, contains_id, Clue, ClueInfo, Hunt, HuntStatus, HuntView,
    PlayerProgress, ProgressView, RewardConfig,
};

verus! {

/// Longest accepted hunt title, in bytes.
pub const MAX_TITLE_LENGTH: usize = 200;

/// Longest accepted hunt description, in bytes.
pub const MAX_DESCRIPTION_LENGTH: usize = 2000;

/// Longest accepted clue question, in bytes.
pub const MAX_QUESTION_LENGTH: usize = 2000;

/// Longest accepted answer submission, in bytes.
pub const MAX_ANSWER_LENGTH: usize = 256;

/// Most clues a single hunt may hold.
pub const MAX_CLUES_PER_HUNT: usize = 100;

/// Most leaderboard entries returned by a single query.
pub const MAX_LEADERBOARD_SIZE: u32 = 20;

/// The points a clue id is worth under a clue store; zero for an unknown id.
pub open spec fn spec_points_of(clues: Seq<Clue>, id: u32) -> int {
    if 1 <= id <= clues.len() {
        clues[id - 1].points as int
    } else {
        0
    }
}

/// The total score of a list of completed clue ids.
pub open spec fn spec_score(clues: Seq<Clue>, ids: Seq<u32>) -> int
    decreases ids.len(),
{
    if ids.len() == 0 {
        0
    } else {
        spec_score(clues, ids.drop_last()) + spec_points_of(clues, ids.last())
    }
}

/// Well-formedness of one progress record against its hunt's clue store:
/// completed clues are distinct, known, and the score is their point sum.
pub open spec fn progress_wf(clues: Seq<Clue>, p: PlayerProgress) -> bool {
    &&& p.completed_clues@.no_duplicates()
    &&& forall|m: int|
        0 <= m < p.completed_clues@.len() ==> 1 <= #[trigger] p.completed_clues@[m] <= clues.len()
    &&& p.total_score == spec_score(clues, p.completed_clues@)
}

/// The scavenger-hunt engine: hunts, their clue stores, player progress, and
/// the address of the reward coordinator, when one is wired up.
pub struct HuntyCore {
    /// Hunt `i + 1` lives at index `i`.
    pub hunts: Vec<Hunt>,
    /// Clue store of hunt `i + 1` at index `i`; clue `j + 1` at inner index `j`.
    pub clues: Vec<Vec<Clue>>,
    /// Progress records of hunt `i + 1` at index `i`, in registration order.
    pub players: Vec<Vec<PlayerProgress>>,
    /// Address of the reward coordinator used by claims, when configured.
    pub reward_manager: Option<u64>,
}

/// Appending a clue to the store leaves the score of previously known clue
/// ids unchanged.
proof fn lemma_score_push(clues: Seq<Clue>, c: Clue, ids: Seq<u32>)
    requires
        forall|m: int| 0 <= m < ids.len() ==> 1 <= #[trigger] ids[m] <= clues.len(),
    ensures
        spec_score(clues.push(c), ids) == spec_score(clues, ids),
    decreases ids.len(),
{
    if ids.len() > 0 {
        lemma_score_push(clues, c, ids.drop_last());
        assert(1 <= ids.last() <= clues.len());
        assert(clues.push(c)[ids.last() - 1] == clues[ids.last() - 1]);
    }
}

/// A player has completed every required clue of the store.
pub open spec fn all_required_done(clues: Seq<Clue>, done: Seq<u32>) -> bool {
    forall|j: int|
        0 <= j < clues.len() && (#[trigger] clues[j]).is_required ==> done.contains(
            clues[j].clue_id,
        )
}

/// Distinct clue ids drawn from `1..=n` cannot number more than `n`.
proof fn lemma_unique_ids_bound(ids: Seq<u32>, n: int)
    requires
        ids.no_duplicates(),
        forall|m: int| 0 <= m < ids.len() ==> 1 <= #[trigger] ids[m] <= n,
        0 <= n,
    ensures
        ids.len() <= n,
{
    let s = ids.map_values(|x: u32| x as int);
    assert(s.no_duplicates());
    s.unique_seq_to_set();
    assert forall|x: int| s.to_set().contains(x) implies vstd::set_lib::set_int_range(
        1,
        n + 1,
    ).contains(x) by {
        let m = choose|m: int| 0 <= m < s.len() && s[m] == x;
        assert(1 <= ids[m] <= n);
    }
    vstd::set_lib::lemma_int_range(1, n + 1);
    vstd::set_lib::lemma_len_subset(s.to_set(), vstd::set_lib::set_int_range(1, n + 1));
}

/// A score over `k` completed clues is at most `k` times the largest point
/// value a clue can carry.
proof fn lemma_score_bound(clues: Seq<Clue>, ids: Seq<u32>)
    ensures
        spec_score(clues, ids) <= ids.len() * 0xffff_ffff,
        spec_score(clues, ids) >= 0,
    decreases ids.len(),
{
    if ids.len() > 0 {
        lemma_score_bound(clues, ids.drop_last());
    }
}

/// Compares two byte strings for equality.
fn bytes_eq(a: &Vec<u8>, b: &Vec<u8>) -> (r: bool)
    ensures
        r == (a@ == b@),
{
    if a.len() != b.len() {
        return false;
    }
    let mut k: usize = 0;
    while k < a.len()
        invariant
            a@.len() == b@.len(),
            0 <= k <= a@.len(),
            forall|m: int| 0 <= m < k ==> a@[m] == b@[m],
        decreases a@.len() - k,
    {
        if a[k] != b[k] {
            return false;
        }
        k = k + 1;
    }
    proof {
        assert(a@ =~= b@);
    }
    true
}

/// Checks whether every required clue of the store occurs in `done`.
fn check_all_required_clues_completed(clues: &Vec<Clue>, done: &Vec<u32>) -> (r: bool)
    ensures
        r == all_required_done(clues@, done@),
{
    let mut j: usize = 0;
    while j < clues.len()
        invariant
            0 <= j <= clues@.len(),
            forall|m: int|
                0 <= m < j && (#[trigger] clues@[m]).is_required ==> done@.contains(
                    clues@[m].clue_id,
                ),
        decreases clues@.len() - j,
    {
        if clues[j].is_required {
            if !contains_id(done, clues[j].clue_id) {
                return false;
            }
        }
        j = j + 1;
    }
    true
}

/// Number of players in the list that completed the hunt.
pub open spec fn spec_completed_count(players: Seq<PlayerProgress>) -> int
    decreases players.len(),
{
    if players.len() == 0 {
        0
    } else {
        spec_completed_count(players.drop_last()) + if players.last().is_completed {
            1int
        } else {
            0int
        }
    }
}

/// Sum of the players' total scores.
pub open spec fn spec_score_sum(players: Seq<PlayerProgress>) -> int
    decreases players.len(),
{
    if players.len() == 0 {
        0
    } else {
        spec_score_sum(players.drop_last()) + players.last().total_score
    }
}

/// The aggregate statistics of a list of progress records.
pub open spec fn spec_statistics(players: Seq<PlayerProgress>) -> crate::types::HuntStatistics {
    let n = players.len() as int;
    let completed = spec_completed_count(players);
    let sum = spec_score_sum(players);
    crate::types::HuntStatistics {
        total_players: n as u32,
        completed_count: completed as u32,
        completion_rate_percent: (if n > 0 {
            completed * 100 / n
        } else {
            0
        }) as u32,
        total_score_sum: sum as u64,
        average_score: (if n > 0 {
            sum / n
        } else {
            0
        }) as u32,
    }
}

/// A prefix of the players never counts more completions than the whole list,
/// and never sums to a larger score.
proof fn lemma_prefix_aggregates(players: Seq<PlayerProgress>, i: int)
    requires
        0 <= i <= players.len(),
    ensures
        0 <= spec_completed_count(players.subrange(0, i)) <= spec_completed_count(players),
        spec_completed_count(players) <= players.len(),
        0 <= spec_score_sum(players.subrange(0, i)) <= spec_score_sum(players),
    decreases players.len(),
{
    if players.len() == 0 {
        assert(players.subrange(0, i) =~= players);
    } else if i == players.len() {
        assert(players.subrange(0, i) =~= players);
        lemma_prefix_aggregates(players.drop_last(), players.len() - 1);
        assert(players.drop_last().subrange(0, players.len() - 1) =~= players.drop_last());
    } else {
        lemma_prefix_aggregates(players.drop_last(), i);
        assert(players.drop_last().subrange(0, i) =~= players.subrange(0, i));
    }
}

/// The per-winner fungible amount a claim on this hunt distributes.
pub open spec fn spec_claim_amount(h: HuntView) -> int {
    h.reward_config.spec_reward_per_winner()
}

/// The distribution configuration a claim on this hunt hands to the reward
/// coordinator: the per-winner fungible share when positive, and the hunt's
/// collectible award when enabled and a registry is configured.
pub open spec fn spec_claim_config(h: HuntView) -> RewardConfigView {
    RewardConfigView {
        xlm_amount: if spec_claim_amount(h) > 0 {
            Some(spec_claim_amount(h) as i128)
        } else {
            None
        },
        nft_contract: if h.reward_config.nft_enabled && h.reward_config.nft_contract is Some {
            h.reward_config.nft_contract
        } else {
            None
        },
        nft_title: if h.reward_config.nft_enabled && h.reward_config.nft_contract is Some {
            h.title
        } else {
            Seq::empty()
        },
        nft_description: if h.reward_config.nft_enabled && h.reward_config.nft_contract is Some {
            h.description
        } else {
            Seq::empty()
        },
        nft_image_uri: Seq::empty(),
        nft_hunt_title: if h.reward_config.nft_enabled && h.reward_config.nft_contract is Some {
            h.title
        } else {
            Seq::empty()
        },
        nft_rarity: 0,
        nft_tier: 0,
    }
}

/// Finds the index of a player's progress record in a registration list.
fn find_player_index(list: &Vec<PlayerProgress>, player: u64) -> (r: Option<usize>)
    ensures
        match r {
            Some(k) => k < list@.len() && list@[k as int].player == player,
            None => forall|k: int| 0 <= k < list@.len() ==> (#[trigger] list@[k]).player != player,
        },
{
    let mut k: usize = 0;
    while k < list.len()
        invariant
            0 <= k <= list@.len(),
            forall|m: int| 0 <= m < k ==> (#[trigger] list@[m]).player != player,
        decreases list@.len() - k,
    {
        if list[k].player == player {
            return Some(k);
        }
        k = k + 1;
    }
    None
}

impl HuntyCore {
    /// Structural invariant of the engine state.
    pub open spec fn wf(self) -> bool {
        &&& self.clues@.len() == self.hunts@.len()
        &&& self.players@.len() == self.hunts@.len()
        &&& forall|i: int|
            0 <= i < self.hunts@.len() ==> (#[trigger] self.hunts@[i]).hunt_id == i + 1
        &&& forall|i: int|
            0 <= i < self.hunts@.len() ==> (#[trigger] self.clues@[i])@.len()
                == self.hunts@[i].total_clues
        &&& forall|i: int|
            0 <= i < self.hunts@.len() ==> (#[trigger] self.clues@[i])@.len()
                <= MAX_CLUES_PER_HUNT
        &&& forall|i: int, j: int|
            0 <= i < self.hunts@.len() && 0 <= j < self.clues@[i]@.len() ==> (
            #[trigger] self.clues@[i]@[j]).clue_id == j + 1
        &&& forall|i: int|
            0 <= i < self.hunts@.len() ==> (#[trigger] self.hunts@[i]).reward_config.claimed_count
                <= self.hunts@[i].reward_config.max_winners
        &&& forall|i: int, k: int|
            0 <= i < self.hunts@.len() && 0 <= k < self.players@[i]@.len() ==> (
            #[trigger] self.players@[i]@[k]).hunt_id == i + 1
        &&& forall|i: int, k: int, l: int|
            0 <= i < self.hunts@.len() && 0 <= k < self.players@[i]@.len() && 0 <= l
                < self.players@[i]@.len() && k != l ==> (#[trigger] self.players@[i]@[k]).player
                != (#[trigger] self.players@[i]@[l]).player
        &&& forall|i: int, k: int|
            0 <= i < self.hunts@.len() && 0 <= k < self.players@[i]@.len() ==> progress_wf(
                self.clues@[i]@,
                #[trigger] self.players@[i]@[k],
            )
    }

    /// Number of hunts created so far.
    pub open spec fn hunt_count(self) -> nat {
        self.hunts@.len()
    }

    /// Tells whether a hunt with this id exists.
    pub open spec fn has_hunt(self, hunt_id: u64) -> bool {
        1 <= hunt_id <= self.hunts@.len()
    }

    /// View of the hunt with this id; meaningful only when it exists.
    pub open spec fn spec_hunt(self, hunt_id: u64) -> HuntView {
        self.hunts@[hunt_id - 1]@
    }

    /// Clue store of the hunt with this id; meaningful only when it exists.
    pub open spec fn spec_clues(self, hunt_id: u64) -> Seq<Clue> {
        self.clues@[hunt_id - 1]@
    }

    /// Progress records of the hunt with this id; meaningful only when it
    /// exists.
    pub open spec fn spec_players(self, hunt_id: u64) -> Seq<PlayerProgress> {
        self.players@[hunt_id - 1]@
    }

    /// Tells whether the player is registered for the hunt.
    pub open spec fn has_player(self, hunt_id: u64, player: u64) -> bool {
        exists|k: int|
            0 <= k < self.spec_players(hunt_id).len() && (#[trigger] self.spec_players(
                hunt_id,
            )[k]).player == player
    }

    /// Index of the player's progress record; meaningful only when the player
    /// is registered (by well-formedness the index is then unique).
    pub open spec fn spec_player_idx(self, hunt_id: u64, player: u64) -> int {
        choose|k: int|
            0 <= k < self.spec_players(hunt_id).len() && (#[trigger] self.spec_players(
                hunt_id,
            )[k]).player == player
    }

    /// View of the player's progress record; meaningful only when registered.
    pub open spec fn spec_progress(self, hunt_id: u64, player: u64) -> ProgressView {
        self.spec_players(hunt_id)[self.spec_player_idx(hunt_id, player)]@
    }

    /// The claim gates: the player completed the hunt, has not claimed yet,
    /// and the hunt has winner slots configured with one still free.
    pub open spec fn spec_claim_gates(self, hunt_id: u64, player: u64) -> bool {
        &&& self.has_hunt(hunt_id)
        &&& self.has_player(hunt_id, player)
        &&& self.spec_progress(hunt_id, player).is_completed
        &&& !self.spec_progress(hunt_id, player).reward_claimed
        &&& self.spec_hunt(hunt_id).reward_config.max_winners > 0
        &&& self.spec_hunt(hunt_id).reward_config.claimed_count < self.spec_hunt(
            hunt_id,
        ).reward_config.max_winners
    }

    /// A claim on this hunt invokes the reward coordinator when one is wired
    /// up and the hunt's configuration requests at least one reward.
    pub open spec fn spec_claim_invokes(self, hunt_id: u64) -> bool {
        self.reward_manager is Some && spec_claim_config(self.spec_hunt(hunt_id)).is_valid()
    }

    /// A fresh engine with no hunt.
    pub fn new() -> (r: HuntyCore)
        ensures
            r.wf(),
            r.hunt_count() == 0,
            r.reward_manager is None,
    {
        HuntyCore { hunts: Vec::new(), clues: Vec::new(), players: Vec::new(), reward_manager: None }
    }

    /// Creates a hunt in `Draft` status with a zeroed reward configuration
    /// and no clue, and returns its fresh id.
    ///
    /// The `start_time` argument is accepted but currently not enforced.
    pub fn create_hunt(
        &mut self,
        creator: u64,
        title: Vec<u8>,
        description: Vec<u8>,
        _start_time: Option<u64>,
        end_time: Option<u64>,
        now: u64,
    ) -> (r: Result<u64, HuntErrorCode>)
        requires
            old(self).wf(),
            old(self).hunt_count() < u64::MAX,
        ensures
            final(self).wf(),
            final(self).reward_manager == old(self).reward_manager,
            title@.len() == 0 || title@.len() > MAX_TITLE_LENGTH ==> r == Err::<
                u64,
                HuntErrorCode,
            >(HuntErrorCode::InvalidTitle) && *final(self) == *old(self),
            1 <= title@.len() <= MAX_TITLE_LENGTH && description@.len() > MAX_DESCRIPTION_LENGTH
                ==> r == Err::<u64, HuntErrorCode>(HuntErrorCode::InvalidDescription) && *final(self) == *old(self),
            1 <= title@.len() <= MAX_TITLE_LENGTH && description@.len() <= MAX_DESCRIPTION_LENGTH
                ==> {
                &&& r == Ok::<u64, HuntErrorCode>((old(self).hunt_count() + 1) as u64)
                &&& final(self).hunt_count() == old(self).hunt_count() + 1
                &&& final(self).hunts@.subrange(0, old(self).hunt_count() as int) == old(self).hunts@
                &&& final(self).clues@.subrange(0, old(self).hunt_count() as int) == old(self).clues@
                &&& final(self).players@.subrange(0, old(self).hunt_count() as int) == old(self).players@
                &&& final(self).spec_hunt((old(self).hunt_count() + 1) as u64) == (HuntView {
                    hunt_id: (old(self).hunt_count() + 1) as u64,
                    creator,
                    title: title@,
                    description: description@,
                    status: HuntStatus::Draft,
                    created_at: now,
                    activated_at: 0,
                    end_time: match end_time {
                        Some(t) => t,
                        None => 0,
                    },
                    reward_config: RewardConfig {
                        xlm_pool: 0,
                        nft_enabled: false,
                        nft_contract: None,
                        max_winners: 0,
                        claimed_count: 0,
                    },
                    total_clues: 0,
                    required_clues: 0,
                })
                &&& final(self).spec_clues((old(self).hunt_count() + 1) as u64) == Seq::<
                    Clue,
                >::empty()
                &&& final(self).spec_players((old(self).hunt_count() + 1) as u64) == Seq::<
                    PlayerProgress,
                >::empty()
            },
    {
        let title_len = title.len();
        if title_len == 0 {
            return Err(HuntErrorCode::InvalidTitle);
        }
        if title_len > MAX_TITLE_LENGTH {
            return Err(HuntErrorCode::InvalidTitle);
        }
        if description.len() > MAX_DESCRIPTION_LENGTH {
            return Err(HuntErrorCode::InvalidDescription);
        }
        let hunt_id = (self.hunts.len() as u64) + 1;
        let reward_config = RewardConfig::new(0, false, None, 0);
        let hunt = Hunt {
            hunt_id,
            creator,
            title,
            description,
            status: HuntStatus::Draft,
            created_at: now,
            activated_at: 0,
            end_time: match end_time {
                Some(t) => t,
                None => 0,
            },
            reward_config,
            total_clues: 0,
            required_clues: 0,
        };
        self.hunts.push(hunt);
        self.clues.push(Vec::new());
        self.players.push(Vec::new());
        proof {
            assert(final(self).hunts@.subrange(0, old(self).hunt_count() as int) =~= old(self).hunts@);
            assert(final(self).clues@.subrange(0, old(self).hunt_count() as int) =~= old(self).clues@);
            assert(final(self).players@.subrange(0, old(self).hunt_count() as int) =~= old(self).players@);
            assert(final(self).spec_hunt(hunt_id) =~= (HuntView {
                hunt_id,
                creator,
                title: title@,
                description: description@,
                status: HuntStatus::Draft,
                created_at: now,
                activated_at: 0,
                end_time: match end_time {
                    Some(t) => t,
                    None => 0,
                },
                reward_config: RewardConfig {
                    xlm_pool: 0,
                    nft_enabled: false,
                    nft_contract: None,
                    max_winners: 0,
                    claimed_count: 0,
                },
                total_clues: 0,
                required_clues: 0,
            }));
        }
        Ok(hunt_id)
    }

    /// Returns a copy of the hunt record.
    pub fn get_hunt_info(&self, hunt_id: u64) -> (r: Result<Hunt, HuntErrorCode>)
        requires
            self.wf(),
        ensures
            match r {
                Ok(h) => self.has_hunt(hunt_id) && h@ == self.spec_hunt(hunt_id),
                Err(e) => !self.has_hunt(hunt_id) && e == HuntErrorCode::HuntNotFound,
            },
    {
        if hunt_id == 0 || hunt_id > self.hunts.len() as u64 {
            return Err(HuntErrorCode::HuntNotFound);
        }
        let idx = (hunt_id - 1) as usize;
        Ok(self.hunts[idx].clone())
    }

    /// Records the reward coordinator that claims distribute through.
    pub fn set_reward_manager(&mut self, reward_manager: u64)
        requires
            old(self).wf(),
        ensures
            final(self).wf(),
            final(self).reward_manager == Some(reward_manager),
            final(self).hunts == old(self).hunts,
            final(self).clues == old(self).clues,
            final(self).players == old(self).players,
    {
        self.reward_manager = Some(reward_manager);
    }

    /// Replaces the reward configuration of a hunt with a fresh one (no slot
    /// claimed yet).
    pub fn set_reward_config(&mut self, hunt_id: u64, config: RewardConfig) -> (r: Result<
        (),
        HuntErrorCode,
    >)
        requires
            old(self).wf(),
            config.claimed_count <= config.max_winners,
        ensures
            final(self).wf(),
            final(self).reward_manager == old(self).reward_manager,
            !old(self).has_hunt(hunt_id) ==> r == Err::<(), HuntErrorCode>(
                HuntErrorCode::HuntNotFound,
            ) && *final(self) == *old(self),
            old(self).has_hunt(hunt_id) ==> {
                &&& r == Ok::<(), HuntErrorCode>(())
                &&& final(self).hunts@.len() == old(self).hunts@.len()
                &&& final(self).spec_hunt(hunt_id) == (HuntView {
                    reward_config: config,
                    ..old(self).spec_hunt(hunt_id)
                })
                &&& forall|j: int|
                    0 <= j < old(self).hunts@.len() && j != hunt_id - 1
                        ==> final(self).hunts@[j] == old(self).hunts@[j]
                &&& final(self).clues == old(self).clues
                &&& final(self).players == old(self).players
            },
    {
        if hunt_id == 0 || hunt_id > self.hunts.len() as u64 {
            return Err(HuntErrorCode::HuntNotFound);
        }
        let idx = (hunt_id - 1) as usize;
        let h = &mut self.hunts[idx];
        h.reward_config = config;
        proof {
            assert(final(self).spec_hunt(hunt_id) =~= (HuntView {
                reward_config: config,
                ..old(self).spec_hunt(hunt_id)
            }));
        }
        Ok(())
    }

    /// Activates a draft hunt: creator only, at least one clue required.
    pub fn activate_hunt(&mut self, hunt_id: u64, caller: u64, now: u64) -> (r: Result<
        (),
        HuntErrorCode,
    >)
        requires
            old(self).wf(),
        ensures
            final(self).wf(),
            !old(self).has_hunt(hunt_id) ==> r == Err::<(), HuntErrorCode>(
                HuntErrorCode::HuntNotFound,
            ) && *final(self) == *old(self),
            old(self).has_hunt(hunt_id) && caller != old(self).spec_hunt(hunt_id).creator ==> r
                == Err::<(), HuntErrorCode>(HuntErrorCode::Unauthorized) && *final(self) == *old(self),
            old(self).has_hunt(hunt_id) && caller == old(self).spec_hunt(hunt_id).creator && old(self).spec_hunt(hunt_id).status != HuntStatus::Draft ==> r == Err::<(), HuntErrorCode>(
                HuntErrorCode::InvalidHuntStatus,
            ) && *final(self) == *old(self),
            old(self).has_hunt(hunt_id) && caller == old(self).spec_hunt(hunt_id).creator && old(self).spec_hunt(hunt_id).status == HuntStatus::Draft && old(self).spec_hunt(
                hunt_id,
            ).total_clues == 0 ==> r == Err::<(), HuntErrorCode>(HuntErrorCode::NoCluesAdded)
                && *final(self) == *old(self),
            old(self).has_hunt(hunt_id) && caller == old(self).spec_hunt(hunt_id).creator && old(self).spec_hunt(hunt_id).status == HuntStatus::Draft && old(self).spec_hunt(
                hunt_id,
            ).total_clues > 0 ==> {
                &&& r == Ok::<(), HuntErrorCode>(())
                &&& final(self).hunts@.len() == old(self).hunts@.len()
                &&& final(self).spec_hunt(hunt_id) == (HuntView {
                    status: HuntStatus::Active,
                    activated_at: now,
                    ..old(self).spec_hunt(hunt_id)
                })
                &&& forall|j: int|
                    0 <= j < old(self).hunts@.len() && j != hunt_id - 1
                        ==> final(self).hunts@[j] == old(self).hunts@[j]
                &&& final(self).clues == old(self).clues
                &&& final(self).players == old(self).players
                &&& final(self).reward_manager == old(self).reward_manager
            },
    {
        if hunt_id == 0 || hunt_id > self.hunts.len() as u64 {
            return Err(HuntErrorCode::HuntNotFound);
        }
        let idx = (hunt_id - 1) as usize;
        if caller != self.hunts[idx].creator {
            return Err(HuntErrorCode::Unauthorized);
        }
        if self.hunts[idx].status != HuntStatus::Draft {
            return Err(HuntErrorCode::InvalidHuntStatus);
        }
        if self.hunts[idx].total_clues == 0 {
            return Err(HuntErrorCode::NoCluesAdded);
        }
        let h = &mut self.hunts[idx];
        h.status = HuntStatus::Active;
        h.activated_at = now;
        proof {
            assert(final(self).spec_hunt(hunt_id) =~= (HuntView {
                status: HuntStatus::Active,
                activated_at: now,
                ..old(self).spec_hunt(hunt_id)
            }));
        }
        Ok(())
    }

    /// Deactivates an active hunt back to `Draft`; creator only. Clues and
    /// player progress are preserved.
    pub fn deactivate_hunt(&mut self, hunt_id: u64, caller: u64) -> (r: Result<
        (),
        HuntErrorCode,
    >)
        requires
            old(self).wf(),
        ensures
            final(self).wf(),
            !old(self).has_hunt(hunt_id) ==> r == Err::<(), HuntErrorCode>(
                HuntErrorCode::HuntNotFound,
            ) && *final(self) == *old(self),
            old(self).has_hunt(hunt_id) && caller != old(self).spec_hunt(hunt_id).creator ==> r
                == Err::<(), HuntErrorCode>(HuntErrorCode::Unauthorized) && *final(self) == *old(self),
            old(self).has_hunt(hunt_id) && caller == old(self).spec_hunt(hunt_id).creator && old(self).spec_hunt(hunt_id).status != HuntStatus::Active ==> r == Err::<(), HuntErrorCode>(
                HuntErrorCode::InvalidHuntStatus,
            ) && *final(self) == *old(self),
            old(self).has_hunt(hunt_id) && caller == old(self).spec_hunt(hunt_id).creator && old(self).spec_hunt(hunt_id).status == HuntStatus::Active ==> {
                &&& r == Ok::<(), HuntErrorCode>(())
                &&& final(self).hunts@.len() == old(self).hunts@.len()
                &&& final(self).spec_hunt(hunt_id) == (HuntView {
                    status: HuntStatus::Draft,
                    ..old(self).spec_hunt(hunt_id)
                })
                &&& forall|j: int|
                    0 <= j < old(self).hunts@.len() && j != hunt_id - 1
                        ==> final(self).hunts@[j] == old(self).hunts@[j]
                &&& final(self).clues == old(self).clues
                &&& final(self).players == old(self).players
                &&& final(self).reward_manager == old(self).reward_manager
            },
    {
        if hunt_id == 0 || hunt_id > self.hunts.len() as u64 {
            return Err(HuntErrorCode::HuntNotFound);
        }
        let idx = (hunt_id - 1) as usize;
        if caller != self.hunts[idx].creator {
            return Err(HuntErrorCode::Unauthorized);
        }
        if self.hunts[idx].status != HuntStatus::Active {
            return Err(HuntErrorCode::InvalidHuntStatus);
        }
        let h = &mut self.hunts[idx];
        h.status = HuntStatus::Draft;
        proof {
            assert(final(self).spec_hunt(hunt_id) =~= (HuntView {
                status: HuntStatus::Draft,
                ..old(self).spec_hunt(hunt_id)
            }));
        }
        Ok(())
    }

    /// Cancels a hunt; creator only. `Completed` and `Cancelled` hunts cannot
    /// be cancelled, and cancellation is terminal.
    pub fn cancel_hunt(&mut self, hunt_id: u64, caller: u64) -> (r: Result<(), HuntErrorCode>)
        requires
            old(self).wf(),
        ensures
            final(self).wf(),
            !old(self).has_hunt(hunt_id) ==> r == Err::<(), HuntErrorCode>(
                HuntErrorCode::HuntNotFound,
            ) && *final(self) == *old(self),
            old(self).has_hunt(hunt_id) && caller != old(self).spec_hunt(hunt_id).creator ==> r
                == Err::<(), HuntErrorCode>(HuntErrorCode::Unauthorized) && *final(self) == *old(self),
            old(self).has_hunt(hunt_id) && caller == old(self).spec_hunt(hunt_id).creator && (old(self).spec_hunt(hunt_id).status == HuntStatus::Completed || old(self).spec_hunt(
                hunt_id,
            ).status == HuntStatus::Cancelled) ==> r == Err::<(), HuntErrorCode>(
                HuntErrorCode::InvalidHuntStatus,
            ) && *final(self) == *old(self),
            old(self).has_hunt(hunt_id) && caller == old(self).spec_hunt(hunt_id).creator && old(self).spec_hunt(hunt_id).status != HuntStatus::Completed && old(self).spec_hunt(
                hunt_id,
            ).status != HuntStatus::Cancelled ==> {
                &&& r == Ok::<(), HuntErrorCode>(())
                &&& final(self).hunts@.len() == old(self).hunts@.len()
                &&& final(self).spec_hunt(hunt_id) == (HuntView {
                    status: HuntStatus::Cancelled,
                    ..old(self).spec_hunt(hunt_id)
                })
                &&& forall|j: int|
                    0 <= j < old(self).hunts@.len() && j != hunt_id - 1
                        ==> final(self).hunts@[j] == old(self).hunts@[j]
                &&& final(self).clues == old(self).clues
                &&& final(self).players == old(self).players
                &&& final(self).reward_manager == old(self).reward_manager
            },
    {
        if hunt_id == 0 || hunt_id > self.hunts.len() as u64 {
            return Err(HuntErrorCode::HuntNotFound);
        }
        let idx = (hunt_id - 1) as usize;
        if caller != self.hunts[idx].creator {
            return Err(HuntErrorCode::Unauthorized);
        }
        if self.hunts[idx].status == HuntStatus::Completed {
            return Err(HuntErrorCode::InvalidHuntStatus);
        }
        if self.hunts[idx].status == HuntStatus::Cancelled {
            return Err(HuntErrorCode::InvalidHuntStatus);
        }
        let h = &mut self.hunts[idx];
        h.status = HuntStatus::Cancelled;
        proof {
            assert(final(self).spec_hunt(hunt_id) =~= (HuntView {
                status: HuntStatus::Cancelled,
                ..old(self).spec_hunt(hunt_id)
            }));
        }
        Ok(())
    }

    /// Adds a clue to a draft hunt: the question is validated, the answer is
    /// normalized and hashed, and the clue receives the next sequential id.
    pub fn add_clue(
        &mut self,
        hunt_id: u64,
        question: Vec<u8>,
        answer: Vec<u8>,
        points: u32,
        is_required: bool,
    ) -> (r: Result<u32, HuntErrorCode>)
        requires
            old(self).wf(),
        ensures
            final(self).wf(),
            final(self).reward_manager == old(self).reward_manager,
            !old(self).has_hunt(hunt_id) ==> r == Err::<u32, HuntErrorCode>(
                HuntErrorCode::HuntNotFound,
            ) && *final(self) == *old(self),
            old(self).has_hunt(hunt_id) && old(self).spec_hunt(hunt_id).status
                != HuntStatus::Draft ==> r == Err::<u32, HuntErrorCode>(
                HuntErrorCode::InvalidHuntStatus,
            ) && *final(self) == *old(self),
            old(self).has_hunt(hunt_id) && old(self).spec_hunt(hunt_id).status == HuntStatus::Draft
                && old(self).spec_clues(hunt_id).len() >= MAX_CLUES_PER_HUNT ==> r == Err::<
                u32,
                HuntErrorCode,
            >(HuntErrorCode::TooManyClues) && *final(self) == *old(self),
            old(self).has_hunt(hunt_id) && old(self).spec_hunt(hunt_id).status == HuntStatus::Draft
                && old(self).spec_clues(hunt_id).len() < MAX_CLUES_PER_HUNT && (question@.len()
                == 0 || question@.len() > MAX_QUESTION_LENGTH) ==> r == Err::<u32, HuntErrorCode>(
                HuntErrorCode::InvalidQuestion,
            ) && *final(self) == *old(self),
            old(self).has_hunt(hunt_id) && old(self).spec_hunt(hunt_id).status == HuntStatus::Draft
                && old(self).spec_clues(hunt_id).len() < MAX_CLUES_PER_HUNT && 1 <= question@.len()
                <= MAX_QUESTION_LENGTH && !valid_answer(answer@) ==> r == Err::<
                u32,
                HuntErrorCode,
            >(HuntErrorCode::InvalidAnswer) && *final(self) == *old(self),
            old(self).has_hunt(hunt_id) && old(self).spec_hunt(hunt_id).status == HuntStatus::Draft
                && old(self).spec_clues(hunt_id).len() < MAX_CLUES_PER_HUNT && 1 <= question@.len()
                <= MAX_QUESTION_LENGTH && valid_answer(answer@) ==> {
                &&& r == Ok::<u32, HuntErrorCode>((old(self).spec_clues(hunt_id).len() + 1) as u32)
                &&& final(self).hunts@.len() == old(self).hunts@.len()
                &&& final(self).spec_clues(hunt_id).len() == old(self).spec_clues(hunt_id).len()
                    + 1
                &&& final(self).spec_clues(hunt_id).subrange(
                    0,
                    old(self).spec_clues(hunt_id).len() as int,
                ) == old(self).spec_clues(hunt_id)
                &&& final(self).spec_clues(hunt_id).last()@ == (crate::types::ClueView {
                    clue_id: (old(self).spec_clues(hunt_id).len() + 1) as u32,
                    question: question@,
                    answer_hash: sha256_of(normalize_answer(answer@)),
                    points,
                    is_required,
                })
                &&& final(self).spec_hunt(hunt_id) == (HuntView {
                    total_clues: (old(self).spec_hunt(hunt_id).total_clues + 1) as u32,
                    ..old(self).spec_hunt(hunt_id)
                })
                &&& forall|j: int|
                    0 <= j < old(self).hunts@.len() && j != hunt_id - 1 ==> final(self).hunts@[j]
                        == old(self).hunts@[j] && final(self).clues@[j] == old(self).clues@[j]
                &&& final(self).players == old(self).players
            },
    {
        if hunt_id == 0 || hunt_id > self.hunts.len() as u64 {
            return Err(HuntErrorCode::HuntNotFound);
        }
        let idx = (hunt_id - 1) as usize;
        if self.hunts[idx].status != HuntStatus::Draft {
            return Err(HuntErrorCode::InvalidHuntStatus);
        }
        if self.clues[idx].len() >= MAX_CLUES_PER_HUNT {
            return Err(
                HuntError::TooManyClues { hunt_id, limit: MAX_CLUES_PER_HUNT as u32 }.code(),
            );
        }
        let qlen = question.len();
        if qlen == 0 || qlen > MAX_QUESTION_LENGTH {
            return Err(HuntErrorCode::InvalidQuestion);
        }
        let answer_hash = match Self::normalize_and_hash_answer(&answer) {
            Ok(h) => h,
            Err(e) => {
                return Err(e.code());
            },
        };
        let clue_id = (self.clues[idx].len() as u32) + 1;
        let clue = Clue { clue_id, question, answer_hash, points, is_required };
        let row = &mut self.clues[idx];
        row.push(clue);
        let h = &mut self.hunts[idx];
        h.total_clues = h.total_clues + 1;
        proof {
            let i = hunt_id - 1;
            assert(final(self).spec_clues(hunt_id).subrange(
                0,
                old(self).spec_clues(hunt_id).len() as int,
            ) =~= old(self).spec_clues(hunt_id));
            assert(final(self).spec_hunt(hunt_id) =~= (HuntView {
                total_clues: (old(self).spec_hunt(hunt_id).total_clues + 1) as u32,
                ..old(self).spec_hunt(hunt_id)
            }));
            assert forall|a: int, k: int|
                0 <= a < final(self).hunts@.len() && 0 <= k < final(self).players@[a]@.len()
                    implies progress_wf(
                final(self).clues@[a]@,
                #[trigger] final(self).players@[a]@[k],
            ) by {
                assert(progress_wf(old(self).clues@[a]@, old(self).players@[a]@[k]));
                if a == i {
                    lemma_score_push(
                        old(self).clues@[a]@,
                        final(self).clues@[a]@.last(),
                        old(self).players@[a]@[k].completed_clues@,
                    );
                    assert(final(self).clues@[a]@ =~= old(self).clues@[a]@.push(
                        final(self).clues@[a]@.last(),
                    ));
                }
            }
        }
        Ok(clue_id)
    }

    /// Returns the public data of one clue; the answer hash is withheld.
    pub fn get_clue(&self, hunt_id: u64, clue_id: u32) -> (r: Result<ClueInfo, HuntErrorCode>)
        requires
            self.wf(),
        ensures
            match r {
                Ok(info) => self.has_hunt(hunt_id) && 1 <= clue_id <= self.spec_clues(
                    hunt_id,
                ).len() && info@ == (crate::types::ClueInfoView {
                    clue_id,
                    question: self.spec_clues(hunt_id)[clue_id - 1].question@,
                    points: self.spec_clues(hunt_id)[clue_id - 1].points,
                    is_required: self.spec_clues(hunt_id)[clue_id - 1].is_required,
                }),
                Err(e) => e == HuntErrorCode::ClueNotFound && (!self.has_hunt(hunt_id) || clue_id
                    == 0 || clue_id > self.spec_clues(hunt_id).len()),
            },
    {
        if hunt_id == 0 || hunt_id > self.hunts.len() as u64 {
            return Err(HuntErrorCode::ClueNotFound);
        }
        let idx = (hunt_id - 1) as usize;
        if clue_id == 0 || clue_id as usize > self.clues[idx].len() {
            return Err(HuntErrorCode::ClueNotFound);
        }
        let c = &self.clues[idx][(clue_id - 1) as usize];
        let info = ClueInfo {
            clue_id: c.clue_id,
            question: clone_bytes(&c.question),
            points: c.points,
            is_required: c.is_required,
        };
        proof {
            assert(info@ =~= (crate::types::ClueInfoView {
                clue_id,
                question: self.spec_clues(hunt_id)[clue_id - 1].question@,
                points: self.spec_clues(hunt_id)[clue_id - 1].points,
                is_required: self.spec_clues(hunt_id)[clue_id - 1].is_required,
            }));
        }
        Ok(info)
    }

    /// Returns the public data of every clue of a hunt, in clue-id order;
    /// an unknown hunt yields an empty list.
    pub fn list_clues(&self, hunt_id: u64) -> (r: Vec<ClueInfo>)
        requires
            self.wf(),
        ensures
            self.has_hunt(hunt_id) ==> r@.len() == self.spec_clues(hunt_id).len() && forall|j: int|
                0 <= j < r@.len() ==> (#[trigger] r@[j])@ == (crate::types::ClueInfoView {
                    clue_id: self.spec_clues(hunt_id)[j].clue_id,
                    question: self.spec_clues(hunt_id)[j].question@,
                    points: self.spec_clues(hunt_id)[j].points,
                    is_required: self.spec_clues(hunt_id)[j].is_required,
                }),
            !self.has_hunt(hunt_id) ==> r@.len() == 0,
    {
        let mut out: Vec<ClueInfo> = Vec::new();
        if hunt_id == 0 || hunt_id > self.hunts.len() as u64 {
            return out;
        }
        let idx = (hunt_id - 1) as usize;
        let mut j: usize = 0;
        while j < self.clues[idx].len()
            invariant
                self.wf(),
                self.has_hunt(hunt_id),
                idx == hunt_id - 1,
                0 <= j <= self.spec_clues(hunt_id).len(),
                out@.len() == j,
                forall|m: int|
                    0 <= m < j ==> (#[trigger] out@[m])@ == (crate::types::ClueInfoView {
                        clue_id: self.spec_clues(hunt_id)[m].clue_id,
                        question: self.spec_clues(hunt_id)[m].question@,
                        points: self.spec_clues(hunt_id)[m].points,
                        is_required: self.spec_clues(hunt_id)[m].is_required,
                    }),
            decreases self.spec_clues(hunt_id).len() - j,
        {
            let c = &self.clues[idx][j];
            let info = ClueInfo {
                clue_id: c.clue_id,
                question: clone_bytes(&c.question),
                points: c.points,
                is_required: c.is_required,
            };
            proof {
                assert(info@ =~= (crate::types::ClueInfoView {
                    clue_id: self.spec_clues(hunt_id)[j as int].clue_id,
                    question: self.spec_clues(hunt_id)[j as int].question@,
                    points: self.spec_clues(hunt_id)[j as int].points,
                    is_required: self.spec_clues(hunt_id)[j as int].is_required,
                }));
            }
            out.push(info);
            j = j + 1;
        }
        out
    }

    /// Registers a player for a live hunt; duplicate registrations are
    /// rejected.
    pub fn register_player(&mut self, hunt_id: u64, player: u64, now: u64) -> (r: Result<
        (),
        HuntErrorCode,
    >)
        requires
            old(self).wf(),
        ensures
            final(self).wf(),
            final(self).reward_manager == old(self).reward_manager,
            !old(self).has_hunt(hunt_id) ==> r == Err::<(), HuntErrorCode>(
                HuntErrorCode::HuntNotFound,
            ) && *final(self) == *old(self),
            old(self).has_hunt(hunt_id) && old(self).spec_hunt(hunt_id).status
                != HuntStatus::Active ==> r == Err::<(), HuntErrorCode>(
                HuntErrorCode::InvalidHuntStatus,
            ) && *final(self) == *old(self),
            old(self).has_hunt(hunt_id) && old(self).spec_hunt(hunt_id).status
                == HuntStatus::Active && !old(self).spec_hunt(hunt_id).spec_is_active(now) ==> r
                == Err::<(), HuntErrorCode>(HuntErrorCode::HuntNotActive) && *final(self) == *old(self),
            old(self).has_hunt(hunt_id) && old(self).spec_hunt(hunt_id).spec_is_active(now) && old(self).has_player(hunt_id, player) ==> r == Err::<(), HuntErrorCode>(
                HuntErrorCode::DuplicateRegistration,
            ) && *final(self) == *old(self),
            old(self).has_hunt(hunt_id) && old(self).spec_hunt(hunt_id).spec_is_active(now)
                && !old(self).has_player(hunt_id, player) ==> {
                &&& r == Ok::<(), HuntErrorCode>(())
                &&& final(self).hunts == old(self).hunts
                &&& final(self).clues == old(self).clues
                &&& final(self).spec_players(hunt_id).len() == old(self).spec_players(
                    hunt_id,
                ).len() + 1
                &&& final(self).spec_players(hunt_id).subrange(
                    0,
                    old(self).spec_players(hunt_id).len() as int,
                ) == old(self).spec_players(hunt_id)
                &&& final(self).spec_players(hunt_id).last()@ == (ProgressView {
                    player,
                    hunt_id,
                    completed_clues: Seq::<u32>::empty(),
                    total_score: 0,
                    is_completed: false,
                    completed_at: 0,
                    reward_claimed: false,
                    started_at: now,
                })
                &&& final(self).has_player(hunt_id, player)
                &&& forall|j: int|
                    0 <= j < old(self).players@.len() && j != hunt_id - 1 ==> final(self).players@[j] == old(self).players@[j]
            },
    {
        if hunt_id == 0 || hunt_id > self.hunts.len() as u64 {
            return Err(HuntErrorCode::HuntNotFound);
        }
        let idx = (hunt_id - 1) as usize;
        if self.hunts[idx].status != HuntStatus::Active {
            return Err(HuntErrorCode::InvalidHuntStatus);
        }
        if !self.hunts[idx].is_active(now) {
            return Err(HuntErrorCode::HuntNotActive);
        }
        if let Some(k) = find_player_index(&self.players[idx], player) {
            proof {
                assert(old(self).spec_players(hunt_id)[k as int].player == player);
                assert(old(self).has_player(hunt_id, player));
            }
            return Err(HuntErrorCode::DuplicateRegistration);
        }
        let rec = PlayerProgress::new(player, hunt_id, now);
        let row = &mut self.players[idx];
        row.push(rec);
        proof {
            assert(final(self).spec_players(hunt_id).subrange(
                0,
                old(self).spec_players(hunt_id).len() as int,
            ) =~= old(self).spec_players(hunt_id));
            let n = old(self).spec_players(hunt_id).len() as int;
            assert(final(self).spec_players(hunt_id)[n].player == player);
        }
        Ok(())
    }

    /// Returns a copy of the player's progress for a hunt.
    pub fn get_player_progress(&self, hunt_id: u64, player: u64) -> (r: Result<
        PlayerProgress,
        HuntErrorCode,
    >)
        requires
            self.wf(),
        ensures
            match r {
                Ok(p) => self.has_hunt(hunt_id) && self.has_player(hunt_id, player) && p@
                    == self.spec_progress(hunt_id, player),
                Err(e) => e == HuntErrorCode::PlayerNotRegistered && (!self.has_hunt(hunt_id)
                    || !self.has_player(hunt_id, player)),
            },
    {
        if hunt_id == 0 || hunt_id > self.hunts.len() as u64 {
            return Err(HuntErrorCode::PlayerNotRegistered);
        }
        let idx = (hunt_id - 1) as usize;
        match find_player_index(&self.players[idx], player) {
            Some(k) => {
                let p = self.players[idx][k].clone();
                proof {
                    let kk = self.spec_player_idx(hunt_id, player);
                    assert(self.spec_players(hunt_id)[k as int].player == player);
                    assert(0 <= kk < self.spec_players(hunt_id).len() && self.spec_players(
                        hunt_id,
                    )[kk].player == player);
                    assert(kk == k as int);
                }
                Ok(p)
            },
            None => Err(HuntErrorCode::PlayerNotRegistered),
        }
    }

    /// Returns the clue ids the player has completed, in completion order;
    /// an unregistered player yields an empty list.
    pub fn get_completed_clues(&self, hunt_id: u64, player: u64) -> (r: Vec<u32>)
        requires
            self.wf(),
        ensures
            self.has_hunt(hunt_id) && self.has_player(hunt_id, player) ==> r@
                == self.spec_progress(hunt_id, player).completed_clues,
            !(self.has_hunt(hunt_id) && self.has_player(hunt_id, player)) ==> r@.len() == 0,
    {
        if hunt_id == 0 || hunt_id > self.hunts.len() as u64 {
            return Vec::new();
        }
        let idx = (hunt_id - 1) as usize;
        match find_player_index(&self.players[idx], player) {
            Some(k) => {
                let ids = clone_ids(&self.players[idx][k].completed_clues);
                proof {
                    let kk = self.spec_player_idx(hunt_id, player);
                    assert(self.spec_players(hunt_id)[k as int].player == player);
                    assert(0 <= kk < self.spec_players(hunt_id).len() && self.spec_players(
                        hunt_id,
                    )[kk].player == player);
                    assert(kk == k as int);
                }
                ids
            },
            None => Vec::new(),
        }
    }

    /// Verifies a submitted answer against a clue's stored hash and, when it
    /// matches, credits the clue and its points; completing the last required
    /// clue marks the player's hunt completion at `now`.
    pub fn submit_answer(
        &mut self,
        hunt_id: u64,
        clue_id: u32,
        player: u64,
        answer: Vec<u8>,
        now: u64,
    ) -> (r: Result<(), HuntErrorCode>)
        requires
            old(self).wf(),
        ensures
            final(self).wf(),
            final(self).reward_manager == old(self).reward_manager,
            !old(self).has_hunt(hunt_id) ==> r == Err::<(), HuntErrorCode>(
                HuntErrorCode::HuntNotFound,
            ) && *final(self) == *old(self),
            old(self).has_hunt(hunt_id) && !old(self).spec_hunt(hunt_id).spec_is_active(now) ==> r
                == Err::<(), HuntErrorCode>(HuntErrorCode::HuntNotActive) && *final(self) == *old(self),
            old(self).has_hunt(hunt_id) && old(self).spec_hunt(hunt_id).spec_is_active(now)
                && !old(self).has_player(hunt_id, player) ==> r == Err::<(), HuntErrorCode>(
                HuntErrorCode::PlayerNotRegistered,
            ) && *final(self) == *old(self),
            old(self).has_hunt(hunt_id) && old(self).spec_hunt(hunt_id).spec_is_active(now) && old(self).has_player(hunt_id, player) && !(1 <= clue_id <= old(self).spec_clues(
                hunt_id,
            ).len()) ==> r == Err::<(), HuntErrorCode>(HuntErrorCode::ClueNotFound) && *final(self)
                == *old(self),
            old(self).has_hunt(hunt_id) && old(self).spec_hunt(hunt_id).spec_is_active(now) && old(self).has_player(hunt_id, player) && 1 <= clue_id <= old(self).spec_clues(hunt_id).len()
                && old(self).spec_progress(hunt_id, player).completed_clues.contains(clue_id) ==> r
                == Err::<(), HuntErrorCode>(HuntErrorCode::ClueAlreadyCompleted) && *final(self)
                == *old(self),
            old(self).has_hunt(hunt_id) && old(self).spec_hunt(hunt_id).spec_is_active(now) && old(self).has_player(hunt_id, player) && 1 <= clue_id <= old(self).spec_clues(hunt_id).len()
                && !old(self).spec_progress(hunt_id, player).completed_clues.contains(clue_id)
                && !valid_answer(answer@) ==> r == Err::<(), HuntErrorCode>(
                HuntErrorCode::InvalidAnswer,
            ) && *final(self) == *old(self),
            old(self).has_hunt(hunt_id) && old(self).spec_hunt(hunt_id).spec_is_active(now) && old(self).has_player(hunt_id, player) && 1 <= clue_id <= old(self).spec_clues(hunt_id).len()
                && !old(self).spec_progress(hunt_id, player).completed_clues.contains(clue_id)
                && valid_answer(answer@) && sha256_of(normalize_answer(answer@)) != old(self).spec_clues(hunt_id)[clue_id - 1].answer_hash@ ==> r == Err::<(), HuntErrorCode>(
                HuntErrorCode::InvalidAnswer,
            ) && *final(self) == *old(self),
            old(self).has_hunt(hunt_id) && old(self).spec_hunt(hunt_id).spec_is_active(now) && old(self).has_player(hunt_id, player) && 1 <= clue_id <= old(self).spec_clues(hunt_id).len()
                && !old(self).spec_progress(hunt_id, player).completed_clues.contains(clue_id)
                && valid_answer(answer@) && sha256_of(normalize_answer(answer@)) == old(self).spec_clues(hunt_id)[clue_id - 1].answer_hash@ ==> {
                &&& r == Ok::<(), HuntErrorCode>(())
                &&& final(self).hunts == old(self).hunts
                &&& final(self).clues == old(self).clues
                &&& final(self).spec_players(hunt_id).len() == old(self).spec_players(
                    hunt_id,
                ).len()
                &&& forall|m: int|
                    0 <= m < old(self).spec_players(hunt_id).len() && m != old(self).spec_player_idx(hunt_id, player) ==> final(self).spec_players(hunt_id)[m] == old(self).spec_players(hunt_id)[m]
                &&& final(self).spec_progress(hunt_id, player) == (ProgressView {
                    player,
                    hunt_id,
                    completed_clues: old(self).spec_progress(
                        hunt_id,
                        player,
                    ).completed_clues.push(clue_id),
                    total_score: (old(self).spec_progress(hunt_id, player).total_score + old(self).spec_clues(hunt_id)[clue_id - 1].points) as u64,
                    is_completed: old(self).spec_progress(hunt_id, player).is_completed
                        || all_required_done(
                        old(self).spec_clues(hunt_id),
                        old(self).spec_progress(hunt_id, player).completed_clues.push(clue_id),
                    ),
                    completed_at: if !old(self).spec_progress(hunt_id, player).is_completed
                        && all_required_done(
                        old(self).spec_clues(hunt_id),
                        old(self).spec_progress(hunt_id, player).completed_clues.push(clue_id),
                    ) {
                        now
                    } else {
                        old(self).spec_progress(hunt_id, player).completed_at
                    },
                    reward_claimed: old(self).spec_progress(hunt_id, player).reward_claimed,
                    started_at: old(self).spec_progress(hunt_id, player).started_at,
                })
                &&& final(self).spec_player_idx(hunt_id, player) == old(self).spec_player_idx(
                    hunt_id,
                    player,
                )
                &&& forall|j: int|
                    0 <= j < old(self).players@.len() && j != hunt_id - 1 ==> final(self).players@[j] == old(self).players@[j]
            },
    {
        if hunt_id == 0 || hunt_id > self.hunts.len() as u64 {
            return Err(HuntErrorCode::HuntNotFound);
        }
        let idx = (hunt_id - 1) as usize;
        if !self.hunts[idx].is_active(now) {
            return Err(HuntErrorCode::HuntNotActive);
        }
        let k = match find_player_index(&self.players[idx], player) {
            Some(k) => k,
            None => {
                return Err(HuntErrorCode::PlayerNotRegistered);
            },
        };
        proof {
            assert(old(self).spec_players(hunt_id)[k as int].player == player);
            assert(old(self).has_player(hunt_id, player));
            let kk = old(self).spec_player_idx(hunt_id, player);
            assert(0 <= kk < old(self).spec_players(hunt_id).len() && old(self).spec_players(
                hunt_id,
            )[kk].player == player);
            assert(kk == k as int);
        }
        if clue_id == 0 || clue_id as usize > self.clues[idx].len() {
            return Err(HuntErrorCode::ClueNotFound);
        }
        let cidx = (clue_id - 1) as usize;
        if contains_id(&self.players[idx][k].completed_clues, clue_id) {
            return Err(HuntErrorCode::ClueAlreadyCompleted);
        }
        let submitted_hash = match Self::normalize_and_hash_answer(&answer) {
            Ok(h) => h,
            Err(e) => {
                return Err(e.code());
            },
        };
        if !bytes_eq(&submitted_hash, &self.clues[idx][cidx].answer_hash) {
            return Err(HuntErrorCode::InvalidAnswer);
        }
        let points = self.clues[idx][cidx].points;
        proof {
            let clues_seq = old(self).spec_clues(hunt_id);
            let oldrec = old(self).spec_players(hunt_id)[k as int];
            assert(progress_wf(clues_seq, oldrec));
            lemma_unique_ids_bound(oldrec.completed_clues@, clues_seq.len() as int);
            lemma_score_bound(clues_seq, oldrec.completed_clues@);
            assert(oldrec.total_score <= 100 * 0xffff_ffff);
        }
        let row = &mut self.players[idx];
        let p = &mut row[k];
        p.completed_clues.push(clue_id);
        p.total_score = p.total_score + points as u64;
        let done = check_all_required_clues_completed(&self.clues[idx], &p.completed_clues);
        if done && !p.is_completed {
            p.is_completed = true;
            p.completed_at = now;
        }
        proof {
            let i = hunt_id - 1;
            let clues_seq = old(self).spec_clues(hunt_id);
            let oldrec = old(self).spec_players(hunt_id)[k as int];
            let newrec = final(self).spec_players(hunt_id)[k as int];
            assert(newrec.completed_clues@ == oldrec.completed_clues@.push(clue_id));
            assert(newrec.completed_clues@.drop_last() =~= oldrec.completed_clues@);
            assert(spec_score(clues_seq, newrec.completed_clues@) == spec_score(
                clues_seq,
                oldrec.completed_clues@,
            ) + spec_points_of(clues_seq, clue_id));
            assert(final(self).spec_progress(hunt_id, player) =~= (ProgressView {
                player,
                hunt_id,
                completed_clues: oldrec.completed_clues@.push(clue_id),
                total_score: (oldrec.total_score + clues_seq[clue_id - 1].points) as u64,
                is_completed: oldrec.is_completed || all_required_done(
                    clues_seq,
                    oldrec.completed_clues@.push(clue_id),
                ),
                completed_at: if !oldrec.is_completed && all_required_done(
                    clues_seq,
                    oldrec.completed_clues@.push(clue_id),
                ) {
                    now
                } else {
                    oldrec.completed_at
                },
                reward_claimed: oldrec.reward_claimed,
                started_at: oldrec.started_at,
            }));
        }
        Ok(())
    }

    /// Returns aggregate statistics for a hunt: player count, completions,
    /// completion rate, score sum, and average score.
    pub fn get_hunt_statistics(&self, hunt_id: u64) -> (r: Result<
        crate::types::HuntStatistics,
        HuntErrorCode,
    >)
        requires
            self.wf(),
            self.has_hunt(hunt_id) ==> self.spec_players(hunt_id).len() <= u32::MAX,
            self.has_hunt(hunt_id) ==> spec_score_sum(self.spec_players(hunt_id)) <= u64::MAX,
        ensures
            match r {
                Ok(stats) => self.has_hunt(hunt_id) && stats == spec_statistics(
                    self.spec_players(hunt_id),
                ),
                Err(e) => !self.has_hunt(hunt_id) && e == HuntErrorCode::HuntNotFound,
            },
    {
        if hunt_id == 0 || hunt_id > self.hunts.len() as u64 {
            return Err(HuntErrorCode::HuntNotFound);
        }
        let idx = (hunt_id - 1) as usize;
        let list = &self.players[idx];
        let total_players = list.len() as u32;
        let mut completed_count: u32 = 0;
        let mut total_score_sum: u64 = 0;
        let mut i: usize = 0;
        while i < list.len()
            invariant
                list@ == self.spec_players(hunt_id),
                self.has_hunt(hunt_id),
                list@.len() <= u32::MAX,
                spec_score_sum(list@) <= u64::MAX,
                0 <= i <= list@.len(),
                completed_count == spec_completed_count(list@.subrange(0, i as int)),
                total_score_sum == spec_score_sum(list@.subrange(0, i as int)),
            decreases list@.len() - i,
        {
            proof {
                lemma_prefix_aggregates(list@, i + 1);
                assert(list@.subrange(0, i + 1).drop_last() =~= list@.subrange(0, i as int));
                assert(list@.subrange(0, i + 1).last() == list@[i as int]);
            }
            if list[i].is_completed {
                completed_count = completed_count + 1;
            }
            total_score_sum = total_score_sum + list[i].total_score;
            i = i + 1;
        }
        proof {
            assert(list@.subrange(0, list@.len() as int) =~= list@);
            lemma_prefix_aggregates(list@, list@.len() as int);
            if list@.len() > 0 {
                let n = list@.len() as int;
                let completed = spec_completed_count(list@);
                vstd::arithmetic::div_mod::lemma_div_is_ordered(completed * 100, n * 100, n);
                vstd::arithmetic::div_mod::lemma_div_multiples_vanish(100, n);
                assert(completed * 100 / n <= 100);
            }
        }
        let completion_rate_percent: u32 = if total_players > 0 {
            #[verifier::truncate]
            (((completed_count as u64) * 100 / (total_players as u64)) as u32)
        } else {
            0
        };
        let average_score: u32 = if total_players > 0 {
            #[verifier::truncate]
            ((total_score_sum / (total_players as u64)) as u32)
        } else {
            0
        };
        Ok(
            crate::types::HuntStatistics {
                total_players,
                completed_count,
                completion_rate_percent,
                total_score_sum,
                average_score,
            },
        )
    }

    /// Returns the top entries of a hunt's leaderboard: score descending,
    /// ties broken by earlier completion time (an unset time sorts last),
    /// each entry tagged with its 1-based rank. The size is capped at
    /// [`MAX_LEADERBOARD_SIZE`].
    pub fn get_hunt_leaderboard(&self, hunt_id: u64, limit: u32) -> (r: Result<
        Vec<crate::types::LeaderboardEntry>,
        HuntErrorCode,
    >)
        requires
            self.wf(),
            self.has_hunt(hunt_id) ==> self.spec_players(hunt_id).len() <= u32::MAX,
        ensures
            match r {
                Ok(board) => self.has_hunt(hunt_id) && board@
                    == crate::leaderboard::spec_leaderboard(
                    self.spec_players(hunt_id),
                    (if limit < MAX_LEADERBOARD_SIZE {
                        limit
                    } else {
                        MAX_LEADERBOARD_SIZE
                    }) as nat,
                ),
                Err(e) => !self.has_hunt(hunt_id) && e == HuntErrorCode::HuntNotFound,
            },
    {
        if hunt_id == 0 || hunt_id > self.hunts.len() as u64 {
            return Err(HuntErrorCode::HuntNotFound);
        }
        let idx = (hunt_id - 1) as usize;
        let effective_limit = if limit < MAX_LEADERBOARD_SIZE {
            limit
        } else {
            MAX_LEADERBOARD_SIZE
        };
        Ok(crate::leaderboard::select_leaderboard(&self.players[idx], effective_limit))
    }

    /// Claims a completed hunt's reward for a player: requires full
    /// completion, an unclaimed reward, a configured winner slot and a free
    /// one; when a reward coordinator is wired up and the configuration
    /// requests a reward, the distribution must succeed before the claim is
    /// recorded. On success the player's progress is marked claimed and the
    /// hunt's claimed-slot count grows by one; on any failure nothing
    /// changes anywhere.
    ///
    /// The host resolves the configured coordinator and registry addresses
    /// and passes the resolved services with their addresses, together with
    /// the outcome of the fungible transfer it performs on request.
    pub fn complete_hunt(
        &mut self,
        hunt_id: u64,
        player: u64,
        rm: &mut RewardManager,
        rm_addr: u64,
        registry: &mut NftReward,
        registry_addr: u64,
        transfer_ok: bool,
        now: u64,
    ) -> (r: Result<(), HuntErrorCode>)
        requires
            old(self).wf(),
            old(rm).wf(),
            old(registry).wf(),
            old(registry).spec_total_supply() < u64::MAX,
        ensures
            final(self).wf(),
            final(rm).wf(),
            final(registry).wf(),
            r is Err ==> *final(self) == *old(self) && *final(rm) == *old(rm) && *final(registry)
                == *old(registry),
            !old(self).has_hunt(hunt_id) ==> r == Err::<(), HuntErrorCode>(
                HuntErrorCode::HuntNotFound,
            ),
            old(self).has_hunt(hunt_id) && !old(self).has_player(hunt_id, player) ==> r == Err::<
                (),
                HuntErrorCode,
            >(HuntErrorCode::PlayerNotRegistered),
            old(self).has_hunt(hunt_id) && old(self).has_player(hunt_id, player) && !old(self).spec_progress(hunt_id, player).is_completed ==> r == Err::<(), HuntErrorCode>(
                HuntErrorCode::HuntNotCompleted,
            ),
            old(self).has_hunt(hunt_id) && old(self).has_player(hunt_id, player) && old(self).spec_progress(hunt_id, player).is_completed && old(self).spec_progress(
                hunt_id,
                player,
            ).reward_claimed ==> r == Err::<(), HuntErrorCode>(HuntErrorCode::RewardAlreadyClaimed),
            old(self).has_hunt(hunt_id) && old(self).has_player(hunt_id, player) && old(self).spec_progress(hunt_id, player).is_completed && !old(self).spec_progress(
                hunt_id,
                player,
            ).reward_claimed && old(self).spec_hunt(hunt_id).reward_config.max_winners == 0 ==> r
                == Err::<(), HuntErrorCode>(HuntErrorCode::NoRewardsConfigured),
            old(self).has_hunt(hunt_id) && old(self).has_player(hunt_id, player) && old(self).spec_progress(hunt_id, player).is_completed && !old(self).spec_progress(
                hunt_id,
                player,
            ).reward_claimed && old(self).spec_hunt(hunt_id).reward_config.max_winners > 0 && old(self).spec_hunt(hunt_id).reward_config.claimed_count >= old(self).spec_hunt(
                hunt_id,
            ).reward_config.max_winners ==> r == Err::<(), HuntErrorCode>(
                HuntErrorCode::InsufficientRewardPool,
            ),
            old(self).spec_claim_gates(hunt_id, player) && old(self).spec_claim_invokes(hunt_id)
                && old(self).reward_manager != Some(rm_addr) ==> r == Err::<(), HuntErrorCode>(
                HuntErrorCode::RewardDistributionFailed,
            ),
            old(self).spec_claim_gates(hunt_id, player) && old(self).spec_claim_invokes(hunt_id)
                && old(self).reward_manager == Some(rm_addr) && !old(rm).spec_distribution_ok(
                spec_claim_config(old(self).spec_hunt(hunt_id)),
                hunt_id,
                player,
                registry_addr,
                transfer_ok,
            ) ==> r == Err::<(), HuntErrorCode>(HuntErrorCode::RewardDistributionFailed),
            old(self).spec_claim_gates(hunt_id, player) && (!old(self).spec_claim_invokes(hunt_id)
                || (old(self).reward_manager == Some(rm_addr) && old(rm).spec_distribution_ok(
                spec_claim_config(old(self).spec_hunt(hunt_id)),
                hunt_id,
                player,
                registry_addr,
                transfer_ok,
            ))) ==> {
                &&& r == Ok::<(), HuntErrorCode>(())
                &&& final(self).hunts@.len() == old(self).hunts@.len()
                &&& final(self).spec_hunt(hunt_id) == (HuntView {
                    reward_config: (RewardConfig {
                        claimed_count: (old(self).spec_hunt(
                            hunt_id,
                        ).reward_config.claimed_count + 1) as u32,
                        ..old(self).spec_hunt(hunt_id).reward_config
                    }),
                    ..old(self).spec_hunt(hunt_id)
                })
                &&& forall|j: int|
                    0 <= j < old(self).hunts@.len() && j != hunt_id - 1 ==> final(self).hunts@[j]
                        == old(self).hunts@[j]
                &&& final(self).clues == old(self).clues
                &&& final(self).reward_manager == old(self).reward_manager
                &&& final(self).spec_players(hunt_id).len() == old(self).spec_players(
                    hunt_id,
                ).len()
                &&& final(self).spec_player_idx(hunt_id, player) == old(self).spec_player_idx(
                    hunt_id,
                    player,
                )
                &&& final(self).spec_progress(hunt_id, player) == (ProgressView {
                    reward_claimed: true,
                    ..old(self).spec_progress(hunt_id, player)
                })
                &&& forall|m: int|
                    0 <= m < old(self).spec_players(hunt_id).len() && m != old(self).spec_player_idx(hunt_id, player) ==> final(self).spec_players(hunt_id)[m]
                        == old(self).spec_players(hunt_id)[m]
                &&& forall|j: int|
                    0 <= j < old(self).players@.len() && j != hunt_id - 1 ==> final(self).players@[j] == old(self).players@[j]
                &&& !old(self).spec_claim_invokes(hunt_id) ==> *final(rm) == *old(rm) && *final(registry) == *old(registry)
                &&& old(self).spec_claim_invokes(hunt_id) ==> {
                    &&& final(rm).record_of(hunt_id, player) == Some(
                        crate::reward::DistributionRecord {
                            xlm_amount: if spec_claim_config(
                                old(self).spec_hunt(hunt_id),
                            ).has_xlm() {
                                spec_claim_amount(old(self).spec_hunt(hunt_id)) as i128
                            } else {
                                0
                            },
                            nft_id: if spec_claim_config(
                                old(self).spec_hunt(hunt_id),
                            ).has_nft() {
                                Some((old(registry).spec_total_supply() + 1) as u64)
                            } else {
                                None
                            },
                        },
                    )
                    &&& forall|h: u64, q: u64|
                        !(h == hunt_id && q == player) ==> #[trigger] final(rm).record_of(h, q)
                            == old(rm).record_of(h, q)
                    &&& spec_claim_config(old(self).spec_hunt(hunt_id)).has_xlm() ==> final(rm).pool_of(hunt_id) == old(rm).pool_of(hunt_id) - spec_claim_amount(
                        old(self).spec_hunt(hunt_id),
                    )
                    &&& !spec_claim_config(old(self).spec_hunt(hunt_id)).has_xlm() ==> final(rm).pools == old(rm).pools
                    &&& forall|h: u64|
                        h != hunt_id ==> #[trigger] final(rm).pool_of(h) == old(rm).pool_of(h)
                    &&& final(rm).xlm_token == old(rm).xlm_token
                    &&& final(rm).nft_contract == old(rm).nft_contract
                    &&& spec_claim_config(old(self).spec_hunt(hunt_id)).has_nft() ==> {
                        &&& final(registry).spec_total_supply() == old(registry).spec_total_supply() + 1
                        &&& final(registry).spec_nft(
                            (old(registry).spec_total_supply() + 1) as u64,
                        ) == (crate::nft::NftDataView {
                            nft_id: (old(registry).spec_total_supply() + 1) as u64,
                            hunt_id,
                            owner: player,
                            completion_player: player,
                            metadata: spec_claim_config(
                                old(self).spec_hunt(hunt_id),
                            ).spec_metadata(),
                            minted_at: now,
                        })
                        &&& final(registry).spec_owner_ids(player) == old(registry).spec_owner_ids(player).push(
                            (old(registry).spec_total_supply() + 1) as u64,
                        )
                    }
                    &&& !spec_claim_config(old(self).spec_hunt(hunt_id)).has_nft() ==> *final(registry) == *old(registry)
                }
            },
    {
        if hunt_id == 0 || hunt_id > self.hunts.len() as u64 {
            return Err(HuntErrorCode::HuntNotFound);
        }
        let idx = (hunt_id - 1) as usize;
        let k = match find_player_index(&self.players[idx], player) {
            Some(k) => k,
            None => {
                return Err(HuntErrorCode::PlayerNotRegistered);
            },
        };
        proof {
            assert(old(self).spec_players(hunt_id)[k as int].player == player);
            assert(old(self).has_player(hunt_id, player));
            let kk = old(self).spec_player_idx(hunt_id, player);
            assert(0 <= kk < old(self).spec_players(hunt_id).len() && old(self).spec_players(
                hunt_id,
            )[kk].player == player);
            assert(kk == k as int);
        }
        if !self.players[idx][k].is_completed {
            return Err(HuntErrorCode::HuntNotCompleted);
        }
        if self.players[idx][k].reward_claimed {
            return Err(HuntErrorCode::RewardAlreadyClaimed);
        }
        if self.hunts[idx].reward_config.max_winners == 0 {
            return Err(HuntErrorCode::NoRewardsConfigured);
        }
        if !self.hunts[idx].has_rewards_available() {
            return Err(HuntErrorCode::InsufficientRewardPool);
        }
        let reward_amount = self.hunts[idx].reward_config.reward_per_winner();
        let nft_awarded = self.hunts[idx].reward_config.nft_enabled;
        if let Some(addr) = self.reward_manager {
            let hunt = &self.hunts[idx];
            let (nft_contract, nft_title, nft_desc, nft_uri, nft_hunt_title) = if nft_awarded {
                match hunt.reward_config.nft_contract {
                    Some(c) => (
                        Some(c),
                        clone_bytes(&hunt.title),
                        clone_bytes(&hunt.description),
                        Vec::new(),
                        clone_bytes(&hunt.title),
                    ),
                    None => (None, Vec::new(), Vec::new(), Vec::new(), Vec::new()),
                }
            } else {
                (None, Vec::new(), Vec::new(), Vec::new(), Vec::new())
            };
            let rm_reward_config = DistributionConfig {
                xlm_amount: if reward_amount > 0 {
                    Some(reward_amount)
                } else {
                    None
                },
                nft_contract,
                nft_title,
                nft_description: nft_desc,
                nft_image_uri: nft_uri,
                nft_hunt_title,
                nft_rarity: 0,
                nft_tier: 0,
            };
            proof {
                assert(rm_reward_config@ =~= spec_claim_config(old(self).spec_hunt(hunt_id)));
            }
            if rm_reward_config.is_valid() {
                if addr != rm_addr {
                    return Err(HuntErrorCode::RewardDistributionFailed);
                }
                let result = rm.distribute_rewards(
                    registry,
                    registry_addr,
                    hunt_id,
                    player,
                    &rm_reward_config,
                    transfer_ok,
                    now,
                );
                if result.is_err() {
                    return Err(HuntErrorCode::RewardDistributionFailed);
                }
            }
        }
        let row = &mut self.players[idx];
        let p = &mut row[k];
        p.reward_claimed = true;
        let h = &mut self.hunts[idx];
        h.reward_config.claimed_count = h.reward_config.claimed_count + 1;
        proof {
            assert(final(self).spec_progress(hunt_id, player) =~= (ProgressView {
                reward_claimed: true,
                ..old(self).spec_progress(hunt_id, player)
            }));
            assert(final(self).spec_hunt(hunt_id) =~= (HuntView {
                reward_config: (RewardConfig {
                    claimed_count: (old(self).spec_hunt(hunt_id).reward_config.claimed_count
                        + 1) as u32,
                    ..old(self).spec_hunt(hunt_id).reward_config
                }),
                ..old(self).spec_hunt(hunt_id)
            }));
        }
        Ok(())
    }

    /// Tells whether a byte is ASCII whitespace (space, tab, LF, CR).
    pub fn is_ascii_space(b: u8) -> (r: bool)
        ensures
            r == crate::answer::spec_is_ascii_space(b),
    {
        b == 0x20 || b == 0x09 || b == 0x0a || b == 0x0d
    }

    /// Normalizes an answer (trim surrounding ASCII whitespace, lowercase
    /// ASCII letters) and returns the SHA-256 hash of the normalized bytes.
    /// Empty, oversized, or all-whitespace answers are rejected.
    pub fn normalize_and_hash_answer(answer: &Vec<u8>) -> (r: Result<Vec<u8>, HuntError>)
        ensures
            match r {
                Ok(h) => valid_answer(answer@) && h@ == sha256_of(normalize_answer(answer@))
                    && h@.len() == 32,
                Err(e) => !valid_answer(answer@) && e == HuntError::InvalidAnswer,
            },
    {
        let n = answer.len();
        if n == 0 {
            return Err(HuntError::InvalidAnswer);
        }
        if n > MAX_ANSWER_LENGTH {
            return Err(HuntError::InvalidAnswer);
        }
        let normalized = normalize_bytes(answer);
        if normalized.len() == 0 {
            return Err(HuntError::InvalidAnswer);
        }
        Ok(sha256(&normalized))
    }
}

} // verus!
