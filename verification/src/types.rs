//! Data model of the hunt engine.
//!
//! Identities (creator, player, contract) are opaque numeric ids; text fields
//! (titles, descriptions, questions) are byte strings, as the host keeps them.
//! Each record type that owns byte strings has a mathematical view used by
//! the contracts.

use vstd::prelude::*;

verus! {

/// Truncated (round-toward-zero) division, the semantics of `/` on signed
/// machine integers; `b` must be positive.
pub open spec fn spec_trunc_div(a: int, b: int) -> int {
    if a >= 0 {
        a / b
    } else {
        -((-a) / b)
    }
}

/// Lifecycle status of a hunt. `Cancelled` and `Completed` are terminal.
#[derive(Clone, Copy, Debug, PartialEq, Eq, Structural)]
pub enum HuntStatus {
    Draft,
    Active,
    Completed,
    Cancelled,
}

/// Reward configuration embedded in a hunt: the fungible pool earmarked for
/// winners, an optional NFT award, and the winner-slot accounting.
#[derive(Clone, Copy, Debug, PartialEq, Eq, Structural)]
pub struct RewardConfig {
    /// Total fungible pool configured for this hunt.
    pub xlm_pool: i128,
    /// Whether completing players are also awarded a collectible.
    pub nft_enabled: bool,
    /// Registry that mints the collectible, when one is configured.
    pub nft_contract: Option<u64>,
    /// Number of winner slots; zero means no rewards are configured.
    pub max_winners: u32,
    /// Number of slots already claimed; never exceeds `max_winners`.
    pub claimed_count: u32,
}

impl RewardConfig {
    /// A fresh configuration with no slot claimed yet.
    pub fn new(
        xlm_pool: i128,
        nft_enabled: bool,
        nft_contract: Option<u64>,
        max_winners: u32,
    ) -> (r: RewardConfig)
        ensures
            r == (RewardConfig {
                xlm_pool,
                nft_enabled,
                nft_contract,
                max_winners,
                claimed_count: 0,
            }),
    {
        RewardConfig { xlm_pool, nft_enabled, nft_contract, max_winners, claimed_count: 0 }
    }

    /// The fungible share of one winner: the pool divided by the number of
    /// winner slots, truncated; zero when no slot is configured.
    pub open spec fn spec_reward_per_winner(self) -> int {
        if self.max_winners > 0 {
            spec_trunc_div(self.xlm_pool as int, self.max_winners as int)
        } else {
            0
        }
    }

    /// Computes the fungible share of one winner.
    pub fn reward_per_winner(&self) -> (r: i128)
        ensures
            r == self.spec_reward_per_winner(),
    {
        if self.max_winners > 0 {
            self.xlm_pool / (self.max_winners as i128)
        } else {
            0
        }
    }
}

/// Mathematical view of a [`Hunt`].
#[verifier::ext_equal]
pub struct HuntView {
    pub hunt_id: u64,
    pub creator: u64,
    pub title: Seq<u8>,
    pub description: Seq<u8>,
    pub status: HuntStatus,
    pub created_at: u64,
    pub activated_at: u64,
    pub end_time: u64,
    pub reward_config: RewardConfig,
    pub total_clues: u32,
    pub required_clues: u32,
}

/// A hunt: metadata, lifecycle status, and its reward configuration.
#[derive(Debug)]
pub struct Hunt {
    pub hunt_id: u64,
    pub creator: u64,
    pub title: Vec<u8>,
    pub description: Vec<u8>,
    pub status: HuntStatus,
    pub created_at: u64,
    pub activated_at: u64,
    /// End of the registration / submission window; zero means unbounded.
    pub end_time: u64,
    pub reward_config: RewardConfig,
    /// Count of clues ever added; never decremented.
    pub total_clues: u32,
    /// Recorded at creation; the stored clues carry the required flags.
    pub required_clues: u32,
}

impl View for Hunt {
    type V = HuntView;

    open spec fn view(&self) -> HuntView {
        HuntView {
            hunt_id: self.hunt_id,
            creator: self.creator,
            title: self.title@,
            description: self.description@,
            status: self.status,
            created_at: self.created_at,
            activated_at: self.activated_at,
            end_time: self.end_time,
            reward_config: self.reward_config,
            total_clues: self.total_clues,
            required_clues: self.required_clues,
        }
    }
}

impl HuntView {
    /// A hunt accepts registrations and submissions while it is `Active` and,
    /// when an end time is set, only strictly before that end time.
    pub open spec fn spec_is_active(self, now: u64) -> bool {
        self.status == HuntStatus::Active && (self.end_time == 0 || now < self.end_time)
    }
}

impl Hunt {
    /// Tells whether the hunt is live at time `now`.
    pub fn is_active(&self, now: u64) -> (r: bool)
        ensures
            r == self@.spec_is_active(now),
    {
        self.status == HuntStatus::Active && (self.end_time == 0 || now < self.end_time)
    }

    /// Tells whether a winner slot is still open.
    pub fn has_rewards_available(&self) -> (r: bool)
        ensures
            r == (self.reward_config.claimed_count < self.reward_config.max_winners),
    {
        self.reward_config.claimed_count < self.reward_config.max_winners
    }
}

/// Mathematical view of a [`Clue`].
#[verifier::ext_equal]
pub struct ClueView {
    pub clue_id: u32,
    pub question: Seq<u8>,
    pub answer_hash: Seq<u8>,
    pub points: u32,
    pub is_required: bool,
}

/// A clue of a hunt. The answer is stored only as the SHA-256 hash of its
/// normalized text.
#[derive(Debug)]
pub struct Clue {
    /// Sequential within the hunt, starting at 1.
    pub clue_id: u32,
    pub question: Vec<u8>,
    pub answer_hash: Vec<u8>,
    pub points: u32,
    pub is_required: bool,
}

impl View for Clue {
    type V = ClueView;

    open spec fn view(&self) -> ClueView {
        ClueView {
            clue_id: self.clue_id,
            question: self.question@,
            answer_hash: self.answer_hash@,
            points: self.points,
            is_required: self.is_required,
        }
    }
}

/// Mathematical view of a [`ClueInfo`].
#[verifier::ext_equal]
pub struct ClueInfoView {
    pub clue_id: u32,
    pub question: Seq<u8>,
    pub points: u32,
    pub is_required: bool,
}

/// Clue data exposed to players; the answer hash is withheld.
#[derive(Debug)]
pub struct ClueInfo {
    pub clue_id: u32,
    pub question: Vec<u8>,
    pub points: u32,
    pub is_required: bool,
}

impl View for ClueInfo {
    type V = ClueInfoView;

    open spec fn view(&self) -> ClueInfoView {
        ClueInfoView {
            clue_id: self.clue_id,
            question: self.question@,
            points: self.points,
            is_required: self.is_required,
        }
    }
}

/// Mathematical view of a [`PlayerProgress`].
#[verifier::ext_equal]
pub struct ProgressView {
    pub player: u64,
    pub hunt_id: u64,
    pub completed_clues: Seq<u32>,
    pub total_score: u64,
    pub is_completed: bool,
    pub completed_at: u64,
    pub reward_claimed: bool,
    pub started_at: u64,
}

/// Per-(hunt, player) progress record.
#[derive(Debug)]
pub struct PlayerProgress {
    pub player: u64,
    pub hunt_id: u64,
    /// Clue ids in completion order; no clue appears twice.
    pub completed_clues: Vec<u32>,
    /// Sum of the points of the completed clues.
    pub total_score: u64,
    /// Set once all required clues are completed; never reset.
    pub is_completed: bool,
    /// Time of completion; zero until then.
    pub completed_at: u64,
    /// Set once the reward was claimed; never reset.
    pub reward_claimed: bool,
    /// Registration time.
    pub started_at: u64,
}

impl View for PlayerProgress {
    type V = ProgressView;

    open spec fn view(&self) -> ProgressView {
        ProgressView {
            player: self.player,
            hunt_id: self.hunt_id,
            completed_clues: self.completed_clues@,
            total_score: self.total_score,
            is_completed: self.is_completed,
            completed_at: self.completed_at,
            reward_claimed: self.reward_claimed,
            started_at: self.started_at,
        }
    }
}

impl PlayerProgress {
    /// A fresh progress record for a player registering at `now`.
    pub fn new(player: u64, hunt_id: u64, now: u64) -> (r: PlayerProgress)
        ensures
            r@ == (ProgressView {
                player,
                hunt_id,
                completed_clues: Seq::<u32>::empty(),
                total_score: 0,
                is_completed: false,
                completed_at: 0,
                reward_claimed: false,
                started_at: now,
            }),
    {
        let r = PlayerProgress {
            player,
            hunt_id,
            completed_clues: Vec::new(),
            total_score: 0,
            is_completed: false,
            completed_at: 0,
            reward_claimed: false,
            started_at: now,
        };
        proof {
            assert(r@ =~= (ProgressView {
                player,
                hunt_id,
                completed_clues: Seq::<u32>::empty(),
                total_score: 0,
                is_completed: false,
                completed_at: 0,
                reward_claimed: false,
                started_at: now,
            }));
        }
        r
    }

    /// Tells whether this player has already completed the given clue.
    pub fn has_completed_clue(&self, clue_id: u32) -> (r: bool)
        ensures
            r == self.completed_clues@.contains(clue_id),
    {
        let mut i: usize = 0;
        while i < self.completed_clues.len()
            invariant
                0 <= i <= self.completed_clues@.len(),
                forall|k: int| 0 <= k < i ==> self.completed_clues@[k] != clue_id,
            decreases self.completed_clues@.len() - i,
        {
            if self.completed_clues[i] == clue_id {
                return true;
            }
            i = i + 1;
        }
        false
    }
}

/// One row of a hunt leaderboard.
#[derive(Clone, Copy, Debug, PartialEq, Eq, Structural)]
pub struct LeaderboardEntry {
    /// 1-based rank in selection order.
    pub rank: u32,
    pub player: u64,
    pub score: u64,
    pub completed_at: u64,
    pub is_completed: bool,
}

/// Aggregate statistics over a hunt's registered players.
#[derive(Clone, Copy, Debug, PartialEq, Eq, Structural)]
pub struct HuntStatistics {
    pub total_players: u32,
    pub completed_count: u32,
    pub completion_rate_percent: u32,
    pub total_score_sum: u64,
    pub average_score: u32,
}

/// Tells whether a clue id occurs in a list of clue ids.
pub fn contains_id(v: &Vec<u32>, x: u32) -> (r: bool)
    ensures
        r == v@.contains(x),
{
    let mut k: usize = 0;
    while k < v.len()
        invariant
            0 <= k <= v@.len(),
            forall|m: int| 0 <= m < k ==> v@[m] != x,
        decreases v@.len() - k,
    {
        if v[k] == x {
            return true;
        }
        k = k + 1;
    }
    false
}

/// Copies a byte string.
pub fn clone_bytes(v: &Vec<u8>) -> (r: Vec<u8>)
    ensures
        r@ == v@,
{
    let mut r: Vec<u8> = Vec::new();
    let mut i: usize = 0;
    while i < v.len()
        invariant
            0 <= i <= v@.len(),
            r@ =~= v@.subrange(0, i as int),
        decreases v@.len() - i,
    {
        r.push(v[i]);
        i = i + 1;
    }
    proof {
        assert(r@ =~= v@);
    }
    r
}

/// Copies a vector of clue ids.
pub fn clone_ids(v: &Vec<u32>) -> (r: Vec<u32>)
    ensures
        r@ == v@,
{
    let mut r: Vec<u32> = Vec::new();
    let mut i: usize = 0;
    while i < v.len()
        invariant
            0 <= i <= v@.len(),
            r@ =~= v@.subrange(0, i as int),
        decreases v@.len() - i,
    {
        r.push(v[i]);
        i = i + 1;
    }
    proof {
        assert(r@ =~= v@);
    }
    r
}

impl Clone for Hunt {
    /// Copies the hunt; the copy has the same view.
    fn clone(&self) -> (r: Self)
        ensures
            r@ == self@,
    {
        let r = Hunt {
            hunt_id: self.hunt_id,
            creator: self.creator,
            title: clone_bytes(&self.title),
            description: clone_bytes(&self.description),
            status: self.status,
            created_at: self.created_at,
            activated_at: self.activated_at,
            end_time: self.end_time,
            reward_config: self.reward_config,
            total_clues: self.total_clues,
            required_clues: self.required_clues,
        };
        proof {
            assert(r@ =~= self@);
        }
        r
    }
}

impl Clone for Clue {
    /// Copies the clue; the copy has the same view.
    fn clone(&self) -> (r: Self)
        ensures
            r@ == self@,
    {
        let r = Clue {
            clue_id: self.clue_id,
            question: clone_bytes(&self.question),
            answer_hash: clone_bytes(&self.answer_hash),
            points: self.points,
            is_required: self.is_required,
        };
        proof {
            assert(r@ =~= self@);
        }
        r
    }
}

impl Clone for ClueInfo {
    /// Copies the clue info; the copy has the same view.
    fn clone(&self) -> (r: Self)
        ensures
            r@ == self@,
    {
        let r = ClueInfo {
            clue_id: self.clue_id,
            question: clone_bytes(&self.question),
            points: self.points,
            is_required: self.is_required,
        };
        proof {
            assert(r@ =~= self@);
        }
        r
    }
}

impl Clone for PlayerProgress {
    /// Copies the progress record; the copy has the same view.
    fn clone(&self) -> (r: Self)
        ensures
            r@ == self@,
    {
        let r = PlayerProgress {
            player: self.player,
            hunt_id: self.hunt_id,
            completed_clues: clone_ids(&self.completed_clues),
            total_score: self.total_score,
            is_completed: self.is_completed,
            completed_at: self.completed_at,
            reward_claimed: self.reward_claimed,
            started_at: self.started_at,
        };
        proof {
            assert(r@ =~= self@);
        }
        r
    }
}

} // verus!
