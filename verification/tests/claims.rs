//! Reward claims: the cross-service `complete_hunt` flow.
//!
//! The host's part — resolving service addresses and moving fungible tokens —
//! is played by these tests: token balances are tracked in local variables,
//! and a transfer is applied exactly when the operation it belongs to
//! succeeds.

use hunty::errors::HuntErrorCode;
use hunty::hunt::HuntyCore;
use hunty::nft::NftReward;
use hunty::reward::RewardManager;
use hunty::types::RewardConfig;

const NOW: u64 = 1_700_000_000;
const RM_ADDR: u64 = 800;
const NFT_ADDR: u64 = 900;
const TOKEN_ADDR: u64 = 700;

fn bytes(s: &str) -> Vec<u8> {
    s.as_bytes().to_vec()
}

/// Creates a hunt with one required clue ("What is 1+1?" / "2"), configures
/// rewards, activates it, registers the player and submits the correct
/// answer.
fn setup_completed_hunt_with_rewards(
    core: &mut HuntyCore,
    creator: u64,
    player: u64,
    max_winners: u32,
    xlm_pool: i128,
) -> u64 {
    let hunt_id = core
        .create_hunt(
            creator,
            bytes("Reward Hunt"),
            bytes("A hunt with rewards"),
            None,
            None,
            NOW,
        )
        .unwrap();
    core.add_clue(hunt_id, bytes("What is 1+1?"), bytes("2"), 10, true)
        .unwrap();
    core.set_reward_config(hunt_id, RewardConfig::new(xlm_pool, false, None, max_winners))
        .unwrap();
    core.activate_hunt(hunt_id, creator, NOW).unwrap();
    core.register_player(hunt_id, player, NOW).unwrap();
    core.submit_answer(hunt_id, 1, player, bytes("2"), NOW).unwrap();
    hunt_id
}

#[test]
fn test_complete_hunt_with_reward_manager_and_nft_reward_full_flow() {
    let mut core = HuntyCore::new();
    let mut rm = RewardManager::new();
    let mut nft = NftReward::new();
    let creator: u64 = 11;
    let player: u64 = 31;
    let funder: u64 = 51;

    // The host's token ledger for this test.
    let mut funder_balance: i128 = 10_000;
    let mut rm_balance: i128 = 0;
    let mut player_balance: i128 = 0;

    rm.initialize(TOKEN_ADDR);
    rm.set_nft_reward_contract(NFT_ADDR);

    let hunt_id = core
        .create_hunt(
            creator,
            bytes("Integrated Hunt"),
            bytes("Hunt with XLM + NFT rewards"),
            None,
            None,
            NOW,
        )
        .unwrap();
    core.add_clue(hunt_id, bytes("What is 1+1?"), bytes("2"), 10, true)
        .unwrap();
    // Configure rewards on the hunt: 3 winners sharing 9_000 XLM
    core.set_reward_config(hunt_id, RewardConfig::new(9_000, true, Some(NFT_ADDR), 3))
        .unwrap();
    core.activate_hunt(hunt_id, creator, NOW).unwrap();

    // Fund the coordinator's pool for this hunt
    rm.fund_reward_pool(funder, hunt_id, 9_000, true).unwrap();
    funder_balance -= 9_000;
    rm_balance += 9_000;

    // Wire the engine to the coordinator
    core.set_reward_manager(RM_ADDR);

    core.register_player(hunt_id, player, NOW).unwrap();
    core.submit_answer(hunt_id, 1, player, bytes("2"), NOW).unwrap();

    core.complete_hunt(hunt_id, player, &mut rm, RM_ADDR, &mut nft, NFT_ADDR, true, NOW)
        .unwrap();
    let status = rm.get_distribution_status(hunt_id, player);
    rm_balance -= status.xlm_amount;
    player_balance += status.xlm_amount;

    let progress = core.get_player_progress(hunt_id, player).unwrap();
    assert!(progress.reward_claimed);

    let hunt = core.get_hunt_info(hunt_id).unwrap();
    assert_eq!(hunt.reward_config.claimed_count, 1);

    // reward_per_winner = 9_000 / 3 = 3_000
    assert_eq!(player_balance, 3_000);
    assert_eq!(rm.get_pool_balance(hunt_id), 6_000);
    assert_eq!(rm_balance, 6_000);
    assert_eq!(funder_balance, 1_000);

    assert!(status.distributed);
    assert_eq!(status.xlm_amount, 3_000);
    assert!(status.nft_id.is_some());

    let minted_nft_id = status.nft_id.unwrap();
    let owned_nfts = nft.get_player_nfts(player);
    assert!(owned_nfts.len() >= 1);
    assert!(owned_nfts.iter().any(|id| *id == minted_nft_id));

    let rec = nft.get_nft(minted_nft_id).unwrap();
    assert_eq!(rec.hunt_id, hunt_id);
    assert_eq!(rec.owner, player);
    assert_eq!(rec.metadata.title, bytes("Integrated Hunt"));
}

#[test]
fn test_complete_hunt_reward_manager_failure_is_propagated() {
    let mut core = HuntyCore::new();
    let creator: u64 = 11;
    let player: u64 = 31;
    let hunt_id = setup_completed_hunt_with_rewards(&mut core, creator, player, 5, 1_000);

    // A coordinator that was never initialized or funded: distribution fails
    let mut rm = RewardManager::new();
    let mut nft = NftReward::new();
    core.set_reward_manager(RM_ADDR);

    let result =
        core.complete_hunt(hunt_id, player, &mut rm, RM_ADDR, &mut nft, NFT_ADDR, true, NOW);

    assert_eq!(result, Err(HuntErrorCode::RewardDistributionFailed));
}

#[test]
fn test_complete_hunt_multiple_players_shared_reward_manager() {
    let mut core = HuntyCore::new();
    let mut rm = RewardManager::new();
    let mut nft = NftReward::new();
    let creator: u64 = 11;
    let players: [u64; 3] = [31, 32, 33];
    let funder: u64 = 51;

    let mut funder_balance: i128 = 6_000;
    let mut balances: [i128; 3] = [0, 0, 0];

    rm.initialize(TOKEN_ADDR);
    rm.set_nft_reward_contract(NFT_ADDR);

    let hunt_id = core
        .create_hunt(creator, bytes("Multi Hunt"), bytes("Multiple winners"), None, None, NOW)
        .unwrap();
    core.add_clue(hunt_id, bytes("What is 1+1?"), bytes("2"), 10, true)
        .unwrap();
    // xlm_pool = 6_000, max_winners = 3
    core.set_reward_config(hunt_id, RewardConfig::new(6_000, true, Some(NFT_ADDR), 3))
        .unwrap();
    core.activate_hunt(hunt_id, creator, NOW).unwrap();

    rm.fund_reward_pool(funder, hunt_id, 6_000, true).unwrap();
    funder_balance -= 6_000;
    let mut rm_balance: i128 = 6_000;

    core.set_reward_manager(RM_ADDR);

    for (i, player) in players.iter().enumerate() {
        core.register_player(hunt_id, *player, NOW).unwrap();
        core.submit_answer(hunt_id, 1, *player, bytes("2"), NOW).unwrap();
        core.complete_hunt(hunt_id, *player, &mut rm, RM_ADDR, &mut nft, NFT_ADDR, true, NOW)
            .unwrap();
        let status = rm.get_distribution_status(hunt_id, *player);
        rm_balance -= status.xlm_amount;
        balances[i] += status.xlm_amount;
    }

    // Each winner received 2_000 XLM and one collectible
    assert_eq!(balances[0], 2_000);
    assert_eq!(balances[1], 2_000);
    assert_eq!(balances[2], 2_000);
    assert_eq!(rm_balance, 0);
    assert_eq!(funder_balance, 0);

    assert_eq!(rm.get_pool_balance(hunt_id), 0);

    assert!(nft.get_player_nfts(players[0]).len() >= 1);
    assert!(nft.get_player_nfts(players[1]).len() >= 1);
    assert!(nft.get_player_nfts(players[2]).len() >= 1);

    let hunt = core.get_hunt_info(hunt_id).unwrap();
    assert_eq!(hunt.reward_config.claimed_count, 3);
}

#[test]
fn test_complete_hunt_success_no_reward_manager() {
    let mut core = HuntyCore::new();
    let mut rm = RewardManager::new();
    let mut nft = NftReward::new();
    let creator: u64 = 11;
    let player: u64 = 31;
    let hunt_id = setup_completed_hunt_with_rewards(&mut core, creator, player, 5, 1000);

    // No reward coordinator wired up — the claim still succeeds
    core.complete_hunt(hunt_id, player, &mut rm, RM_ADDR, &mut nft, NFT_ADDR, true, NOW)
        .unwrap();

    let progress = core.get_player_progress(hunt_id, player).unwrap();
    assert!(progress.reward_claimed);

    let hunt = core.get_hunt_info(hunt_id).unwrap();
    assert_eq!(hunt.reward_config.claimed_count, 1);
}

#[test]
fn test_complete_hunt_not_completed() {
    let mut core = HuntyCore::new();
    let mut rm = RewardManager::new();
    let mut nft = NftReward::new();
    let creator: u64 = 11;
    let player: u64 = 31;

    // Hunt with 2 required clues
    let hunt_id = core
        .create_hunt(creator, bytes("Hunt"), bytes("Desc"), None, None, NOW)
        .unwrap();
    core.add_clue(hunt_id, bytes("Q1"), bytes("a1"), 10, true).unwrap();
    core.add_clue(hunt_id, bytes("Q2"), bytes("a2"), 10, true).unwrap();
    core.set_reward_config(hunt_id, RewardConfig::new(1000, false, None, 5))
        .unwrap();
    core.activate_hunt(hunt_id, creator, NOW).unwrap();

    // Answer only 1 of 2 required clues
    core.register_player(hunt_id, player, NOW).unwrap();
    core.submit_answer(hunt_id, 1, player, bytes("a1"), NOW).unwrap();

    let result =
        core.complete_hunt(hunt_id, player, &mut rm, RM_ADDR, &mut nft, NFT_ADDR, true, NOW);
    assert_eq!(result, Err(HuntErrorCode::HuntNotCompleted));
}

#[test]
fn test_complete_hunt_double_claim() {
    let mut core = HuntyCore::new();
    let mut rm = RewardManager::new();
    let mut nft = NftReward::new();
    let creator: u64 = 11;
    let player: u64 = 31;
    let hunt_id = setup_completed_hunt_with_rewards(&mut core, creator, player, 5, 1000);

    core.complete_hunt(hunt_id, player, &mut rm, RM_ADDR, &mut nft, NFT_ADDR, true, NOW)
        .unwrap();

    let result =
        core.complete_hunt(hunt_id, player, &mut rm, RM_ADDR, &mut nft, NFT_ADDR, true, NOW);
    assert_eq!(result, Err(HuntErrorCode::RewardAlreadyClaimed));
}

#[test]
fn test_complete_hunt_max_winners_reached() {
    let mut core = HuntyCore::new();
    let mut rm = RewardManager::new();
    let mut nft = NftReward::new();
    let creator: u64 = 11;
    let player1: u64 = 31;
    let player2: u64 = 32;

    // max_winners = 1
    let hunt_id = setup_completed_hunt_with_rewards(&mut core, creator, player1, 1, 1000);

    core.complete_hunt(hunt_id, player1, &mut rm, RM_ADDR, &mut nft, NFT_ADDR, true, NOW)
        .unwrap();

    core.register_player(hunt_id, player2, NOW).unwrap();
    core.submit_answer(hunt_id, 1, player2, bytes("2"), NOW).unwrap();

    // No slots left
    let result =
        core.complete_hunt(hunt_id, player2, &mut rm, RM_ADDR, &mut nft, NFT_ADDR, true, NOW);
    assert_eq!(result, Err(HuntErrorCode::InsufficientRewardPool));
}

#[test]
fn test_complete_hunt_no_rewards_configured() {
    let mut core = HuntyCore::new();
    let mut rm = RewardManager::new();
    let mut nft = NftReward::new();
    let creator: u64 = 11;
    let player: u64 = 31;

    // max_winners = 0, xlm_pool = 0
    let hunt_id = setup_completed_hunt_with_rewards(&mut core, creator, player, 0, 0);

    let result =
        core.complete_hunt(hunt_id, player, &mut rm, RM_ADDR, &mut nft, NFT_ADDR, true, NOW);
    assert_eq!(result, Err(HuntErrorCode::NoRewardsConfigured));
}

#[test]
fn test_complete_hunt_player_not_registered() {
    let mut core = HuntyCore::new();
    let mut rm = RewardManager::new();
    let mut nft = NftReward::new();
    let creator: u64 = 11;
    let player: u64 = 31;
    let stranger: u64 = 77;
    let hunt_id = setup_completed_hunt_with_rewards(&mut core, creator, player, 5, 1000);

    let result =
        core.complete_hunt(hunt_id, stranger, &mut rm, RM_ADDR, &mut nft, NFT_ADDR, true, NOW);
    assert_eq!(result, Err(HuntErrorCode::PlayerNotRegistered));
}

#[test]
fn test_shared_pool_exhausts_after_three_claims_and_fourth_player_fails() {
    let mut core = HuntyCore::new();
    let mut rm = RewardManager::new();
    let mut nft = NftReward::new();
    let creator: u64 = 11;
    let funder: u64 = 51;
    let players: [u64; 4] = [31, 32, 33, 34];

    rm.initialize(TOKEN_ADDR);

    let hunt_id = core
        .create_hunt(creator, bytes("Pool Hunt"), bytes("Desc"), None, None, NOW)
        .unwrap();
    core.add_clue(hunt_id, bytes("Q"), bytes("a"), 10, true).unwrap();
    core.set_reward_config(hunt_id, RewardConfig::new(9_000, false, None, 3))
        .unwrap();
    core.activate_hunt(hunt_id, creator, NOW).unwrap();
    rm.fund_reward_pool(funder, hunt_id, 9_000, true).unwrap();
    core.set_reward_manager(RM_ADDR);

    for player in players {
        core.register_player(hunt_id, player, NOW).unwrap();
        core.submit_answer(hunt_id, 1, player, bytes("a"), NOW).unwrap();
    }
    for player in &players[0..3] {
        core.complete_hunt(hunt_id, *player, &mut rm, RM_ADDR, &mut nft, NFT_ADDR, true, NOW)
            .unwrap();
        let status = rm.get_distribution_status(hunt_id, *player);
        assert_eq!(status.xlm_amount, 3_000);
    }
    assert_eq!(rm.get_pool_balance(hunt_id), 0);

    let result =
        core.complete_hunt(hunt_id, players[3], &mut rm, RM_ADDR, &mut nft, NFT_ADDR, true, NOW);
    assert_eq!(result, Err(HuntErrorCode::InsufficientRewardPool));
}

#[test]
fn test_failed_transfer_aborts_claim_without_any_state_change() {
    let mut core = HuntyCore::new();
    let mut rm = RewardManager::new();
    let mut nft = NftReward::new();
    let creator: u64 = 11;
    let player: u64 = 31;
    let funder: u64 = 51;

    rm.initialize(TOKEN_ADDR);

    let hunt_id = core
        .create_hunt(creator, bytes("Atomic Hunt"), bytes("Desc"), None, None, NOW)
        .unwrap();
    core.add_clue(hunt_id, bytes("Q"), bytes("a"), 10, true).unwrap();
    core.set_reward_config(hunt_id, RewardConfig::new(4_000, true, Some(NFT_ADDR), 2))
        .unwrap();
    core.activate_hunt(hunt_id, creator, NOW).unwrap();
    rm.fund_reward_pool(funder, hunt_id, 4_000, true).unwrap();
    core.set_reward_manager(RM_ADDR);
    core.register_player(hunt_id, player, NOW).unwrap();
    core.submit_answer(hunt_id, 1, player, bytes("a"), NOW).unwrap();

    // The nested fungible transfer fails: nothing may change anywhere.
    let result =
        core.complete_hunt(hunt_id, player, &mut rm, RM_ADDR, &mut nft, NFT_ADDR, false, NOW);

    assert_eq!(result, Err(HuntErrorCode::RewardDistributionFailed));
    assert_eq!(rm.get_pool_balance(hunt_id), 4_000);
    assert!(!rm.is_reward_distributed(hunt_id, player));
    assert_eq!(nft.total_supply(), 0);
    assert!(!core.get_player_progress(hunt_id, player).unwrap().reward_claimed);
    assert_eq!(core.get_hunt_info(hunt_id).unwrap().reward_config.claimed_count, 0);
}

#[test]
fn test_failed_mint_aborts_claim_without_any_state_change() {
    let mut core = HuntyCore::new();
    let mut rm = RewardManager::new();
    let mut nft = NftReward::new();
    let creator: u64 = 11;
    let player: u64 = 31;
    let funder: u64 = 51;

    rm.initialize(TOKEN_ADDR);

    let hunt_id = core
        .create_hunt(creator, bytes("Atomic Hunt"), bytes("Desc"), None, None, NOW)
        .unwrap();
    core.add_clue(hunt_id, bytes("Q"), bytes("a"), 10, true).unwrap();
    // The hunt names a registry address the host cannot resolve to `nft`.
    core.set_reward_config(hunt_id, RewardConfig::new(4_000, true, Some(NFT_ADDR + 1), 2))
        .unwrap();
    core.activate_hunt(hunt_id, creator, NOW).unwrap();
    rm.fund_reward_pool(funder, hunt_id, 4_000, true).unwrap();
    core.set_reward_manager(RM_ADDR);
    core.register_player(hunt_id, player, NOW).unwrap();
    core.submit_answer(hunt_id, 1, player, bytes("a"), NOW).unwrap();

    // The nested mint fails even though the transfer would succeed.
    let result =
        core.complete_hunt(hunt_id, player, &mut rm, RM_ADDR, &mut nft, NFT_ADDR, true, NOW);

    assert_eq!(result, Err(HuntErrorCode::RewardDistributionFailed));
    assert_eq!(rm.get_pool_balance(hunt_id), 4_000);
    assert!(!rm.is_reward_distributed(hunt_id, player));
    assert_eq!(nft.total_supply(), 0);
    assert!(!core.get_player_progress(hunt_id, player).unwrap().reward_claimed);
    assert_eq!(core.get_hunt_info(hunt_id).unwrap().reward_config.claimed_count, 0);
}
