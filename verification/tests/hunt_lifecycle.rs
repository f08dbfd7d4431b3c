//! Hunt creation, clue management, and lifecycle transitions.

use hunty::errors::HuntErrorCode;
use hunty::hunt::HuntyCore;
use hunty::types::HuntStatus;

const NOW: u64 = 1_700_000_000;

fn bytes(s: &str) -> Vec<u8> {
    s.as_bytes().to_vec()
}

#[test]
fn test_create_hunt_success() {
    let mut core = HuntyCore::new();
    let creator: u64 = 11;
    let title = bytes("Test Hunt");
    let description = bytes("This is a test hunt description");

    let hunt_id = core
        .create_hunt(creator, title.clone(), description.clone(), None, None, NOW)
        .unwrap();
    let hunt = core.get_hunt_info(hunt_id).unwrap();

    assert_eq!(hunt_id, 1);
    assert_eq!(hunt.hunt_id, hunt_id);
    assert_eq!(hunt.creator, creator);
    assert_eq!(hunt.title, title);
    assert_eq!(hunt.description, description);
    assert_eq!(hunt.status, HuntStatus::Draft);
    assert_eq!(hunt.total_clues, 0);
    assert_eq!(hunt.required_clues, 0);
    assert_eq!(hunt.reward_config.xlm_pool, 0);
    assert_eq!(hunt.reward_config.nft_enabled, false);
    assert_eq!(hunt.reward_config.max_winners, 0);
    assert_eq!(hunt.reward_config.claimed_count, 0);
    assert!(hunt.created_at > 0);
    assert_eq!(hunt.activated_at, 0);
    assert_eq!(hunt.end_time, 0);
}

#[test]
fn test_create_hunt_with_end_time() {
    let mut core = HuntyCore::new();
    let creator: u64 = 11;
    let end_time = 1000000u64;

    let hunt_id = core
        .create_hunt(
            creator,
            bytes("Timed Hunt"),
            bytes("A hunt with an end time"),
            None,
            Some(end_time),
            NOW,
        )
        .unwrap();
    let hunt = core.get_hunt_info(hunt_id).unwrap();
    assert_eq!(hunt.end_time, end_time);
}

#[test]
fn test_create_hunt_empty_title() {
    let mut core = HuntyCore::new();
    let result = core.create_hunt(11, bytes(""), bytes("Valid description"), None, None, NOW);

    assert_eq!(result, Err(HuntErrorCode::InvalidTitle));
}

#[test]
fn test_create_hunt_title_too_long() {
    let mut core = HuntyCore::new();
    let long_title = bytes(&"a".repeat(201));
    let result = core.create_hunt(11, long_title, bytes("Valid description"), None, None, NOW);

    assert_eq!(result, Err(HuntErrorCode::InvalidTitle));
}

#[test]
fn test_create_hunt_title_exactly_max_length() {
    let mut core = HuntyCore::new();
    let title = bytes(&"a".repeat(200));
    let result = core.create_hunt(11, title, bytes("Valid description"), None, None, NOW);

    assert!(result.is_ok());
}

#[test]
fn test_create_hunt_description_too_long() {
    let mut core = HuntyCore::new();
    let long_description = bytes(&"a".repeat(2001));
    let result = core.create_hunt(11, bytes("Valid Title"), long_description, None, None, NOW);

    assert_eq!(result, Err(HuntErrorCode::InvalidDescription));
}

#[test]
fn test_create_hunt_description_exactly_max_length() {
    let mut core = HuntyCore::new();
    let description = bytes(&"a".repeat(2000));
    let result = core.create_hunt(11, bytes("Valid Title"), description, None, None, NOW);

    assert!(result.is_ok());
}

#[test]
fn test_create_hunt_unique_ids() {
    let mut core = HuntyCore::new();
    let creator: u64 = 11;
    let description = bytes("Description");

    let hunt_id1 = core
        .create_hunt(creator, bytes("Hunt 1"), description.clone(), None, None, NOW)
        .unwrap();
    let hunt_id2 = core
        .create_hunt(creator, bytes("Hunt 2"), description.clone(), None, None, NOW)
        .unwrap();
    let hunt_id3 = core
        .create_hunt(creator, bytes("Hunt 3"), description, None, None, NOW)
        .unwrap();

    assert_eq!(hunt_id1, 1);
    assert_eq!(hunt_id2, 2);
    assert_eq!(hunt_id3, 3);
    assert_ne!(hunt_id1, hunt_id2);
    assert_ne!(hunt_id2, hunt_id3);
}

#[test]
fn test_create_hunt_different_creators() {
    let mut core = HuntyCore::new();
    let creator1: u64 = 21;
    let creator2: u64 = 22;

    let hunt_id1 = core
        .create_hunt(creator1, bytes("Test Hunt"), bytes("Description"), None, None, NOW)
        .unwrap();
    let hunt_id2 = core
        .create_hunt(creator2, bytes("Test Hunt"), bytes("Description"), None, None, NOW)
        .unwrap();
    let hunt1 = core.get_hunt_info(hunt_id1).unwrap();
    let hunt2 = core.get_hunt_info(hunt_id2).unwrap();

    assert_eq!(hunt1.creator, creator1);
    assert_eq!(hunt2.creator, creator2);
    assert_ne!(hunt1.creator, hunt2.creator);
}

#[test]
fn test_create_hunt_counter_increments() {
    let mut core = HuntyCore::new();
    let creator: u64 = 11;

    let start_counter = core.hunts.len() as u64;
    let hunt_id1 = core
        .create_hunt(creator, bytes("Test Hunt"), bytes("Description"), None, None, NOW)
        .unwrap();
    let counter_after_1 = core.hunts.len() as u64;
    let hunt_id2 = core
        .create_hunt(creator, bytes("Test Hunt"), bytes("Description"), None, None, NOW)
        .unwrap();
    let counter_after_2 = core.hunts.len() as u64;

    assert_eq!(start_counter, 0);
    assert_eq!(counter_after_1, 1);
    assert_eq!(hunt_id1, 1);
    assert_eq!(counter_after_2, 2);
    assert_eq!(hunt_id2, 2);
}

#[test]
fn test_create_hunt_default_reward_config() {
    let mut core = HuntyCore::new();
    let hunt_id = core
        .create_hunt(11, bytes("Test Hunt"), bytes("Description"), None, None, NOW)
        .unwrap();
    let hunt = core.get_hunt_info(hunt_id).unwrap();
    let reward_config = hunt.reward_config;

    assert_eq!(reward_config.xlm_pool, 0);
    assert_eq!(reward_config.nft_enabled, false);
    assert_eq!(reward_config.nft_contract, None);
    assert_eq!(reward_config.max_winners, 0);
    assert_eq!(reward_config.claimed_count, 0);
}

#[test]
fn test_create_hunt_created_at_timestamp() {
    let mut core = HuntyCore::new();
    let hunt_id = core
        .create_hunt(11, bytes("Test Hunt"), bytes("Description"), None, None, NOW)
        .unwrap();
    let hunt = core.get_hunt_info(hunt_id).unwrap();
    let current_time = NOW;

    assert!(hunt.created_at > 0);
    assert!(hunt.created_at <= current_time);
    assert!(current_time - hunt.created_at < 10);
}

#[test]
fn test_add_clue_success() {
    let mut core = HuntyCore::new();
    let creator: u64 = 11;
    let question = bytes("What is 2 + 2?");

    let hunt_id = core
        .create_hunt(creator, bytes("Test Hunt"), bytes("Description"), None, None, NOW)
        .unwrap();
    let clue_id = core
        .add_clue(hunt_id, question.clone(), bytes("four"), 10, true)
        .unwrap();
    let hunt = core.get_hunt_info(hunt_id).unwrap();
    let info = core.get_clue(hunt_id, clue_id).unwrap();

    assert_eq!(hunt_id, 1);
    assert_eq!(clue_id, 1);
    assert_eq!(hunt.total_clues, 1);
    assert_eq!(info.clue_id, 1);
    assert_eq!(info.question, question);
    assert_eq!(info.points, 10);
    assert!(info.is_required);
}

#[test]
fn test_add_clue_sequential_ids() {
    let mut core = HuntyCore::new();
    let hunt_id = core
        .create_hunt(11, bytes("Hunt"), bytes("Desc"), None, None, NOW)
        .unwrap();
    let id1 = core.add_clue(hunt_id, bytes("Q1"), bytes("a"), 1, false).unwrap();
    let id2 = core.add_clue(hunt_id, bytes("Q2"), bytes("a"), 1, false).unwrap();
    let id3 = core.add_clue(hunt_id, bytes("Q3"), bytes("a"), 1, false).unwrap();

    assert_eq!(id1, 1);
    assert_eq!(id2, 2);
    assert_eq!(id3, 3);
}

#[test]
fn test_add_clue_answer_normalization_and_hashing() {
    let mut core = HuntyCore::new();
    let hunt_id = core
        .create_hunt(11, bytes("Hunt"), bytes("Desc"), None, None, NOW)
        .unwrap();
    let clue_id = core
        .add_clue(hunt_id, bytes("Same answer?"), bytes("  ANSWER  "), 5, false)
        .unwrap();
    let hash1 = core.clues[(hunt_id - 1) as usize][(clue_id - 1) as usize]
        .answer_hash
        .clone();
    let hunt_id2 = core
        .create_hunt(12, bytes("H2"), bytes("Desc"), None, None, NOW)
        .unwrap();
    let clue_id2 = core
        .add_clue(hunt_id2, bytes("Same answer?"), bytes("answer"), 5, false)
        .unwrap();
    let hash2 = core.clues[(hunt_id2 - 1) as usize][(clue_id2 - 1) as usize]
        .answer_hash
        .clone();

    assert_eq!(
        hash1, hash2,
        "normalized '  ANSWER  ' and 'answer' must hash the same"
    );
}

#[test]
fn test_get_clue_excludes_answer_hash() {
    let mut core = HuntyCore::new();
    let question = bytes("Secret?");
    let hunt_id = core
        .create_hunt(11, bytes("Hunt"), bytes("Desc"), None, None, NOW)
        .unwrap();
    core.add_clue(hunt_id, question.clone(), bytes("secret"), 7, true)
        .unwrap();
    let info = core.get_clue(hunt_id, 1).unwrap();

    assert_eq!(info.question, question);
    assert_eq!(info.points, 7);
    assert!(info.is_required);
    // ClueInfo has no answer_hash field — it is never exposed.
}

#[test]
fn test_get_clue_not_found() {
    let mut core = HuntyCore::new();
    let hunt_id = core
        .create_hunt(11, bytes("Hunt"), bytes("Desc"), None, None, NOW)
        .unwrap();
    let err = core.get_clue(hunt_id, 999).unwrap_err();

    assert_eq!(err, HuntErrorCode::ClueNotFound);
}

#[test]
fn test_list_clues_empty() {
    let mut core = HuntyCore::new();
    let hunt_id = core
        .create_hunt(11, bytes("Hunt"), bytes("Desc"), None, None, NOW)
        .unwrap();
    let list = core.list_clues(hunt_id);

    assert_eq!(list.len(), 0);
}

#[test]
fn test_list_clues_returns_all() {
    let mut core = HuntyCore::new();
    let hunt_id = core
        .create_hunt(11, bytes("Hunt"), bytes("Desc"), None, None, NOW)
        .unwrap();
    core.add_clue(hunt_id, bytes("Q1"), bytes("a"), 1, false).unwrap();
    core.add_clue(hunt_id, bytes("Q2"), bytes("a"), 2, true).unwrap();
    let list = core.list_clues(hunt_id);

    assert_eq!(list.len(), 2);
    let c1 = &list[0];
    let c2 = &list[1];
    assert_eq!(c1.clue_id, 1);
    assert_eq!(c2.clue_id, 2);
    assert_eq!(c1.points, 1);
    assert_eq!(c2.points, 2);
    assert!(!c1.is_required);
    assert!(c2.is_required);
}

#[test]
fn test_add_clue_hunt_not_found() {
    let mut core = HuntyCore::new();
    let err = core
        .add_clue(9999, bytes("Q"), bytes("a"), 1, false)
        .unwrap_err();

    assert_eq!(err, HuntErrorCode::HuntNotFound);
}

#[test]
fn test_add_clue_invalid_question_empty() {
    let mut core = HuntyCore::new();
    let hunt_id = core
        .create_hunt(11, bytes("Hunt"), bytes("Desc"), None, None, NOW)
        .unwrap();
    let err = core
        .add_clue(hunt_id, bytes(""), bytes("a"), 1, false)
        .unwrap_err();

    assert_eq!(err, HuntErrorCode::InvalidQuestion);
}

#[test]
fn test_add_clue_invalid_answer_empty() {
    let mut core = HuntyCore::new();
    let hunt_id = core
        .create_hunt(11, bytes("Hunt"), bytes("Desc"), None, None, NOW)
        .unwrap();
    let err = core
        .add_clue(hunt_id, bytes("Q"), bytes(""), 1, false)
        .unwrap_err();

    assert_eq!(err, HuntErrorCode::InvalidAnswer);
}

#[test]
fn test_add_clue_invalid_answer_whitespace_only() {
    let mut core = HuntyCore::new();
    let hunt_id = core
        .create_hunt(11, bytes("Hunt"), bytes("Desc"), None, None, NOW)
        .unwrap();
    let err = core
        .add_clue(hunt_id, bytes("Q"), bytes("   \t  "), 1, false)
        .unwrap_err();

    assert_eq!(err, HuntErrorCode::InvalidAnswer);
}

#[test]
fn test_add_clue_too_many_clues() {
    let mut core = HuntyCore::new();
    const MAX_CLUES: u32 = 100;
    let hunt_id = core
        .create_hunt(11, bytes("Hunt"), bytes("Desc"), None, None, NOW)
        .unwrap();
    for _ in 0..MAX_CLUES {
        core.add_clue(hunt_id, bytes("Q"), bytes("a"), 1, false).unwrap();
    }
    let err = core
        .add_clue(hunt_id, bytes("Q"), bytes("a"), 1, false)
        .unwrap_err();

    assert_eq!(err, HuntErrorCode::TooManyClues);
}

#[test]
fn test_add_clue_invalid_hunt_status_not_draft() {
    let mut core = HuntyCore::new();
    let hunt_id = core
        .create_hunt(11, bytes("Hunt"), bytes("Desc"), None, None, NOW)
        .unwrap();
    core.hunts[(hunt_id - 1) as usize].status = HuntStatus::Active;
    let err = core
        .add_clue(hunt_id, bytes("Q"), bytes("a"), 1, false)
        .unwrap_err();

    assert_eq!(err, HuntErrorCode::InvalidHuntStatus);
}

#[test]
fn test_add_clue_invalid_question_too_long() {
    let mut core = HuntyCore::new();
    let long_q = bytes(&"a".repeat(2001));
    let hunt_id = core
        .create_hunt(11, bytes("Hunt"), bytes("Desc"), None, None, NOW)
        .unwrap();
    let err = core.add_clue(hunt_id, long_q, bytes("a"), 1, false).unwrap_err();

    assert_eq!(err, HuntErrorCode::InvalidQuestion);
}

#[test]
fn test_activate_hunt_success() {
    let mut core = HuntyCore::new();
    let creator: u64 = 11;
    let hunt_id = core
        .create_hunt(
            creator,
            bytes("Test Hunt"),
            bytes("This is a test hunt description"),
            None,
            None,
            NOW,
        )
        .unwrap();
    core.add_clue(hunt_id, bytes("Valid question"), bytes("a"), 1, false)
        .unwrap();
    core.activate_hunt(hunt_id, creator, NOW).unwrap();

    let hunt = core.get_hunt_info(hunt_id).unwrap();
    assert_eq!(hunt.status, HuntStatus::Active);
    assert!(hunt.activated_at > 0);
}

#[test]
fn test_activate_hunt_not_found() {
    let mut core = HuntyCore::new();
    let err = core.activate_hunt(999, 11, NOW).unwrap_err();
    assert_eq!(err, HuntErrorCode::HuntNotFound);
}

#[test]
fn test_activate_hunt_unauthorized() {
    let mut core = HuntyCore::new();
    let creator: u64 = 11;
    let attacker: u64 = 66;
    let hunt_id = core
        .create_hunt(creator, bytes("Test Hunt"), bytes("Test description"), None, None, NOW)
        .unwrap();

    let err = core.activate_hunt(hunt_id, attacker, NOW).unwrap_err();
    assert_eq!(err, HuntErrorCode::Unauthorized);
}

#[test]
fn test_activate_hunt_no_clues() {
    let mut core = HuntyCore::new();
    let creator: u64 = 11;
    let hunt_id = core
        .create_hunt(creator, bytes("Test Hunt"), bytes("Test description"), None, None, NOW)
        .unwrap();

    let err = core.activate_hunt(hunt_id, creator, NOW).unwrap_err();
    assert_eq!(err, HuntErrorCode::NoCluesAdded);
}

#[test]
fn test_deactivate_hunt_success() {
    let mut core = HuntyCore::new();
    let creator: u64 = 11;
    let hunt_id = core
        .create_hunt(creator, bytes("Test Hunt"), bytes("Test description"), None, None, NOW)
        .unwrap();
    core.add_clue(hunt_id, bytes("Valid question"), bytes("a"), 1, false)
        .unwrap();
    core.activate_hunt(hunt_id, creator, NOW).unwrap();
    core.deactivate_hunt(hunt_id, creator).unwrap();

    let hunt = core.get_hunt_info(hunt_id).unwrap();
    assert_eq!(hunt.status, HuntStatus::Draft);
}

#[test]
fn test_deactivate_hunt_not_found() {
    let mut core = HuntyCore::new();
    let err = core.deactivate_hunt(404, 11).unwrap_err();
    assert_eq!(err, HuntErrorCode::HuntNotFound);
}

#[test]
fn test_deactivate_hunt_unauthorized() {
    let mut core = HuntyCore::new();
    let creator: u64 = 11;
    let attacker: u64 = 66;
    let hunt_id = core
        .create_hunt(creator, bytes("Test Hunt"), bytes("Test description"), None, None, NOW)
        .unwrap();
    core.add_clue(hunt_id, bytes("Valid question"), bytes("a"), 1, false)
        .unwrap();
    core.activate_hunt(hunt_id, creator, NOW).unwrap();

    let err = core.deactivate_hunt(hunt_id, attacker).unwrap_err();
    assert_eq!(err, HuntErrorCode::Unauthorized);
}

#[test]
fn test_cancel_hunt_from_active_success() {
    let mut core = HuntyCore::new();
    let creator: u64 = 11;
    let hunt_id = core
        .create_hunt(creator, bytes("Test Hunt"), bytes("Test description"), None, None, NOW)
        .unwrap();
    core.add_clue(hunt_id, bytes("Valid question"), bytes("a"), 1, false)
        .unwrap();
    core.activate_hunt(hunt_id, creator, NOW).unwrap();
    core.cancel_hunt(hunt_id, creator).unwrap();

    let hunt = core.get_hunt_info(hunt_id).unwrap();
    assert_eq!(hunt.status, HuntStatus::Cancelled);
}

#[test]
fn test_cancel_hunt_not_found() {
    let mut core = HuntyCore::new();
    let err = core.cancel_hunt(999, 11).unwrap_err();
    assert_eq!(err, HuntErrorCode::HuntNotFound);
}

#[test]
fn test_cancel_hunt_unauthorized() {
    let mut core = HuntyCore::new();
    let creator: u64 = 11;
    let attacker: u64 = 66;
    let hunt_id = core
        .create_hunt(creator, bytes("Test Hunt"), bytes("Test description"), None, None, NOW)
        .unwrap();
    core.add_clue(hunt_id, bytes("Valid question"), bytes("a"), 1, false)
        .unwrap();
    core.activate_hunt(hunt_id, creator, NOW).unwrap();

    let err = core.cancel_hunt(hunt_id, attacker).unwrap_err();
    assert_eq!(err, HuntErrorCode::Unauthorized);
}

#[test]
fn test_cancel_hunt_already_cancelled() {
    let mut core = HuntyCore::new();
    let creator: u64 = 11;
    let hunt_id = core
        .create_hunt(creator, bytes("Test Hunt"), bytes("Test description"), None, None, NOW)
        .unwrap();
    core.add_clue(hunt_id, bytes("Valid question"), bytes("a"), 1, false)
        .unwrap();
    core.activate_hunt(hunt_id, creator, NOW).unwrap();
    core.cancel_hunt(hunt_id, creator).unwrap();
    let err = core.cancel_hunt(hunt_id, creator).unwrap_err();
    assert_eq!(err, HuntErrorCode::InvalidHuntStatus);
}

#[test]
fn test_cancel_hunt_is_terminal_for_every_transition() {
    let mut core = HuntyCore::new();
    let creator: u64 = 11;
    let hunt_id = core
        .create_hunt(creator, bytes("Hunt"), bytes("Desc"), None, None, NOW)
        .unwrap();
    core.add_clue(hunt_id, bytes("Q"), bytes("a"), 1, false).unwrap();
    core.cancel_hunt(hunt_id, creator).unwrap();

    assert_eq!(core.activate_hunt(hunt_id, creator, NOW), Err(HuntErrorCode::InvalidHuntStatus));
    assert_eq!(core.deactivate_hunt(hunt_id, creator), Err(HuntErrorCode::InvalidHuntStatus));
    assert_eq!(core.cancel_hunt(hunt_id, creator), Err(HuntErrorCode::InvalidHuntStatus));
    assert_eq!(
        core.get_hunt_info(hunt_id).unwrap().status,
        HuntStatus::Cancelled
    );
}

#[test]
fn test_get_hunt_info() {
    let mut core = HuntyCore::new();
    let creator: u64 = 11;
    let hunt_id = core
        .create_hunt(creator, bytes("Query Hunt"), bytes("Desc"), None, None, NOW)
        .unwrap();

    let info = core.get_hunt_info(hunt_id).unwrap();

    assert_eq!(info.hunt_id, hunt_id);
    assert_eq!(info.creator, creator);
    assert_eq!(info.title, bytes("Query Hunt"));
    assert_eq!(info.status, HuntStatus::Draft);
}
