//! The NFT registry: minting, ownership, transfers, metadata.

use hunty::errors::NftErrorCode;
use hunty::nft::{NftMetadata, NftReward};

const NOW: u64 = 1000;

fn bytes(s: &str) -> Vec<u8> {
    s.as_bytes().to_vec()
}

fn create_metadata(title: &str, desc: &str, image_uri: &str) -> NftMetadata {
    NftMetadata {
        title: bytes(title),
        description: bytes(desc),
        image_uri: bytes(image_uri),
        hunt_title: Vec::new(),
        rarity: 0,
        tier: 0,
    }
}

#[test]
fn test_mint_reward_nft() {
    let mut registry = NftReward::new();
    let player: u64 = 31;
    let metadata = create_metadata("Hunt Champion", "Completed the City Hunt", "ipfs://QmExample123");

    let nft_id = registry.mint_reward_nft(1, player, metadata, NOW);

    assert_eq!(nft_id, 1);

    let nft = registry.get_nft(nft_id).unwrap();
    assert_eq!(nft.nft_id, 1);
    assert_eq!(nft.hunt_id, 1);
    assert_eq!(nft.owner, player);
    assert_eq!(nft.metadata.title, bytes("Hunt Champion"));
    assert_eq!(nft.metadata.description, bytes("Completed the City Hunt"));
    assert_eq!(nft.metadata.image_uri, bytes("ipfs://QmExample123"));
    assert_eq!(nft.minted_at, 1000);
}

#[test]
fn test_nft_ids_are_unique() {
    let mut registry = NftReward::new();
    let player1: u64 = 31;
    let player2: u64 = 32;

    let nft_id_1 = registry.mint_reward_nft(1, player1, create_metadata("NFT 1", "Desc 1", "ipfs://1"), NOW);
    let nft_id_2 = registry.mint_reward_nft(1, player2, create_metadata("NFT 2", "Desc 2", "ipfs://2"), NOW);
    let nft_id_3 = registry.mint_reward_nft(2, player1, create_metadata("NFT 3", "Desc 3", "ipfs://3"), NOW);

    assert_eq!(nft_id_1, 1);
    assert_eq!(nft_id_2, 2);
    assert_eq!(nft_id_3, 3);
}

#[test]
fn test_metadata_stored_correctly() {
    let mut registry = NftReward::new();
    let player: u64 = 31;
    let metadata = create_metadata(
        "Treasure Hunter Trophy",
        "Awarded for completing the legendary treasure hunt in record time",
        "https://cdn.example.com/nft/123.png",
    );

    let nft_id = registry.mint_reward_nft(42, player, metadata, NOW);
    let nft = registry.get_nft(nft_id).unwrap();

    assert_eq!(nft.metadata.title, bytes("Treasure Hunter Trophy"));
    assert_eq!(
        nft.metadata.description,
        bytes("Awarded for completing the legendary treasure hunt in record time")
    );
    assert_eq!(nft.metadata.image_uri, bytes("https://cdn.example.com/nft/123.png"));
}

#[test]
fn test_initial_ownership_set_correctly() {
    let mut registry = NftReward::new();
    let player: u64 = 31;
    let metadata = create_metadata("Trophy", "Trophy desc", "ipfs://trophy");

    let nft_id = registry.mint_reward_nft(1, player, metadata, NOW);

    let owner = registry.owner_of(nft_id).unwrap();
    assert_eq!(owner, player);

    let nft = registry.get_nft(nft_id).unwrap();
    assert_eq!(nft.owner, player);
}

#[test]
fn test_multiple_nfts_can_be_minted() {
    let mut registry = NftReward::new();
    let player: u64 = 31;

    let titles = ["Hunt 1", "Hunt 2", "Hunt 3", "Hunt 4", "Hunt 5"];
    let descs = [
        "Description for hunt 1",
        "Description for hunt 2",
        "Description for hunt 3",
        "Description for hunt 4",
        "Description for hunt 5",
    ];
    let uris = ["ipfs://hunt1", "ipfs://hunt2", "ipfs://hunt3", "ipfs://hunt4", "ipfs://hunt5"];

    for i in 0..5 {
        let metadata = create_metadata(titles[i], descs[i], uris[i]);
        let nft_id = registry.mint_reward_nft(i as u64 + 1, player, metadata, NOW);
        assert_eq!(nft_id, (i as u64) + 1);
    }

    assert_eq!(registry.total_supply(), 5);
}

#[test]
fn test_nft_data_can_be_queried() {
    let mut registry = NftReward::new();
    let player: u64 = 31;
    let metadata = create_metadata("Query Test", "Query desc", "ipfs://query");
    let nft_id = registry.mint_reward_nft(99, player, metadata, NOW);

    let nft = registry.get_nft(nft_id);
    assert!(nft.is_some());
    let nft = nft.unwrap();
    assert_eq!(nft.hunt_id, 99);
    assert_eq!(nft.nft_id, nft_id);
}

#[test]
fn test_get_nonexistent_nft_returns_none() {
    let registry = NftReward::new();

    let nft = registry.get_nft(999);
    assert!(nft.is_none());

    let owner = registry.owner_of(999);
    assert!(owner.is_none());
}

#[test]
fn test_transfer_nft_success() {
    let mut registry = NftReward::new();
    let from: u64 = 31;
    let to: u64 = 32;
    let metadata = create_metadata("Transfer NFT", "Test transfer", "ipfs://transfer");

    let nft_id = registry.mint_reward_nft(1, from, metadata, NOW);
    assert_eq!(registry.owner_of(nft_id), Some(from));

    registry.transfer_nft(nft_id, from, to).unwrap();

    assert_eq!(registry.owner_of(nft_id), Some(to));
    assert_eq!(registry.get_nft_owner(nft_id), Some(to));

    let nft = registry.get_nft(nft_id).unwrap();
    assert_eq!(nft.owner, to);
}

#[test]
fn test_transfer_nft_updates_player_nfts() {
    let mut registry = NftReward::new();
    let alice: u64 = 31;
    let bob: u64 = 32;

    let nft1 = registry.mint_reward_nft(1, alice, create_metadata("NFT 1", "Desc 1", "ipfs://1"), NOW);
    let nft2 = registry.mint_reward_nft(2, alice, create_metadata("NFT 2", "Desc 2", "ipfs://2"), NOW);

    let alice_nfts = registry.get_player_nfts(alice);
    assert_eq!(alice_nfts.len(), 2);
    assert!(alice_nfts[0] == nft1 || alice_nfts[0] == nft2);

    registry.transfer_nft(nft1, alice, bob).unwrap();

    let alice_nfts = registry.get_player_nfts(alice);
    assert_eq!(alice_nfts.len(), 1);

    let bob_nfts = registry.get_player_nfts(bob);
    assert_eq!(bob_nfts.len(), 1);
    assert_eq!(bob_nfts[0], nft1);
}

#[test]
fn test_transfer_nft_nonexistent_is_rejected() {
    let mut registry = NftReward::new();
    let err = registry.transfer_nft(999, 31, 32).unwrap_err();
    assert_eq!(err, NftErrorCode::NftNotFound);
}

#[test]
fn test_transfer_nft_by_non_owner_is_rejected() {
    let mut registry = NftReward::new();
    let owner: u64 = 31;
    let attacker: u64 = 66;
    let to: u64 = 32;
    let nft_id = registry.mint_reward_nft(1, owner, create_metadata("Owner Test", "Desc", "ipfs://owner"), NOW);

    let err = registry.transfer_nft(nft_id, attacker, to).unwrap_err();
    assert_eq!(err, NftErrorCode::NotOwner);
    assert_eq!(registry.owner_of(nft_id), Some(owner));
}

#[test]
fn test_transfer_nft_to_self_is_rejected() {
    let mut registry = NftReward::new();
    let owner: u64 = 31;
    let nft_id = registry.mint_reward_nft(1, owner, create_metadata("Same Addr", "Desc", "ipfs://same"), NOW);

    let err = registry.transfer_nft(nft_id, owner, owner).unwrap_err();
    assert_eq!(err, NftErrorCode::InvalidRecipient);
}

#[test]
fn test_transfer_nft_emits_event() {
    let mut registry = NftReward::new();
    let from: u64 = 31;
    let to: u64 = 32;
    let metadata = create_metadata("Event NFT", "Desc", "ipfs://event");

    let nft_id = registry.mint_reward_nft(1, from, metadata, NOW);
    registry.transfer_nft(nft_id, from, to).unwrap();

    // Transfer succeeded; the host emits the corresponding event.
    assert_eq!(registry.owner_of(nft_id), Some(to));
}

#[test]
fn test_get_player_nfts_empty_for_new_address() {
    let registry = NftReward::new();
    let new_addr: u64 = 77;
    let nfts = registry.get_player_nfts(new_addr);
    assert_eq!(nfts.len(), 0);
}

#[test]
fn test_get_nft_owner_matches_owner_of() {
    let mut registry = NftReward::new();
    let player: u64 = 31;
    let metadata = create_metadata("Alias Test", "Desc", "ipfs://alias");

    let nft_id = registry.mint_reward_nft(1, player, metadata, NOW);

    assert_eq!(registry.owner_of(nft_id), registry.get_nft_owner(nft_id));
    assert_eq!(registry.get_nft_owner(nft_id), Some(player));
}

#[test]
fn test_update_nft_metadata_owner_only_and_display_fields_only() {
    let mut registry = NftReward::new();
    let owner: u64 = 31;
    let stranger: u64 = 66;
    let nft_id =
        registry.mint_reward_nft(5, owner, create_metadata("Fixed Title", "Old desc", "ipfs://old"), NOW);

    let err = registry
        .update_nft_metadata(nft_id, stranger, bytes("New desc"), bytes("ipfs://new"))
        .unwrap_err();
    assert_eq!(err, NftErrorCode::NotOwner);

    registry
        .update_nft_metadata(nft_id, owner, bytes("New desc"), bytes("ipfs://new"))
        .unwrap();

    let m = registry.get_nft_metadata(nft_id).unwrap();
    assert_eq!(m.description, bytes("New desc"));
    assert_eq!(m.image_uri, bytes("ipfs://new"));
    assert_eq!(m.title, bytes("Fixed Title"));
    assert_eq!(m.completion_player, owner);
    assert_eq!(m.hunt_id, 5);
}

#[test]
fn test_update_nft_metadata_unknown_id() {
    let mut registry = NftReward::new();
    let err = registry
        .update_nft_metadata(3, 31, bytes("d"), bytes("u"))
        .unwrap_err();
    assert_eq!(err, NftErrorCode::NftNotFound);
}

#[test]
fn test_ownership_preserves_provenance_across_transfers() {
    let mut registry = NftReward::new();
    let completer: u64 = 31;
    let collector: u64 = 32;
    let nft_id =
        registry.mint_reward_nft(9, completer, create_metadata("Keepsake", "Desc", "ipfs://k"), NOW);

    registry.transfer_nft(nft_id, completer, collector).unwrap();

    let nft = registry.get_nft(nft_id).unwrap();
    assert_eq!(nft.owner, collector);
    assert_eq!(nft.completion_player, completer);
}

#[test]
fn test_mint_from_metadata_bag_applies_defaults() {
    let mut registry = NftReward::new();
    let player: u64 = 31;

    let nft_id = registry.mint_reward_nft_from_map(
        4,
        player,
        Some(bytes("Bag Title")),
        None,
        None,
        None,
        None,
        None,
        NOW,
    );

    let nft = registry.get_nft(nft_id).unwrap();
    assert_eq!(nft.metadata.title, bytes("Bag Title"));
    assert_eq!(nft.metadata.description, Vec::<u8>::new());
    assert_eq!(nft.metadata.image_uri, Vec::<u8>::new());
    // A missing hunt title falls back to the title.
    assert_eq!(nft.metadata.hunt_title, bytes("Bag Title"));
    assert_eq!(nft.metadata.rarity, 0);
    assert_eq!(nft.metadata.tier, 0);
}

#[test]
fn test_mint_from_metadata_bag_keeps_explicit_fields() {
    let mut registry = NftReward::new();
    let player: u64 = 31;

    let nft_id = registry.mint_reward_nft_from_map(
        4,
        player,
        Some(bytes("T")),
        Some(bytes("D")),
        Some(bytes("ipfs://u")),
        Some(bytes("H")),
        Some(3),
        Some(1),
        NOW,
    );

    let nft = registry.get_nft(nft_id).unwrap();
    assert_eq!(nft.metadata.title, bytes("T"));
    assert_eq!(nft.metadata.description, bytes("D"));
    assert_eq!(nft.metadata.image_uri, bytes("ipfs://u"));
    assert_eq!(nft.metadata.hunt_title, bytes("H"));
    assert_eq!(nft.metadata.rarity, 3);
    assert_eq!(nft.metadata.tier, 1);
    assert_eq!(nft.owner, player);
}
