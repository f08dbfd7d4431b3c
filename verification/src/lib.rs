//! A scavenger-hunt game engine: a hunt/clue/player-progress manager, a
//! reward-pool and distribution coordinator, and an NFT issuance registry.
//!
//! Players register for hunts, submit answers to clues, and on completing
//! all required clues may claim a share of a funded reward pool — a fungible
//! amount and/or a collectible. The host environment (durable storage,
//! authorization, event emission, the fungible-token transfer primitive and
//! the transport between services) stays outside: the services here take
//! time and collaborator outcomes as arguments and keep their state as plain
//! values.

pub mod answer;
pub mod errors;
pub mod hunt;
pub mod leaderboard;
pub mod nft;
pub mod reward;
pub mod types;
