//! Distribution of statements about parachain candidates among validators.
pub mod collections;
pub mod distribute;
pub mod error;
pub mod fetching;
pub mod head;
pub mod ids;
pub mod incoming;
pub mod knowledge;
pub mod laws;
pub mod message;
pub mod outdated;
pub mod peer;
pub mod reputation;
pub mod session;
pub mod state;
pub mod statement;
pub mod stored;
pub mod tracker;
pub mod views;
