//! What holds of the library as a whole.
pub mod circulation;
pub mod delivery;
pub mod events;
pub mod fetching;
pub mod head;
pub mod incoming;
pub mod knowledge;
pub mod peer;
pub mod reception;
pub mod session;
pub mod state;
pub mod views;
pub mod vocabulary;
