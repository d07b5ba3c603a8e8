//! System notices for a Matrix homeserver.
//!
//! Every local user has a direct chat with a bot that writes the notices. The procedures here make
//! such chats, find them, tag them, welcome a user in them, and judge who may send an announcement
//! to all of them. What only the homeserver can do, they ask of it; see `dialogue` and `service`.
//! What holds of their conversations as a whole is stated in `laws`.
pub mod api;
pub mod backfill;
pub mod creation;
pub mod dialogue;
pub mod direct;
pub mod laws;
pub mod provision;
pub mod rooms;
pub mod service;
pub mod text;
pub mod welcome;
pub mod world;
