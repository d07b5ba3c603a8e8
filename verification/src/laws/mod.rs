//! What holds of whole conversations, and of what is said in them.
pub mod api;
pub mod backfill;
pub mod creation;
pub mod direct;
pub mod failures;
pub mod functions;
pub mod locks;
pub mod procedures;
pub mod provision;
pub mod requests;
pub mod rooms;
pub mod service;
pub mod text;
pub mod welcome;
