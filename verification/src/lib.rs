//! Core of a chat client for the Nostr protocol: keys and signed events, the
//! relay pool with its deduplicating event cache, subscription filters, and
//! per-contact conversations. The library decides; the caller owns the
//! sockets, the clock of the event loop and the disk.

pub mod config;
pub mod conversations;
pub mod core_task;
pub mod event;
pub mod keys;
pub mod lists;
pub mod message;
pub mod nostr_service;
pub mod pool_model;
pub mod pool_task;
pub mod relay;
pub mod relay_pool;
pub mod state;
pub mod subscription;
