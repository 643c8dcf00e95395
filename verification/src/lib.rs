//! State-management and event-broadcast core of a multi-room chat service.
//!
//! The crate tracks room membership, an append-only per-room event log,
//! per-connection display names and per-connection starred-message sets, and
//! mediates every state-changing request (join, leave, send, edit, delete,
//! star, unstar, typing) before any notification reaches connected clients.
//! The wire transport, HTTP bootstrap and process configuration are external
//! collaborators: they hand plain values in and carry the returned events out.

pub mod clock;
pub mod error;
pub mod event;
pub mod ids;
pub mod message_management;
pub mod room;
pub mod room_events;
pub mod room_list;
pub mod send_event;
pub mod starred_messages;
pub mod state;
pub mod typing;
pub mod user_management;
