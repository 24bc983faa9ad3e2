//! The sans-I/O core of a wormhole client: small state machines that turn
//! events into events, each with a contract stating exactly what it emits.
pub mod allocator;
pub mod api;
pub mod code;
pub mod event;
pub mod input;
pub mod lister;
pub mod mailbox;
pub mod nameplate;
pub mod order;
pub mod receive;
pub mod send;
pub mod terminator;
