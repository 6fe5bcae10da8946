//! The rules of a signalling server for peer-to-peer lobbies.
//!
//! A host opens a lobby over a websocket, other peers join it by name, and the server passes
//! their session offers, answers and candidates on. This crate decides everything that the
//! server does; the sockets, channels and tasks around it belong to the application.

pub mod history;
pub mod laws;
pub mod lobby;
pub mod message;
pub mod order;
pub mod outside;
pub mod promises;
pub mod server;
pub mod spelling;
pub mod task;
pub mod text;
pub mod unambiguous;
pub mod wire;
