//! Room session core of a terminal chat service: wire envelopes, per-room
//! connection state, the room registry with its broadcast engine, and the
//! per-connection session protocol, together with the text and layout logic
//! of the terminal client.

pub mod assoc;
pub mod client;
pub mod clipboard;
pub mod config;
pub mod connection;
pub mod keys;
pub mod layout;
pub mod models;
pub mod notifications;
pub mod protocol;
pub mod registry;
pub mod room;
pub mod rooms;
pub mod selection;
pub mod session;
pub mod text;
