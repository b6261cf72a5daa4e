//! A client for the message bus long-polling protocol.

pub mod builder;
pub mod client;
pub mod client_id;
pub mod decoder;
pub mod error;
pub mod json;
pub mod message;
pub mod poll;
pub mod poller;
pub mod state;
pub mod table;
pub mod text;
