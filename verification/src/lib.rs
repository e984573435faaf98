//! A chat client's protocol core: the conversation transcript, the decoder
//! that turns a streamed response body into events, the session that folds
//! those events into rendered output and a finished reply, and the requester
//! that ties them to one conversation.

pub mod ai;
pub mod config;
pub mod decoder;
pub mod error;
pub mod event;
pub mod frame;
pub mod interact;
pub mod json;
pub mod parameter;
pub mod session;
pub mod sse;
pub mod transcript;
pub mod wire;
