//! Verified core of a terminal chat client for local language models:
//! the input line editor, the conversation log, the chat decision logic,
//! the streamed-response decoder, system-prompt assembly and project detection.

pub mod text;
pub mod message;
pub mod action;
pub mod utf8;
pub mod input;
pub mod utils;
pub mod conversation;
pub mod chat;
pub mod sse;
pub mod prompt;
pub mod model_config;
