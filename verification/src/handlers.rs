//! What a stream runner does with each message that its stream delivers.

pub mod message_handler;
pub mod update_handlers;
