//! Normalisation of chat-export archives: decoding of export fragments,
//! repair of their doubly encoded text, reduction of the message shapes to one
//! canonical record, and merging of fragments into one conversation.

pub mod chronology;
pub mod cleaner;
pub mod command;
pub mod conversation;
pub mod decoder;
pub mod json;
pub mod metadata;
pub mod payload;
pub mod pipeline;
pub mod repair;
pub mod sequence;
pub mod storage;
mod text;
