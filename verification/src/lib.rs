//! Line-protocol front end for a chat-relay bot.
//!
//! One line of input text is tokenized (with character-offset provenance),
//! parsed against a small fixed grammar into a command value, or rejected
//! with a caret-style diagnostic anchored at the offending span. A small
//! state machine describes how the surrounding program must react to
//! end-of-input on the different kinds of line sources (plain streams
//! retry, named pipes reopen).

pub mod command;
pub mod command_reader;
pub mod config;
pub mod line_source;
pub mod text;
pub mod tokenizer;
