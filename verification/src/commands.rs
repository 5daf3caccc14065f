//! The commands of the bot, one module per group.
pub mod ollama;
pub mod utils;
pub mod voice;
