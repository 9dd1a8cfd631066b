//! Decision logic of a Discord bot: which reply to send, whom to mention,
//! which voice channel to join or leave, and which users to move, computed
//! from plain values that the bot's event loop reads from Discord.

pub mod text;
pub mod replies;
pub mod token;
pub mod guild;
pub mod spam;
pub mod random;
pub mod voice;
pub mod eventhandler;
