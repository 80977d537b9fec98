//! The rules of guiñote, a two-player Spanish trick-taking game played with a 40-card
//! deck: card values and trick strength, trick resolution under a trump suit, the deck,
//! the score, and the game's screens and commands.

pub mod card;
pub mod deck;
pub mod score;
pub mod app;
