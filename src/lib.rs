//! Rules and data structures for the cooperative card game Hanabi.

pub mod card;
pub mod config;
pub mod deck;
pub mod field;
pub mod game;

pub use card::{Card, CardId, CardInfo, CardInfoKind, Color, Number, NumberdToken, Token};
pub use config::Config;
pub use field::Field;
pub use game::{Action, CardInfoInner, CoreError, Game, PlayerInfo};
