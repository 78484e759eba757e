//! A deck-building card game: card catalog, player zones, the supply of
//! purchasable piles and the event-driven game state machine.
pub mod card;
pub mod game;
pub mod player;
pub mod protocol;
pub mod supply;

pub use card::{CardEffect, CardKind, CardType, Pile, PileIndex};
pub use game::{Event, Game, TurnPhase};
pub use player::{HandIndex, Player, PlayerIndex, PlayerView};


