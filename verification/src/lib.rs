//! Core engine of a two-player card game played on a forty-card deck:
//! card ordering, straight detection, sorted player collections, the
//! gem-selection payment protocol, and the turn state machine.

pub mod cards;
pub mod deck;
pub mod game;
pub mod player;
pub mod selection;
pub mod sorted;
pub mod straight;

pub use cards::Card;
pub use cards::Color;
pub use cards::Face;
pub use cards::Suit;
