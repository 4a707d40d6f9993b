//! A shedding-type card game ("Macau") with a configurable rule set: the
//! cards, the draw pile with its lazy reshuffle, the players' sorted hands,
//! the rule engine that classifies cards, and the setup of a game.

pub mod cards;
pub mod macau;
