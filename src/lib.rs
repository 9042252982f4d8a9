//! A multi-player blackjack round engine: a multi-deck shoe, hands with their
//! soft and hard totals, a fixed-policy dealer, automated and human players, and
//! a phase state machine that settles every round.
pub mod card;
pub mod deck;
mod random;
pub mod hand;
pub mod player;
pub mod dealer;
pub mod game;
