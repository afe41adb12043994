//! The game itself: towers, battles, units and the hands drawn from them.

pub mod battle;
pub mod card_gen;
pub mod entity;
pub mod movement;
