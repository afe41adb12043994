//! Session engine of a two-player tower battle server: the unit catalog and
//! hand drawing, the battle and tower model, and the registry of connected
//! users and running battles.

pub mod game;
pub mod lists;
pub mod server;
pub mod text;
