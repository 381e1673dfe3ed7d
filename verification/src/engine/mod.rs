//! What the game engine keeps beside the game itself.

pub mod spectators;
