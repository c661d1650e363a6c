//! Whack-a-mole: the game state, the board layout, the moles and the
//! panel model that the terminal front end draws.

pub mod hole;
pub mod mole;
pub mod message_format;
pub mod layout;
pub mod game;
mod random;
pub mod text;
pub mod renderer;
