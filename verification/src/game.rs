pub mod player;
pub mod states;
