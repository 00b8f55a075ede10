//! Client-side logic of a networked voxel game: message framing and the
//! receive buffer of the network streams, the triple-buffered byte channel,
//! network tick pacing, and the layout and event decisions of the game state.

pub mod game;
pub mod networking;
pub mod renderer;
pub mod resources;
