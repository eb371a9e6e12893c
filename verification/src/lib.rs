//! Rules engine of a hidden-role elimination party game: the capability
//! store, the per-night intent snapshot, night resolution, the day ballots
//! and the day/night state machine.

pub mod elections;
pub mod game_scene;
pub mod games;
pub mod in_memory_room;
pub mod models;
pub mod oracle;
pub mod player;
pub mod player_repository;
pub mod players;
pub mod room;
pub mod roster;
pub mod scenario;
pub mod scene;
pub mod waiting;
