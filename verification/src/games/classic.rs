pub mod game;
pub mod gun_events;
pub mod play;
