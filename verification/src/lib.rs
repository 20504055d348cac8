//! The rules of a vector-style asteroids arcade game: asteroid sizes and how
//! they split, the session's screens, score, lives and waves, and how a volley
//! of bullets resolves against the asteroid field.

pub mod rocks;
pub mod session;
pub mod volley;
pub mod spawn;
pub mod hud;
