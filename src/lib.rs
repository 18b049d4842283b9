//! A falling-block puzzle engine: the playing field, the active piece and its
//! moves and rotations, gravity, lock delay, line clearing, autorepeat handling
//! and next-piece generation.
pub mod board;
pub mod engine;
pub mod handling;
pub mod laws;
pub mod piece;
pub mod randomizers;
pub mod rotation;
