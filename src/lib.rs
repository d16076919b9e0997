//! Procedural terrain mesh layout and the input state that drives a free-flying camera.

pub mod keyboard;
pub mod controller;
pub mod terrain;
