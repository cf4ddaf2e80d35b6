//! A two-player Pong simulation on an integer play field.
//!
//! Positions and sizes are in thousandths of a pixel, frame times in
//! microseconds, and a velocity component of `UNIT` stands for 1.0.
pub mod geometry;
pub mod collision;
pub mod paddle;
pub mod ball;
pub mod game;
