//! Ambient backlight logic for an Adalight LED strip driven from screen
//! captures: LED chain configuration and its validation, the sampling zones
//! along the screen edges, pixel sampling of captured frames, Adalight frame
//! encoding, and the decisions of the screen-capture session.

pub mod config;
pub mod adalight;
pub mod geometry;
pub mod color;
pub mod capture;
pub mod pacing;
