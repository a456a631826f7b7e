//! Animation engine for an addressable LED strip.
//!
//! The library renders a small set of animation modes (off, solid colour,
//! two scrolling gradients, and a stochastic "twinkle" particle simulation)
//! into pixel buffers, and applies live configuration updates (palette,
//! mode, brightness, gradient density, frame delay).  Everything that
//! touches hardware or the network lives outside this crate; the engine
//! itself only computes frames.

pub mod color;
pub mod gradient;
pub mod led_driver;
pub mod parse;
pub mod rng;
pub mod twinkler;
