//! Scheduling and keyframe-interpolation engine for animating neutral-atom
//! quantum programs.
//!
//! All physical quantities (times, coordinates, sizes, speeds and
//! accelerations) are integers in units chosen by the caller; interpolation
//! progress is a fixed-point fraction (see [`interpolator::FRACTION_ONE`]).

pub mod animator;
pub mod color;
pub mod config;
pub mod formats;
pub mod input;
pub mod jerk;
pub mod interpolator;
pub mod location;
pub mod movement;
pub mod pattern;
pub mod position;
pub mod render;
pub mod repository;
pub mod separated;
pub mod timeline;
pub mod ui;
