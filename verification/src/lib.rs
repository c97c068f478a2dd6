//! Core of a small editor whose viewport is driven by a signed-distance-field
//! raymarching engine.
//!
//! This crate holds the verified parts: the project/object/point data model,
//! the tick scheduler that drives redraws, the sidebar's event decisions, and
//! the render engine's discrete core (pixel layout, anti-aliasing sub-sample
//! grid, sample averaging and RGBA8 quantization, and the buffer fill that
//! writes every pixel exactly once). The floating-point sampling itself
//! (camera rays, sphere tracing, normal estimation) is carried out by the
//! host shell, which hands the per-pixel sample colors to this crate in
//! fixed-point form.

pub mod geometry;
mod ids;
pub mod misc;
pub mod object;
pub mod panel;
pub mod point;
pub mod project;
pub mod render;
pub mod renderview;
pub mod sidebar;
pub mod ui;
