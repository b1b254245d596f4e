//! The verified core of an interactive CPU path tracer: everything about a
//! render that is decided over integers, names and event order.
//!
//! Radiance, geometry and camera arithmetic are carried through this crate as
//! opaque pixel and payload types; what is proved here is where each pixel
//! lands, which tile owns it, in which order events travel and which error a
//! failure becomes.

pub mod bvh_node;
pub mod camera;
pub mod config;
pub mod data_bus;
pub mod error;
pub mod grid;
pub mod image;
pub mod image_action;
pub mod image_buffer;
pub mod key_inputs;
pub mod renderer;
pub mod scene;
pub mod scene_controller;
pub mod tiling;
pub mod tone_map;
pub mod yml;
