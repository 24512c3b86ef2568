//! A small molecular-dynamics simulation: the integer core of its software
//! renderer, rasterizer, sphere-mesh generator and time-series log.

pub mod color;
pub mod draw;
pub mod engine;
pub mod export;
pub mod framebuffer;
pub mod icosphere;
pub mod log_data;
pub mod mesh;
pub mod simulation;
