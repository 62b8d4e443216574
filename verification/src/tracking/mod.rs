//! Per-frame synchronisation of device poses with engine entities.

pub mod camera;
pub mod controllers;
pub mod entity;
pub mod hands;
pub mod input;
pub mod space;
