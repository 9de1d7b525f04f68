//! Gameplay core of a small arcade shooter: per-frame physics for the
//! player ship, weapon cooldown and spread, particle lifecycle (exhaust
//! and bullets), a drifting rock body, and the level aggregate that owns
//! them. All state lives on a fixed-point grid of one thousandth of a
//! unit, so every update rule is stated and proved exactly.

pub mod angle;
pub mod entity;
pub mod fixed;
pub mod framebuf;
pub mod gun;
pub mod laws;
pub mod level;
pub mod particle;
pub mod rng;
pub mod rock;
pub mod ship;
pub mod vec2;
