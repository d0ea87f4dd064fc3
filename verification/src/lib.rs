//! Combat and lifecycle core of a local multiplayer arena brawler.
//!
//! The crate turns input-device events and per-tick collision batches into
//! player spawn / respawn / death transitions, jump bookkeeping and
//! projectile lifecycle decisions. Everything is plain data: positions,
//! velocities and stick deflections are fixed-point integers (thousandths of
//! a unit), so that every rule can be stated and proved exactly.

pub mod collision;
pub mod gamepad;
pub mod geometry;
pub mod gilrs_plugin;
pub mod greet;
pub mod hud;
pub mod input;
pub mod knockback;
pub mod laws;
pub mod my_defaults;
pub mod player;
pub mod projectile;
pub mod rules;
pub mod table;
pub mod terrain;
pub mod tick;
