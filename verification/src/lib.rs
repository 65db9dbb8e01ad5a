//! A runtime host for hot-swappable lighting profiles.
//!
//! The crate models a registry of lighting devices (strips, bulbs, bulb
//! groups) keyed by numeric id, a per-profile loader state machine that
//! scaffolds, builds and loads effect modules, and an orchestrator that owns
//! the canonical registry and broadcasts topology changes into every loaded
//! instance's private copy.

pub mod blackbody;
pub mod build_protocol;
pub mod color;
pub mod light_manager;
pub mod light_primitive;
pub mod light_types;
pub mod lighting_system;
pub mod profile;
pub mod profile_loader;

pub use blackbody::temp_to_color;
pub use color::Color;
pub use light_primitive::{ColorT, Light, Res, RgbLight, RgbtLight, TLight, TempT, TranspT};
pub use light_manager::LightManager;
pub use light_types::{Bulb, BulbGroup, LightStrip, LightingTypes};
pub use lighting_system::System;
pub use profile::{Profile, ProfileData, ProfileInterface};
pub use profile_loader::{BuildInput, LoadOutcome, LoaderError, ProfileLoader, ProfileLoaderState};
