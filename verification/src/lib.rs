//! Verified core of the Blitz integration layer: routing, surface
//! bookkeeping, format conversion rules, input mapping and resource
//! accounting for a Wayland compositor embedded in a Blitz renderer.

pub mod text;
pub mod string_map;
pub mod routing;
pub mod ids;
pub mod errors;
pub mod coordinates;
pub mod format;
pub mod durations;
pub mod texture;
pub mod surfaces;
pub mod resources;
pub mod keys;
pub mod gles_surfaces;
pub mod terminals;
pub mod events;
pub mod image;
pub mod performance;
pub mod static_site;
pub mod change_detection;
pub mod wayland_surfaces;
pub mod quads;
pub mod render_setup;
