//! Verified core of an audio-reactive ASCII art visualiser.

pub mod ascii_bank;
pub mod layer_engine;
pub mod instancing;
pub mod motion;
pub mod color_system;
pub mod editor_state;
pub mod ui_layout;
pub mod glyph_atlas;
pub mod ui_sync;
pub mod dsp;
pub mod composition;
pub mod moments;
pub mod visual_state;
