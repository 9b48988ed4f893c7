//! Core of a minimal instrument host: sessions, note routing, modulation and
//! the audio graph's command handling, with machine-checked contracts.

pub mod apply;
pub mod assembly;
pub mod assembly_laws;
pub mod builtin_laws;
pub mod bus;
pub mod cli;
pub mod clock;
pub mod command;
pub mod command_laws;
pub mod config;
pub mod document;
pub mod document_laws;
pub mod enumerate;
pub mod event;
pub mod graph;
pub mod graph_laws;
pub mod host_laws;
pub mod lane;
pub mod lane_laws;
pub mod listing_laws;
pub mod loader;
pub mod loader_laws;
pub mod member_laws;
pub mod midi;
pub mod midi_monitor;
pub mod modulation;
pub mod modulator_laws;
pub mod notes;
pub mod oscillator;
pub mod override_laws;
pub mod paths;
pub mod pattern;
pub mod pattern_laws;
pub mod play;
pub mod playback_laws;
pub mod plugin_laws;
pub mod rack;
pub mod range_laws;
pub mod remap;
pub mod remap_laws;
pub mod render;
pub mod reverb;
pub mod route_laws;
pub mod routes;
pub mod save;
pub mod save_laws;
pub mod scalar;
pub mod scalar_laws;
pub mod session;
pub mod session_laws;
pub mod setup;
pub mod setup_laws;
pub mod signal_laws;
pub mod text;
pub mod text_laws;
pub mod tty;
