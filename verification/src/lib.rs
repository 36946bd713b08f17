//! Verified core of the Harmoniq Studio audio workstation: the channel rack
//! model, step-to-MIDI conversion, voice allocation, plugin descriptors and
//! the small real-time helpers shared by the engine and the UI.

pub mod clients;
pub mod clip_edit;
pub mod color;
pub mod factories;
pub mod float_order;
pub mod io;
pub mod midi;
pub mod mixer_skin;
pub mod parameters;
pub mod paths;
pub mod perf_hud;
pub mod plugin_sdk;
pub mod profiling;
pub mod project;
pub mod rack;
pub mod registry;
pub mod rt_event;
pub mod rt_queue;
pub mod scanner;
pub mod shapes;
pub mod simd;
pub mod sorting;
pub mod text;
pub mod voices;
pub mod widgets;
