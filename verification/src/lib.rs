//! Verified core of a terminal tool that manages PipeWire / PulseAudio outputs:
//! text handling for `pactl` output, the audio model, the parsers, the
//! command builders, the application state and the key-driven state machine.

pub mod text;
pub mod models;
pub mod parser;
pub mod backend;
pub mod app;
pub mod events;
pub mod view;
pub mod logging;
pub mod laws;
