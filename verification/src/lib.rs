//! Logic of a MIDI foot controller: what its buttons, encoders, expression pedals
//! and incoming MIDI bring about, and how its LED rings look.
//!
//! [`controller::Controller`] takes input events and gives back what is to be sent
//! and shown; [`engine`] holds the rules of a preset, [`config`] what is configured
//! and [`state`] what each preset remembers. Nothing here touches hardware: times
//! and readings come in as numbers.
//!
//! Every function says in its contract what it returns. What holds of several of
//! them together is stated by the proof functions whose names start with `law`.

pub mod bounded;
pub mod config;
pub mod action;
pub mod encoder_accel;
pub mod long_press;
pub mod tap_tempo;
pub mod routing;
pub mod property_exchange;
pub mod led;
pub mod state;
pub mod engine;
pub mod controller;
pub mod laws;

// Re-export default type aliases for convenience.
pub use config::{DefaultConfig, DefaultPreset};
pub use controller::DefaultController;
pub use state::{DefaultPresetState, DefaultPresetStateStore};
