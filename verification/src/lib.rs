//! presguel: a Hangul input method that interprets Nalgaeset input settings.
//!
//! A settings document is read ([`config`]); its key tables and its automaton are written as
//! value expressions ([`expr`]). An [`engine`] composes letters ([`unit`], [`jamo`]) into
//! syllables as a layout of the document says. The front end ([`ibus`]) takes the events of an
//! input bus, hands keys to the engine of the active entry, and says what to tell the bus.

pub mod bus;
pub mod config;
pub mod engine;
pub mod evdev;
pub mod expr;
pub mod ibus;
pub mod jamo;
pub mod ngs_seq;
pub mod paths;
pub mod settings;
pub mod text;
pub mod unit;

pub use config::{Config, Layout};
pub use engine::{Engine, KeyOutcome};
pub use evdev::us_qwerty_ascii;
pub use jamo::compose;
pub use unit::{Category, Jamo, Unit};
