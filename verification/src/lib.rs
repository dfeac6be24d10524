//! Colour-coded console logging. A logger keeps a colour for each of the five
//! severity levels and renders a record as its level's colour escape
//! sequence, the message, and a reset.
//!
//! - `color`: colours and their terminal escape sequences.
//! - `level`: the severity levels and their order of urgency.
//! - `logger`: the colour table, the threshold, admission, rendering, and the
//!   one-time registration with the logging facade.
//! - `facade`: what is taken on trust of the `log` crate.

pub mod color;
pub mod facade;
pub mod level;
pub mod logger;

pub use color::Color;
pub use level::Level;
pub use logger::AlreadyRegisteredError;
pub use logger::ColorLogger;
pub use logger::InitStep;
pub use logger::Registration;
