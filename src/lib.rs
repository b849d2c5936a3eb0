//! Core logic of a desktop colour picker: colour conversion, screen sampling,
//! magnifier placement and smoothing, the single-instance lock protocol, the
//! picker session state machine, the settings record and the colour history.
pub mod text;
pub mod color;
pub mod magnifier;
pub mod sampler;
pub mod lock;
pub mod config;
pub mod history;
pub mod session;
