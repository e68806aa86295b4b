//! Session logic of a keyboard-driven terminal music player: the catalog of
//! files and its order, the finder that resolves typed text, the steps asked
//! of the audio output, and what each key and each tick call for.

pub mod catalog;
pub mod config;
pub mod engine;
pub mod finder;
pub mod random;
pub mod session;
pub mod span;
pub mod track;
