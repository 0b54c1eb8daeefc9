//! A verified sound-mixing engine for a desktop soundboard.
//!
//! The library manages a set of independently controllable, looping audio
//! channels: per-channel volume, mute flag and transport state, plus a global
//! master volume. Every public operation updates the registry and reports the
//! backend actions (create, retune, pause, resume or destroy a voice) that an
//! unverified playback layer must carry out to match the new state.

pub mod catalog;
pub mod mixer;
pub mod laws;
