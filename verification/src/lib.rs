//! A verified reader of Slippi replays.
pub mod action_state;
pub mod attack;
pub mod buttons;
pub mod bytes;
pub mod character;
pub mod error;
pub mod float;
pub mod frame;
pub mod game;
pub mod outside;
pub mod stage;
pub mod triggers;
pub mod ubjson;
pub mod parse;
