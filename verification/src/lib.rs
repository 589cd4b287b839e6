//! Core library of a DMX lighting controller: the document model (fixtures,
//! fixture definitions, effects, universes), its validated commands with
//! undo/redo, and the effect runtimes that produce DMX values.

pub mod keyed;
pub mod ids;
pub mod universe;
pub mod fixture;
pub mod fixture_def;
pub mod time;
pub mod effects;
pub mod doc;
pub mod ofl;
pub mod plugins;
pub mod engine;
pub mod preview;
pub mod functions;
pub mod app_state;
pub mod views;
