//! A configurable word-substitution text transformer.
//!
//! A [`profile::Language`] bundles an ordered dictionary of word/translation
//! pairs with a capitalization policy; [`engine::translate`] applies it to a
//! piece of text. Every function states its result over `Seq<char>` models
//! of the strings involved.
//!
//! [`session`] holds what a run decides around the engine: which language
//! to use, what to report when one is missing, and when an interactive
//! session ends. [`laws`] states what holds of the engine for every input.

pub mod casing;
pub mod search;
pub mod span;
pub mod profile;
pub mod engine;
pub mod session;
pub mod laws;
