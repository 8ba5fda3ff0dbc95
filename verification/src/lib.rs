//! Core logic of a party-game helper: a remotely hosted catalog of themed
//! "scenarios" (each a list of scenes, each scene a list of message
//! templates), a selection algorithm that honours user pins and locale, and a
//! pairing engine that shuffles participant names into pairs and renders a
//! random template for each pair.
//!
//! Network fetching, persistence and the UI live outside this crate; the
//! library exposes the data model, the load orchestration as a state machine,
//! and the pure (up to randomness) selection and pairing operations.

pub mod catalog;
pub mod errors;
pub mod generate;
pub mod load;
pub mod names;
pub mod pairing;
pub mod render;
mod rng;
pub mod select;
pub mod settings;
