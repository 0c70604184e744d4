//! Decoding of a live-growing battle replay into chat events.

pub mod analyzer;
pub mod arena;
pub mod container;
pub mod decoder;
pub mod error;
pub mod framer;
pub mod json;
pub mod monitor;
pub mod packet;
pub mod pickle;
pub mod roster;
pub mod text;
pub mod translate;
pub mod version;
pub mod wire;
