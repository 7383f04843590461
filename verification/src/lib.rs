//! Uniform data for a deferred-shading renderer: an arena that packs many
//! equally sized uniform blocks into one buffer, the byte layout of the
//! lighting uniforms, and what the deferred pass binds and draws.
//!
//! The library never talks to a graphics device. It works out descriptors,
//! byte contents and command lists; buffers, pipelines and texture views pass
//! through it as values of the caller's own types.

pub mod deferred;
pub mod gpu;
pub mod pod;
pub mod uniform;
