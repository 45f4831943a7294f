//! Compilation core of a plugin-driven web bundler: the nearest-manifest
//! resolver with its per-directory cache, the ordered hook-dispatch rule, and
//! the stylesheet plugin that merges modules into resource pots.

pub mod error;
pub mod css;
pub mod dispatch;
pub mod manifest;
