//! Verified core of a shader/program build pipeline.
//!
//! The library models the graphics driver as an explicit context object
//! ([`driver::DriverContext`]): a table of shader and program objects with
//! their compile and link state, diagnostic logs and uniform tables. The
//! pipeline functions ([`program::compile`], [`program::link_from_shaders`],
//! [`program::check_link_status`], [`program::get_uniform_location`]) are
//! verified against that model: success conditions, bounds-safe diagnostic
//! log retrieval, and release of every shader handle on every exit path.

pub mod driver;
pub mod program;
pub mod scan;
