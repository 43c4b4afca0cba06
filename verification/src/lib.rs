//! Generator of Canonical-ABI marshalling glue for Rust guests.
//!
//! The library turns a resolved interface description -- records, variants,
//! resources, lists, strings, options, results, enums and flags, together
//! with per-function abstract instruction sequences -- into Rust source text
//! implementing both import glue (calling externally provided functions) and
//! export glue (exposing locally implemented functions).

pub mod bindgen;
pub mod canon;
pub mod emitter;
pub mod instr;
pub mod layout;
pub mod model;
pub mod names;
pub mod registry;
pub mod text;
