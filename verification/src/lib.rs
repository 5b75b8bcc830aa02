//! Declarative permission guards.
//!
//! A compact permission expression (`"perm"`, `any("a","b")`, `all("a","b")`)
//! is parsed into a structured grant requirement, and from that requirement a
//! reusable guard is built. At call time the guard inspects the caller's
//! permission set and either allows the protected operation to proceed or
//! yields a structured rejection with a deterministic message and one of two
//! fixed response shapes.

pub mod claims;
pub mod grants;
pub mod grants_info;
pub mod grants_util;
pub mod text;
