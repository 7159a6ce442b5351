//! What the library promises, over what goes in and what comes out.
//!
//! Each law takes what a contract says of a result and concludes, in plain terms, what the
//! result has to be: numbers and words stand here as they are, and not under the names that
//! the contracts give them.

pub mod double;
pub mod jev;
pub mod policy;
pub mod screen;
pub mod text;
