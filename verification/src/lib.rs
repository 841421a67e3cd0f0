//! Short human-readable renderings of byte sizes, ordinal numbers and
//! distances in time.

pub mod bytes;
pub mod decimal;
pub mod ordinal;
pub mod template;
pub mod time;
