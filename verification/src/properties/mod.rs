//! Configuration property names, property sources and the resolution of
//! property values and placeholders.

pub mod name;
pub mod resolver;
pub mod source;
pub mod sources;
