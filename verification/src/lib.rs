//! Configuration, profiles, properties and logging rules of the next-web
//! application framework, with their contracts.

pub mod text;
pub mod properties;
pub mod config;
pub mod logging;
pub mod context;
pub mod diagnostics;
pub mod application;
pub mod arguments;
