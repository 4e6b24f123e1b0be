//! Config data: the locations it is loaded from, the profiles that activate
//! it, and the rules that apply while it is imported.

pub mod activation;
pub mod contributor;
pub mod environment;
pub mod index;
pub mod invalid_property;
pub mod listener;
pub mod loader;
pub mod location;
pub mod not_found;
pub mod profiles;
pub mod resource;
