//! What the application context is given besides its configuration: the file
//! of its process id and its id; and the rules of its lifecycle.

pub mod context_id;
pub mod listeners;
pub mod messages;
pub mod providers;
pub mod lifecycle;
pub mod pid_file;
pub mod multicaster;
