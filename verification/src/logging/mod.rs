//! The logging functionality: its properties, the rolling policy of its log
//! files and the reports of its failures.

pub mod properties;
pub mod warnings;
pub mod rolling;
pub mod handler;
