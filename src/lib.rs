//! A persistent store of alarm times, and the rule that picks the alarms due
//! at a given wall-clock time.

pub mod model;
pub mod scanner;
pub mod store;
