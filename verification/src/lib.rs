//! Registry of early-warning triggers: named monitored conditions that can
//! fire at most once. The registry supports creating a trigger, reading it
//! back, partially updating its mutable fields, and irreversibly marking it
//! as triggered; every successful mutation appends a notification to an
//! event stream.

pub mod laws;
pub mod registry;
pub mod trigger;
