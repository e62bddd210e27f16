//! Configuration management: the change records kept per Configuration
//! Item.

pub mod changes;
