//! Capability-driven pipeline planning.

pub mod caps;
pub mod requirements;
pub mod policy;
pub mod select;
pub mod planning;
