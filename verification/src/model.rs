//! Shared data model: the intermediate representation handed to the
//! downstream converters, and the per-file processing unit.

pub mod ir;
